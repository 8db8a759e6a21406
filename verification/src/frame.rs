//! Frame encoding: mapping (device id, channel, command, strength) to the
//! fixed-layout sequence of pulse-width timings that one transmission drives
//! onto the output line.
//!
//! Every payload bit is encoded isochronously, as a pair of timings whose sum
//! is always [`PULSE_LEN`]: a one bit as `(ONE_LEN, PULSE_LEN - ONE_LEN)`, a
//! zero bit as `(ZERO_LEN, PULSE_LEN - ZERO_LEN)`. A frame consists of a
//! three-entry preamble, 42 bit pairs (16-bit id, 4-bit channel code, 4-bit
//! command code, 8-bit strength, 8-bit checksum, 2 zero padding bits) and a
//! two-entry trailer: 89 entries in all.

use vstd::prelude::*;

verus! {

/// Total duration of one bit period, in microseconds.
pub const PULSE_LEN: u16 = 1016;

/// High-time of a zero bit, in microseconds.
pub const ZERO_LEN: u16 = 292;

/// High-time of a one bit, in microseconds.
pub const ONE_LEN: u16 = 804;

/// Number of timing entries in a complete frame.
pub const FRAME_LEN: usize = 89;

/// One of the three receiver bindings addressable under a single device id.
#[derive(Clone, Copy, Debug, PartialEq, Eq, Structural)]
pub enum Channel {
    Channel1,
    Channel2,
    Channel3,
}

/// The three command kinds a receiver understands.
#[derive(Clone, Copy, Debug, PartialEq, Eq, Structural)]
pub enum Command {
    Shock,
    Vibrate,
    Beep,
}

impl Channel {
    /// The 4-bit wire code of this channel.
    pub open spec fn code_spec(self) -> u8 {
        match self {
            Channel::Channel1 => 0,
            Channel::Channel2 => 1,
            Channel::Channel3 => 2,
        }
    }

    /// Returns the 4-bit wire code of this channel.
    pub fn code(self) -> (code: u8)
        ensures
            code == self.code_spec(),
    {
        match self {
            Channel::Channel1 => 0,
            Channel::Channel2 => 1,
            Channel::Channel3 => 2,
        }
    }

    /// Constructs a channel from its raw selector. A selector above 2 is a
    /// caller defect, ruled out by the precondition.
    pub fn from_raw(value: u8) -> (channel: Channel)
        requires
            value <= 2,
        ensures
            channel.code_spec() == value,
    {
        if value == 0 {
            Channel::Channel1
        } else if value == 1 {
            Channel::Channel2
        } else {
            Channel::Channel3
        }
    }
}

impl Command {
    /// The 4-bit wire code of this command.
    pub open spec fn code_spec(self) -> u8 {
        match self {
            Command::Shock => 1,
            Command::Vibrate => 2,
            Command::Beep => 3,
        }
    }

    /// Returns the 4-bit wire code of this command.
    pub fn code(self) -> (code: u8)
        ensures
            code == self.code_spec(),
    {
        match self {
            Command::Shock => 1,
            Command::Vibrate => 2,
            Command::Beep => 3,
        }
    }
}

/// The frame checksum: the wrapping (modulo-256) byte sum of the id's high
/// byte, the id's low byte, the channel code, the command code and the
/// strength.
pub open spec fn checksum_spec(id: u16, channel: Channel, command: Command, strength: u8) -> u8 {
    ((id / 256 + id % 256 + channel.code_spec() + command.code_spec() + strength) % 256) as u8
}

/// Computes the frame checksum.
pub fn compute_checksum(id: u16, channel: Channel, command: Command, strength: u8) -> (sum: u8)
    ensures
        sum == checksum_spec(id, channel, command, strength),
{
    let total: u32 = (id / 256) as u32 + (id % 256) as u32 + channel.code() as u32
        + command.code() as u32 + strength as u32;
    (total % 256) as u8
}

/// The high-time of a bit: [`ONE_LEN`] for a one, [`ZERO_LEN`] for a zero.
pub open spec fn bit_timing(bit: bool) -> u16 {
    if bit {
        ONE_LEN
    } else {
        ZERO_LEN
    }
}

/// The two timing entries encoding one bit. Their sum is always
/// [`PULSE_LEN`], so every bit occupies the same total time.
pub open spec fn bit_pair(bit: bool) -> Seq<u16> {
    seq![bit_timing(bit), (PULSE_LEN - bit_timing(bit)) as u16]
}

/// The timing entries for the lowest `bits` bits of `value`, emitted
/// most-significant bit first, two entries per bit.
pub open spec fn bits_seq(value: u32, bits: nat) -> Seq<u16>
    decreases bits,
{
    if bits == 0 {
        Seq::empty()
    } else {
        bits_seq(value / 2, (bits - 1) as nat) + bit_pair(value % 2 == 1)
    }
}

/// Appends the bit-pair encoding of the lowest `bits` bits of `value`,
/// most-significant bit first.
pub fn push_bits(value: u32, bits: u8, timings: &mut Vec<u16>)
    ensures
        final(timings)@ == old(timings)@ + bits_seq(value, bits as nat),
    decreases bits,
{
    if bits == 0 {
        proof {
            assert(timings@ =~= timings@ + bits_seq(value, 0));
        }
        return;
    }
    push_bits(value / 2, bits - 1, timings);
    let bit = value % 2 == 1;
    let len = if bit {
        ONE_LEN
    } else {
        ZERO_LEN
    };
    timings.push(len);
    timings.push(PULSE_LEN - len);
    proof {
        assert(timings@ =~= old(timings)@ + bits_seq(value, bits as nat));
    }
}

/// The fixed three-entry preamble that opens every frame.
pub open spec fn preamble() -> Seq<u16> {
    seq![840u16, 1440u16, (PULSE_LEN - ZERO_LEN) as u16]
}

/// The fixed two-entry trailer that closes every frame.
pub open spec fn trailer() -> Seq<u16> {
    seq![ZERO_LEN, 1476u16]
}

/// The complete timing frame for one transmission: preamble, then the id,
/// channel code, command code, strength, checksum and two zero padding bits
/// as bit pairs, then the trailer.
pub open spec fn frame_spec(id: u16, channel: Channel, command: Command, strength: u8) -> Seq<
    u16,
> {
    preamble() + bits_seq(id as u32, 16) + bits_seq(channel.code_spec() as u32, 4) + bits_seq(
        command.code_spec() as u32,
        4,
    ) + bits_seq(strength as u32, 8) + bits_seq(
        checksum_spec(id, channel, command, strength) as u32,
        8,
    ) + bits_seq(0, 2) + trailer()
}

/// A bit-pair sequence holds two entries per encoded bit.
pub proof fn lemma_bits_seq_len(value: u32, bits: nat)
    ensures
        bits_seq(value, bits).len() == 2 * bits,
    decreases bits,
{
    if bits > 0 {
        lemma_bits_seq_len(value / 2, (bits - 1) as nat);
    }
}

/// Every frame has exactly [`FRAME_LEN`] entries, whatever the inputs.
pub proof fn lemma_frame_len(id: u16, channel: Channel, command: Command, strength: u8)
    ensures
        frame_spec(id, channel, command, strength).len() == FRAME_LEN,
{
    lemma_bits_seq_len(id as u32, 16);
    lemma_bits_seq_len(channel.code_spec() as u32, 4);
    lemma_bits_seq_len(command.code_spec() as u32, 4);
    lemma_bits_seq_len(strength as u32, 8);
    lemma_bits_seq_len(checksum_spec(id, channel, command, strength) as u32, 8);
    lemma_bits_seq_len(0, 2);
}

/// A sequence made of timing pairs whose members sum to [`PULSE_LEN`]:
/// `pairs` pairs, entry `2 * k` and entry `2 * k + 1` forming pair `k`.
pub open spec fn isochronous(s: Seq<u16>, pairs: nat) -> bool {
    forall|k: int| 0 <= k < pairs ==> #[trigger] s[2 * k] + s[2 * k + 1] == PULSE_LEN
}

/// Each pair of a bit-pair sequence sums to [`PULSE_LEN`].
pub proof fn lemma_bits_seq_isochronous(value: u32, bits: nat)
    ensures
        isochronous(bits_seq(value, bits), bits),
    decreases bits,
{
    if bits > 0 {
        let prefix = bits_seq(value / 2, (bits - 1) as nat);
        lemma_bits_seq_isochronous(value / 2, (bits - 1) as nat);
        lemma_bits_seq_len(value / 2, (bits - 1) as nat);
        let s = bits_seq(value, bits);
        assert forall|k: int| 0 <= k < bits implies #[trigger] s[2 * k] + s[2 * k + 1]
            == PULSE_LEN by {
            if k < bits - 1 {
                assert(prefix[2 * k] + prefix[2 * k + 1] == PULSE_LEN);
            }
        }
    }
}

/// Isochrony is preserved by concatenating pair sequences.
pub proof fn lemma_isochronous_concat(s1: Seq<u16>, s2: Seq<u16>, p1: nat, p2: nat)
    requires
        s1.len() == 2 * p1,
        s2.len() == 2 * p2,
        isochronous(s1, p1),
        isochronous(s2, p2),
    ensures
        isochronous(s1 + s2, (p1 + p2) as nat),
{
    let s = s1 + s2;
    assert forall|k: int| 0 <= k < p1 + p2 implies #[trigger] s[2 * k] + s[2 * k + 1]
        == PULSE_LEN by {
        if k < p1 {
            assert(s1[2 * k] + s1[2 * k + 1] == PULSE_LEN);
        } else {
            assert(s2[2 * (k - p1)] + s2[2 * (k - p1) + 1] == PULSE_LEN);
        }
    }
}

/// Every one of the 42 bit-encoding pairs of a frame — entries 3 to 86 —
/// sums to [`PULSE_LEN`], whatever the inputs: the isochronous encoding the
/// receiver's timing recovery relies on.
pub proof fn lemma_frame_isochronous(id: u16, channel: Channel, command: Command, strength: u8)
    ensures
        forall|k: int|
            0 <= k < 42 ==> #[trigger] frame_spec(id, channel, command, strength)[3 + 2 * k]
                + frame_spec(id, channel, command, strength)[3 + 2 * k + 1] == PULSE_LEN,
{
    let checksum = checksum_spec(id, channel, command, strength);
    let a = bits_seq(id as u32, 16);
    let b = bits_seq(channel.code_spec() as u32, 4);
    let c = bits_seq(command.code_spec() as u32, 4);
    let d = bits_seq(strength as u32, 8);
    let e = bits_seq(checksum as u32, 8);
    let f = bits_seq(0, 2);
    lemma_bits_seq_len(id as u32, 16);
    lemma_bits_seq_len(channel.code_spec() as u32, 4);
    lemma_bits_seq_len(command.code_spec() as u32, 4);
    lemma_bits_seq_len(strength as u32, 8);
    lemma_bits_seq_len(checksum as u32, 8);
    lemma_bits_seq_len(0, 2);
    lemma_bits_seq_isochronous(id as u32, 16);
    lemma_bits_seq_isochronous(channel.code_spec() as u32, 4);
    lemma_bits_seq_isochronous(command.code_spec() as u32, 4);
    lemma_bits_seq_isochronous(strength as u32, 8);
    lemma_bits_seq_isochronous(checksum as u32, 8);
    lemma_bits_seq_isochronous(0, 2);
    lemma_isochronous_concat(a, b, 16, 4);
    lemma_isochronous_concat(a + b, c, 20, 4);
    lemma_isochronous_concat(a + b + c, d, 24, 8);
    lemma_isochronous_concat(a + b + c + d, e, 32, 8);
    lemma_isochronous_concat(a + b + c + d + e, f, 40, 2);
    let pairs = a + b + c + d + e + f;
    let frame = frame_spec(id, channel, command, strength);
    assert forall|k: int| 0 <= k < 42 implies #[trigger] frame[3 + 2 * k] + frame[3 + 2 * k + 1]
        == PULSE_LEN by {
        assert(frame[3 + 2 * k] == pairs[2 * k]);
        assert(frame[3 + 2 * k + 1] == pairs[2 * k + 1]);
        assert(pairs[2 * k] + pairs[2 * k + 1] == PULSE_LEN);
    }
}

/// Two frames that differ only in strength are identical outside the
/// strength bit field (entries 51 to 66) and the checksum bit field (entries
/// 67 to 82).
pub proof fn lemma_frame_strength_fields(
    id: u16,
    channel: Channel,
    command: Command,
    s1: u8,
    s2: u8,
)
    ensures
        forall|i: int|
            (0 <= i < 51 || 83 <= i < 89) ==> #[trigger] frame_spec(id, channel, command, s1)[i]
                == frame_spec(id, channel, command, s2)[i],
{
    let f1 = frame_spec(id, channel, command, s1);
    let f2 = frame_spec(id, channel, command, s2);
    let a = bits_seq(id as u32, 16);
    let b = bits_seq(channel.code_spec() as u32, 4);
    let c = bits_seq(command.code_spec() as u32, 4);
    lemma_bits_seq_len(id as u32, 16);
    lemma_bits_seq_len(channel.code_spec() as u32, 4);
    lemma_bits_seq_len(command.code_spec() as u32, 4);
    lemma_bits_seq_len(s1 as u32, 8);
    lemma_bits_seq_len(s2 as u32, 8);
    lemma_bits_seq_len(checksum_spec(id, channel, command, s1) as u32, 8);
    lemma_bits_seq_len(checksum_spec(id, channel, command, s2) as u32, 8);
    lemma_bits_seq_len(0, 2);
    let head = preamble() + a + b + c;
    assert forall|i: int| (0 <= i < 51 || 83 <= i < 89) implies #[trigger] f1[i] == f2[i] by {
        if i < 51 {
            assert(f1[i] == head[i]);
            assert(f2[i] == head[i]);
        } else {
            let tail = bits_seq(0, 2) + trailer();
            assert(f1[i] == tail[i - 83]);
            assert(f2[i] == tail[i - 83]);
        }
    }
}

/// Builds the timing frame for one transmission.
pub fn encode_frame(id: u16, channel: Channel, command: Command, strength: u8) -> (frame: Vec<
    u16,
>)
    ensures
        frame@ == frame_spec(id, channel, command, strength),
        frame@.len() == FRAME_LEN,
{
    let checksum = compute_checksum(id, channel, command, strength);
    let mut timings: Vec<u16> = Vec::new();
    timings.push(840);
    timings.push(1440);
    timings.push(PULSE_LEN - ZERO_LEN);
    proof {
        assert(timings@ =~= preamble());
    }
    push_bits(id as u32, 16, &mut timings);
    push_bits(channel.code() as u32, 4, &mut timings);
    push_bits(command.code() as u32, 4, &mut timings);
    push_bits(strength as u32, 8, &mut timings);
    push_bits(checksum as u32, 8, &mut timings);
    push_bits(0, 2, &mut timings);
    timings.push(ZERO_LEN);
    timings.push(1476);
    proof {
        assert(timings@ =~= frame_spec(id, channel, command, strength));
        lemma_frame_len(id, channel, command, strength);
    }
    timings
}

} // verus!
