//! The transmitter: owns the device id and the pin, delay and clock
//! capabilities, drives frames onto the line, and repeats a frame
//! back-to-back until a requested wall-clock duration has elapsed.

use vstd::prelude::*;
use crate::capability::{DelayUs, InstantFn, OutputPin};
use crate::frame::{encode_frame, frame_spec, Channel, Command};

verus! {

/// A span of wall-clock time, counted in microseconds.
#[derive(Clone, Copy, Debug, PartialEq, Eq, Structural)]
pub struct Duration {
    pub micros: u64,
}

impl Duration {
    /// A duration of `us` microseconds.
    pub fn micros(us: u64) -> (duration: Duration)
        ensures
            duration.micros == us,
    {
        Duration { micros: us }
    }

    /// A duration of `ms` whole milliseconds.
    pub fn millis(ms: u32) -> (duration: Duration)
        ensures
            duration.micros == ms as u64 * 1000,
    {
        Duration { micros: ms as u64 * 1000 }
    }
}

/// The duration meant by `ms` whole milliseconds.
pub open spec fn millis_spec(ms: u32) -> Duration {
    Duration { micros: (ms * 1000) as u64 }
}

/// `s` repeated back-to-back `n` times.
pub open spec fn seq_repeat<A>(s: Seq<A>, n: nat) -> Seq<A>
    decreases n,
{
    if n == 0 {
        Seq::empty()
    } else {
        seq_repeat(s, (n - 1) as nat) + s
    }
}

/// The levels the pulse driver commands for a frame of `len` entries: the
/// line starts low, flips after every entry, and is forced low at the end.
pub open spec fn drive_levels(len: nat) -> Seq<bool> {
    Seq::new(len, |i: int| i % 2 == 1).push(false)
}

/// The first moment at which no further frame is begun: the reading taken on
/// entry plus the requested duration, saturating at the end of the clock's
/// range.
pub open spec fn deadline_spec(start: u64, duration_us: u64) -> u64 {
    if start + duration_us <= u64::MAX {
        (start + duration_us) as u64
    } else {
        u64::MAX
    }
}

/// What one command call does, stated over the capability histories before
/// (`delays0`, `levels0`, `readings0`) and after (`delays1`, `levels1`,
/// `readings1`) the call, for a repeat count `n`:
///
/// * the frame for `(id, channel, command, strength)` was handed to the delay
///   exactly `n` times, and the pin was driven through it exactly `n` times,
///   each pass ending with the line low;
/// * the clock was read once on entry and once before each of the `n` frames
///   and once more to decide to stop: every reading before a frame fell short
///   of the deadline, the last reading reached it;
/// * a zero duration sends no frame at all.
pub open spec fn transmission(
    id: u16,
    channel: Channel,
    command: Command,
    strength: u8,
    duration: Duration,
    delays0: Seq<u16>,
    delays1: Seq<u16>,
    levels0: Seq<bool>,
    levels1: Seq<bool>,
    readings0: Seq<u64>,
    readings1: Seq<u64>,
    n: nat,
) -> bool {
    let frame = frame_spec(id, channel, command, strength);
    let start = readings1[readings0.len() as int];
    let deadline = deadline_spec(start, duration.micros);
    &&& delays1 == delays0 + seq_repeat(frame, n)
    &&& levels1 == levels0 + seq_repeat(drive_levels(frame.len()), n)
    &&& readings1.len() == readings0.len() + n + 2
    &&& readings1.subrange(0, readings0.len() as int) == readings0
    &&& (forall|i: int|
        readings0.len() + 1 <= i < readings0.len() + 1 + n ==> #[trigger] readings1[i] < deadline)
    &&& readings1[(readings0.len() + 1 + n) as int] >= deadline
    &&& (duration.micros == 0 ==> n == 0)
}

/// The transmitter: one device id, and exclusive ownership of the pin, the
/// delay and the clock.
pub struct Transmitter<PIN, DELAY, NOW> where PIN: OutputPin, DELAY: DelayUs, NOW: InstantFn {
    pin: PIN,
    delay: DELAY,
    now_fn: NOW,
    id: u16,
}

impl<PIN, DELAY, NOW> Transmitter<PIN, DELAY, NOW> where
    PIN: OutputPin,
    DELAY: DelayUs,
    NOW: InstantFn,
 {
    /// The device id this transmitter was built with.
    pub closed spec fn spec_id(&self) -> u16 {
        self.id
    }

    /// The level history of the owned pin.
    pub closed spec fn pin_levels(&self) -> Seq<bool> {
        self.pin.levels()
    }

    /// The hold-time history of the owned delay.
    pub closed spec fn delay_log(&self) -> Seq<u16> {
        self.delay.delays()
    }

    /// The reading history of the owned clock.
    pub closed spec fn clock_readings(&self) -> Seq<u64> {
        self.now_fn.readings()
    }

    /// Builds a transmitter. Every capability is required: there is no
    /// partially constructed transmitter.
    pub fn new(pin: PIN, delay: DELAY, now_fn: NOW, id: u16) -> (transmitter: Self)
        ensures
            transmitter.spec_id() == id,
            transmitter.pin_levels() == pin.levels(),
            transmitter.delay_log() == delay.delays(),
            transmitter.clock_readings() == now_fn.readings(),
    {
        Transmitter { pin, delay, now_fn, id }
    }

    /// The device id.
    pub fn id(&self) -> (id: u16)
        ensures
            id == self.spec_id(),
    {
        self.id
    }

    /// The owned pin.
    pub fn pin_ref(&self) -> (pin: &PIN)
        ensures
            pin.levels() == self.pin_levels(),
    {
        &self.pin
    }

    /// The owned delay.
    pub fn delay_ref(&self) -> (delay: &DELAY)
        ensures
            delay.delays() == self.delay_log(),
    {
        &self.delay
    }

    /// Binds the transmitter to a channel. The session takes the transmitter
    /// over, so no two transmissions can ever interleave on the one pin;
    /// [`ChannelTransmitter::release`] gives the transmitter back.
    pub fn channel(self, channel: Channel) -> (session: ChannelTransmitter<PIN, DELAY, NOW>)
        ensures
            session.spec_channel() == channel,
            session.spec_id() == self.spec_id(),
            session.pin_levels() == self.pin_levels(),
            session.delay_log() == self.delay_log(),
            session.clock_readings() == self.clock_readings(),
    {
        ChannelTransmitter { device: self, channel }
    }

    /// The pulse driver: drives the pin through one frame, each entry held
    /// for its own duration, levels alternating from low, and forces the
    /// line low afterwards.
    fn send_timing(&mut self, timings: &Vec<u16>)
        ensures
            final(self).id == old(self).id,
            final(self).now_fn == old(self).now_fn,
            final(self).delay.delays() == old(self).delay.delays() + timings@,
            final(self).pin.levels() == old(self).pin.levels() + drive_levels(timings@.len()),
    {
        let ghost delays0 = self.delay.delays();
        let ghost levels0 = self.pin.levels();
        let mut level = false;
        let mut i: usize = 0;
        while i < timings.len()
            invariant
                i <= timings.len(),
                level == (i % 2 == 1),
                self.id == old(self).id,
                self.now_fn == old(self).now_fn,
                self.delay.delays() == delays0 + timings@.subrange(0, i as int),
                self.pin.levels() == levels0 + Seq::new(i as nat, |j: int| j % 2 == 1),
            decreases timings.len() - i,
        {
            if level {
                self.pin.set_high();
            } else {
                self.pin.set_low();
            }
            self.delay.delay_us(timings[i]);
            proof {
                assert(self.pin.levels() =~= levels0 + Seq::new(
                    (i + 1) as nat,
                    |j: int| j % 2 == 1,
                ));
                assert(self.delay.delays() =~= delays0 + timings@.subrange(0, i + 1));
            }
            level = !level;
            i = i + 1;
        }
        self.pin.set_low();
        proof {
            assert(timings@.subrange(0, timings@.len() as int) =~= timings@);
            assert(self.pin.levels() =~= levels0 + drive_levels(timings@.len()));
        }
    }

    /// Encodes the frame once, then retransmits it until the requested
    /// duration has elapsed. The deadline is checked only between whole
    /// frames, so the elapsed time can overrun the duration by up to one
    /// frame.
    fn send_command(
        &mut self,
        channel: Channel,
        command: Command,
        strength: u8,
        duration: Duration,
    )
        ensures
            final(self).id == old(self).id,
            exists|n: nat|
                #[trigger] transmission(
                    old(self).id,
                    channel,
                    command,
                    strength,
                    duration,
                    old(self).delay.delays(),
                    final(self).delay.delays(),
                    old(self).pin.levels(),
                    final(self).pin.levels(),
                    old(self).now_fn.readings(),
                    final(self).now_fn.readings(),
                    n,
                ),
    {
        let ghost id0 = self.id;
        let ghost delays0 = self.delay.delays();
        let ghost levels0 = self.pin.levels();
        let ghost readings0 = self.now_fn.readings();
        let timings = encode_frame(self.id, channel, command, strength);
        let start = self.now_fn.now();
        let deadline = if duration.micros <= u64::MAX - start {
            start + duration.micros
        } else {
            u64::MAX
        };
        let ghost mut n: nat = 0;
        proof {
            assert(self.delay.delays() =~= delays0 + seq_repeat(timings@, 0));
            assert(self.pin.levels() =~= levels0 + seq_repeat(drive_levels(timings@.len()), 0));
        }
        loop
            invariant_except_break
                self.id == id0,
                timings@ == frame_spec(id0, channel, command, strength),
                deadline == deadline_spec(start, duration.micros),
                self.delay.delays() == delays0 + seq_repeat(timings@, n),
                self.pin.levels() == levels0 + seq_repeat(drive_levels(timings@.len()), n),
                self.now_fn.readings().len() == readings0.len() + 1 + n,
                self.now_fn.readings().subrange(0, readings0.len() as int) == readings0,
                self.now_fn.readings()[readings0.len() as int] == start,
                forall|i: int|
                    readings0.len() + 1 <= i < readings0.len() + 1 + n
                        ==> #[trigger] self.now_fn.readings()[i] < deadline,
                duration.micros == 0 ==> n == 0,
                self.now_fn.readings().last() <= deadline,
            ensures
                self.id == id0,
                transmission(
                    id0,
                    channel,
                    command,
                    strength,
                    duration,
                    delays0,
                    self.delay.delays(),
                    levels0,
                    self.pin.levels(),
                    readings0,
                    self.now_fn.readings(),
                    n,
                ),
            decreases deadline - self.now_fn.readings().last(),
        {
            let t = self.now_fn.now();
            if t >= deadline {
                proof {
                    assert(self.now_fn.readings().subrange(0, readings0.len() as int)
                        =~= readings0);
                }
                break ;
            }
            self.send_timing(&timings);
            proof {
                n = n + 1;
                assert(self.delay.delays() =~= delays0 + seq_repeat(timings@, n));
                assert(self.pin.levels() =~= levels0 + seq_repeat(drive_levels(timings@.len()), n));
                assert(self.now_fn.readings().subrange(0, readings0.len() as int) =~= readings0);
            }
        }
    }
}

/// A short-lived session binding the transmitter to one channel and exposing
/// the semantic command API. It owns the transmitter for its lifetime, which
/// keeps transmissions from overlapping.
pub struct ChannelTransmitter<PIN, DELAY, NOW> where
    PIN: OutputPin,
    DELAY: DelayUs,
    NOW: InstantFn,
 {
    device: Transmitter<PIN, DELAY, NOW>,
    channel: Channel,
}

/// What every semantic command ensures: the device id and the channel are
/// untouched, and for some repeat count `n` the capability histories grew by
/// exactly one [`transmission`] of the command's frame.
pub open spec fn command_sent<PIN, DELAY, NOW>(
    pre: ChannelTransmitter<PIN, DELAY, NOW>,
    post: ChannelTransmitter<PIN, DELAY, NOW>,
    command: Command,
    strength: u8,
    duration: Duration,
) -> bool where PIN: OutputPin, DELAY: DelayUs, NOW: InstantFn {
    &&& post.spec_id() == pre.spec_id()
    &&& post.spec_channel() == pre.spec_channel()
    &&& exists|n: nat|
        #[trigger] transmission(
            pre.spec_id(),
            pre.spec_channel(),
            command,
            strength,
            duration,
            pre.delay_log(),
            post.delay_log(),
            pre.pin_levels(),
            post.pin_levels(),
            pre.clock_readings(),
            post.clock_readings(),
            n,
        )
}

/// `s` repeated `n` times holds `n * s.len()` entries.
pub proof fn lemma_seq_repeat_len<A>(s: Seq<A>, n: nat)
    ensures
        seq_repeat(s, n).len() == n * s.len(),
    decreases n,
{
    if n > 0 {
        lemma_seq_repeat_len(s, (n - 1) as nat);
        assert(seq_repeat(s, n) == seq_repeat(s, (n - 1) as nat) + s);
        assert(((n - 1) as nat) * s.len() + s.len() == n * s.len()) by (nonlinear_arith)
            requires n >= 1;
        assert(seq_repeat(s, n).len() == n * s.len());
    } else {
        assert(n * s.len() == 0) by (nonlinear_arith)
            requires n == 0;
        assert(seq_repeat(s, n).len() == 0);
    }
}

/// A command called with a zero duration transmits nothing: the delay and
/// pin histories are exactly what they were.
pub proof fn lemma_zero_duration_sends_nothing<PIN, DELAY, NOW>(
    pre: ChannelTransmitter<PIN, DELAY, NOW>,
    post: ChannelTransmitter<PIN, DELAY, NOW>,
    command: Command,
    strength: u8,
    duration: Duration,
) where PIN: OutputPin, DELAY: DelayUs, NOW: InstantFn
    requires
        command_sent(pre, post, command, strength, duration),
        duration.micros == 0,
    ensures
        post.delay_log() == pre.delay_log(),
        post.pin_levels() == pre.pin_levels(),
{
    let n = choose|n: nat|
        #[trigger] transmission(
            pre.spec_id(),
            pre.spec_channel(),
            command,
            strength,
            duration,
            pre.delay_log(),
            post.delay_log(),
            pre.pin_levels(),
            post.pin_levels(),
            pre.clock_readings(),
            post.clock_readings(),
            n,
        );
    assert(n == 0);
    assert(post.delay_log() =~= pre.delay_log());
    assert(post.pin_levels() =~= pre.pin_levels());
}

/// Whether a command transmits at least one frame is decided by its first
/// deadline check: a frame goes out exactly when the clock reading taken
/// right after the deadline was computed still falls short of it.
pub proof fn lemma_first_check_decides<PIN, DELAY, NOW>(
    pre: ChannelTransmitter<PIN, DELAY, NOW>,
    post: ChannelTransmitter<PIN, DELAY, NOW>,
    command: Command,
    strength: u8,
    duration: Duration,
) where PIN: OutputPin, DELAY: DelayUs, NOW: InstantFn
    requires
        command_sent(pre, post, command, strength, duration),
    ensures
        ({
            let k = pre.clock_readings().len() as int;
            let readings = post.clock_readings();
            let deadline = deadline_spec(readings[k], duration.micros);
            post.delay_log().len() > pre.delay_log().len() <==> readings[k + 1] < deadline
        }),
{
    let n = choose|n: nat|
        #[trigger] transmission(
            pre.spec_id(),
            pre.spec_channel(),
            command,
            strength,
            duration,
            pre.delay_log(),
            post.delay_log(),
            pre.pin_levels(),
            post.pin_levels(),
            pre.clock_readings(),
            post.clock_readings(),
            n,
        );
    let frame = frame_spec(pre.spec_id(), pre.spec_channel(), command, strength);
    lemma_seq_repeat_len(frame, n);
    crate::frame::lemma_frame_len(pre.spec_id(), pre.spec_channel(), command, strength);
    assert(n >= 1 ==> n * frame.len() >= frame.len()) by (nonlinear_arith);
}

/// The pulse driver leaves the line low after any frame, whatever the
/// frame's parity: a command that drove the pin at all leaves it low.
pub proof fn lemma_pin_rests_low<PIN, DELAY, NOW>(
    pre: ChannelTransmitter<PIN, DELAY, NOW>,
    post: ChannelTransmitter<PIN, DELAY, NOW>,
    command: Command,
    strength: u8,
    duration: Duration,
) where PIN: OutputPin, DELAY: DelayUs, NOW: InstantFn
    requires
        command_sent(pre, post, command, strength, duration),
        post.pin_levels().len() > pre.pin_levels().len(),
    ensures
        post.pin_levels().last() == false,
{
    let n = choose|n: nat|
        #[trigger] transmission(
            pre.spec_id(),
            pre.spec_channel(),
            command,
            strength,
            duration,
            pre.delay_log(),
            post.delay_log(),
            pre.pin_levels(),
            post.pin_levels(),
            pre.clock_readings(),
            post.clock_readings(),
            n,
        );
    let frame = frame_spec(pre.spec_id(), pre.spec_channel(), command, strength);
    let pass = drive_levels(frame.len());
    assert(n > 0);
    assert(seq_repeat(pass, n) == seq_repeat(pass, (n - 1) as nat) + pass);
    assert(post.pin_levels().last() == pass.last());
}

impl<PIN, DELAY, NOW> ChannelTransmitter<PIN, DELAY, NOW> where
    PIN: OutputPin,
    DELAY: DelayUs,
    NOW: InstantFn,
 {
    /// The channel this session is bound to.
    pub closed spec fn spec_channel(&self) -> Channel {
        self.channel
    }

    /// The device id of the owned transmitter.
    pub closed spec fn spec_id(&self) -> u16 {
        self.device.spec_id()
    }

    /// The level history of the owned pin.
    pub closed spec fn pin_levels(&self) -> Seq<bool> {
        self.device.pin_levels()
    }

    /// The hold-time history of the owned delay.
    pub closed spec fn delay_log(&self) -> Seq<u16> {
        self.device.delay_log()
    }

    /// The reading history of the owned clock.
    pub closed spec fn clock_readings(&self) -> Seq<u64> {
        self.device.clock_readings()
    }

    /// Gives the transmitter back, ending the session.
    pub fn release(self) -> (transmitter: Transmitter<PIN, DELAY, NOW>)
        ensures
            transmitter.spec_id() == self.spec_id(),
            transmitter.pin_levels() == self.pin_levels(),
            transmitter.delay_log() == self.delay_log(),
            transmitter.clock_readings() == self.clock_readings(),
    {
        self.device
    }

    /// Sends a shock command of the given strength for the given duration.
    pub fn shock(&mut self, strength: u8, duration: Duration)
        ensures
            command_sent(*old(self), *final(self), Command::Shock, strength, duration),
    {
        self.device.send_command(self.channel, Command::Shock, strength, duration);
        proof {
            let pre = *old(self);
            let n = choose|n: nat|
                #[trigger] transmission(
                    pre.device.id,
                    pre.channel,
                    Command::Shock,
                    strength,
                    duration,
                    pre.device.delay.delays(),
                    self.device.delay.delays(),
                    pre.device.pin.levels(),
                    self.device.pin.levels(),
                    pre.device.now_fn.readings(),
                    self.device.now_fn.readings(),
                    n,
                );
            assert(transmission(
                pre.spec_id(),
                pre.spec_channel(),
                Command::Shock,
                strength,
                duration,
                pre.delay_log(),
                self.delay_log(),
                pre.pin_levels(),
                self.pin_levels(),
                pre.clock_readings(),
                self.clock_readings(),
                n,
            ));
        }
    }

    /// Sends a shock command, the duration given in whole milliseconds.
    pub fn shock_ms(&mut self, strength: u8, duration: u32)
        ensures
            command_sent(
                *old(self),
                *final(self),
                Command::Shock,
                strength,
                millis_spec(duration),
            ),
    {
        self.shock(strength, Duration::millis(duration));
    }

    /// Sends a vibration command of the given strength for the given
    /// duration.
    pub fn vibrate(&mut self, strength: u8, duration: Duration)
        ensures
            command_sent(*old(self), *final(self), Command::Vibrate, strength, duration),
    {
        self.device.send_command(self.channel, Command::Vibrate, strength, duration);
        proof {
            let pre = *old(self);
            let n = choose|n: nat|
                #[trigger] transmission(
                    pre.device.id,
                    pre.channel,
                    Command::Vibrate,
                    strength,
                    duration,
                    pre.device.delay.delays(),
                    self.device.delay.delays(),
                    pre.device.pin.levels(),
                    self.device.pin.levels(),
                    pre.device.now_fn.readings(),
                    self.device.now_fn.readings(),
                    n,
                );
            assert(transmission(
                pre.spec_id(),
                pre.spec_channel(),
                Command::Vibrate,
                strength,
                duration,
                pre.delay_log(),
                self.delay_log(),
                pre.pin_levels(),
                self.pin_levels(),
                pre.clock_readings(),
                self.clock_readings(),
                n,
            ));
        }
    }

    /// Sends a vibration command, the duration given in whole milliseconds.
    pub fn vibrate_ms(&mut self, strength: u8, duration: u32)
        ensures
            command_sent(
                *old(self),
                *final(self),
                Command::Vibrate,
                strength,
                millis_spec(duration),
            ),
    {
        self.vibrate(strength, Duration::millis(duration));
    }

    /// Sends a beep command for the given duration. The strength field of
    /// the frame is always zero for a beep.
    pub fn beep(&mut self, duration: Duration)
        ensures
            command_sent(*old(self), *final(self), Command::Beep, 0, duration),
    {
        self.device.send_command(self.channel, Command::Beep, 0, duration);
        proof {
            let pre = *old(self);
            let n = choose|n: nat|
                #[trigger] transmission(
                    pre.device.id,
                    pre.channel,
                    Command::Beep,
                    0,
                    duration,
                    pre.device.delay.delays(),
                    self.device.delay.delays(),
                    pre.device.pin.levels(),
                    self.device.pin.levels(),
                    pre.device.now_fn.readings(),
                    self.device.now_fn.readings(),
                    n,
                );
            assert(transmission(
                pre.spec_id(),
                pre.spec_channel(),
                Command::Beep,
                0,
                duration,
                pre.delay_log(),
                self.delay_log(),
                pre.pin_levels(),
                self.pin_levels(),
                pre.clock_readings(),
                self.clock_readings(),
                n,
            ));
        }
    }

    /// Sends a beep command, the duration given in whole milliseconds.
    pub fn beep_ms(&mut self, duration: u32)
        ensures
            command_sent(
                *old(self),
                *final(self),
                Command::Beep,
                0,
                millis_spec(duration),
            ),
    {
        self.beep(Duration::millis(duration));
    }
}

} // verus!
