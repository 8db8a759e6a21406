use ch8803::frame::{compute_checksum, encode_frame, Channel, Command};

/// Builds the expected frame by the documented layout: preamble, then each
/// bit of (id, channel code, command code, strength, checksum, two zero
/// padding bits) most-significant first as a pair summing to 1016, then the
/// trailer.
fn expected_frame(id: u16, channel_code: u8, command_code: u8, strength: u8) -> Vec<u16> {
    let checksum = (id >> 8) as u8;
    let checksum = checksum
        .wrapping_add(id as u8)
        .wrapping_add(channel_code)
        .wrapping_add(command_code)
        .wrapping_add(strength);
    let mut out: Vec<u16> = vec![840, 1440, 1016 - 292];
    let mut push_bits = |value: u32, bits: u8, out: &mut Vec<u16>| {
        for i in (0..bits).rev() {
            let len: u16 = if (value >> i) & 1 != 0 { 804 } else { 292 };
            out.push(len);
            out.push(1016 - len);
        }
    };
    push_bits(id as u32, 16, &mut out);
    push_bits(channel_code as u32, 4, &mut out);
    push_bits(command_code as u32, 4, &mut out);
    push_bits(strength as u32, 8, &mut out);
    push_bits(checksum as u32, 8, &mut out);
    push_bits(0, 2, &mut out);
    out.push(292);
    out.push(1476);
    out
}

#[test]
fn channel_codes() {
    assert_eq!(Channel::Channel1.code(), 0);
    assert_eq!(Channel::Channel2.code(), 1);
    assert_eq!(Channel::Channel3.code(), 2);
    assert_eq!(Channel::from_raw(0), Channel::Channel1);
    assert_eq!(Channel::from_raw(1), Channel::Channel2);
    assert_eq!(Channel::from_raw(2), Channel::Channel3);
}

#[test]
fn command_codes() {
    assert_eq!(Command::Shock.code(), 1);
    assert_eq!(Command::Vibrate.code(), 2);
    assert_eq!(Command::Beep.code(), 3);
}

#[test]
fn checksum_is_wrapping_byte_sum() {
    // 0x0D + 0x25 + 0 + 3 + 0 = 0x35.
    assert_eq!(compute_checksum(0x0D25, Channel::Channel1, Command::Beep, 0), 0x35);
    // 0x12 + 0x34 + 1 + 1 + 50 = 0x7A.
    assert_eq!(compute_checksum(0x1234, Channel::Channel2, Command::Shock, 50), 0x7A);
    // 255 + 255 + 2 + 3 + 255 = 770, wrapping to 770 - 3 * 256 = 2.
    assert_eq!(compute_checksum(0xFFFF, Channel::Channel3, Command::Beep, 255), 2);
    // 255 + 255 + 0 + 2 + 0 = 512, wrapping to 0.
    assert_eq!(compute_checksum(0xFFFF, Channel::Channel1, Command::Vibrate, 0), 0);
}

#[test]
fn frame_has_89_entries() {
    assert_eq!(encode_frame(0, Channel::Channel1, Command::Shock, 0).len(), 89);
    assert_eq!(encode_frame(0xFFFF, Channel::Channel3, Command::Beep, 255).len(), 89);
    assert_eq!(encode_frame(0x0D25, Channel::Channel2, Command::Vibrate, 99).len(), 89);
}

#[test]
fn bit_pairs_sum_to_pulse_len() {
    let frames = [
        encode_frame(0, Channel::Channel1, Command::Shock, 0),
        encode_frame(0xFFFF, Channel::Channel3, Command::Beep, 255),
        encode_frame(0x0D25, Channel::Channel1, Command::Vibrate, 73),
    ];
    for frame in frames.iter() {
        for k in 0..42 {
            assert_eq!(frame[3 + 2 * k] + frame[3 + 2 * k + 1], 1016);
        }
    }
}

#[test]
fn frame_matches_documented_layout() {
    let cases: [(u16, Channel, Command, u8); 4] = [
        (0x0D25, Channel::Channel1, Command::Beep, 0),
        (0x0D25, Channel::Channel2, Command::Shock, 99),
        (0xFFFF, Channel::Channel3, Command::Vibrate, 255),
        (0x0001, Channel::Channel1, Command::Shock, 1),
    ];
    for (id, channel, command, strength) in cases {
        let frame = encode_frame(id, channel, command, strength);
        let expected = expected_frame(id, channel.code(), command.code(), strength);
        assert_eq!(frame, expected);
    }
}

#[test]
fn beep_frame_checksum_bits() {
    // id 0x0D25, channel code 0, Beep, strength 0: checksum 0x35 = 00110101.
    let frame = encode_frame(0x0D25, Channel::Channel1, Command::Beep, 0);
    assert_eq!(&frame[0..3], &[840, 1440, 724]);
    let checksum_field = &frame[67..83];
    let expected: Vec<u16> = [false, false, true, true, false, true, false, true]
        .iter()
        .flat_map(|&bit| if bit { [804u16, 212u16] } else { [292u16, 724u16] })
        .collect();
    assert_eq!(checksum_field, &expected[..]);
    assert_eq!(&frame[87..89], &[292, 1476]);
}

#[test]
fn strength_zero_encodes_zero_field() {
    let frame = encode_frame(0x0D25, Channel::Channel1, Command::Beep, 0);
    for k in 0..8 {
        assert_eq!(frame[51 + 2 * k], 292);
        assert_eq!(frame[51 + 2 * k + 1], 724);
    }
}
