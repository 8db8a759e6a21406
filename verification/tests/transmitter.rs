use ch8803::frame::{encode_frame, Channel, Command};
use ch8803::recorder::{DelayRecorder, PinRecorder, StepClock};
use ch8803::transmitter::{Duration, Transmitter};

fn recorder_transmitter(
    id: u16,
    start: u64,
    step: u32,
) -> Transmitter<PinRecorder, DelayRecorder, StepClock> {
    Transmitter::new(
        PinRecorder::new(),
        DelayRecorder::new(),
        StepClock::new(start, step),
        id,
    )
}

#[test]
fn duration_constructors() {
    assert_eq!(Duration::micros(1500).micros, 1500);
    assert_eq!(Duration::millis(2).micros, 2000);
    assert_eq!(Duration::millis(0).micros, 0);
}

#[test]
fn zero_duration_sends_no_frames() {
    let transmitter = recorder_transmitter(0x0D25, 0, 100);
    let mut session = transmitter.channel(Channel::Channel1);
    session.beep_ms(0);
    session.shock(10, Duration::micros(0));
    session.vibrate_ms(50, 0);
    let transmitter = session.release();
    assert_eq!(transmitter.delay_ref().log().len(), 0);
    assert_eq!(transmitter.pin_ref().log().len(), 0);
}

#[test]
fn short_duration_sends_at_least_one_frame() {
    // The clock advances 10 us per reading; a 50 us window (far less than one
    // frame's ~43 ms on the air) admits four deadline checks that fall short
    // of the deadline, so four frames go out -- at least one.
    let transmitter = recorder_transmitter(0x0D25, 0, 10);
    let mut session = transmitter.channel(Channel::Channel1);
    session.beep(Duration::micros(50));
    let transmitter = session.release();
    let sent = transmitter.delay_ref().log().len();
    assert!(sent >= 89);
    assert_eq!(sent, 4 * 89);
}

#[test]
fn deadline_bounds_frame_count() {
    // start reading 100, deadline 100 + 250; checks at 200 and 300 pass,
    // the check at 400 stops the loop: exactly two frames.
    let transmitter = recorder_transmitter(0x1234, 0, 100);
    let mut session = transmitter.channel(Channel::Channel2);
    session.vibrate(40, Duration::micros(250));
    let transmitter = session.release();
    let log = transmitter.delay_ref().log();
    let frame = encode_frame(0x1234, Channel::Channel2, Command::Vibrate, 40);
    assert_eq!(log.len(), 2 * 89);
    assert_eq!(&log[0..89], &frame[..]);
    assert_eq!(&log[89..178], &frame[..]);
}

#[test]
fn pin_alternates_and_rests_low() {
    let transmitter = recorder_transmitter(0x0D25, 0, 100);
    let mut session = transmitter.channel(Channel::Channel3);
    session.shock_ms(25, 1);
    let transmitter = session.release();
    let levels = transmitter.pin_ref().log();
    let frames = transmitter.delay_ref().log().len() / 89;
    assert!(frames >= 1);
    // Each pass over a frame drives 89 alternating levels starting low, then
    // forces the line low once more.
    assert_eq!(levels.len(), frames * 90);
    for f in 0..frames {
        for j in 0..89 {
            assert_eq!(levels[f * 90 + j], j % 2 == 1);
        }
        assert_eq!(levels[f * 90 + 89], false);
    }
    assert_eq!(*levels.last().unwrap(), false);
}

#[test]
fn beep_encodes_strength_zero() {
    let transmitter = recorder_transmitter(0x0D25, 0, 1_000_000);
    let mut session = transmitter.channel(Channel::Channel1);
    session.beep_ms(2000);
    let transmitter = session.release();
    let log = transmitter.delay_ref().log();
    assert_eq!(log.len(), 89);
    // Strength bit field, entries 51..67: eight zero bits.
    for k in 0..8 {
        assert_eq!(log[51 + 2 * k], 292);
        assert_eq!(log[51 + 2 * k + 1], 724);
    }
    assert_eq!(&log[..], &encode_frame(0x0D25, Channel::Channel1, Command::Beep, 0)[..]);
}

#[test]
fn vibrate_frames_differ_only_in_strength_and_checksum() {
    let first = recorder_transmitter(0x0D25, 0, 1_000_000);
    let mut session = first.channel(Channel::Channel1);
    session.vibrate_ms(1, 2000);
    let first = session.release();

    let second = recorder_transmitter(0x0D25, 0, 1_000_000);
    let mut session = second.channel(Channel::Channel1);
    session.vibrate_ms(99, 2000);
    let second = session.release();

    let a = first.delay_ref().log();
    let b = second.delay_ref().log();
    assert_eq!(a.len(), 89);
    assert_eq!(b.len(), 89);
    for i in 0..89 {
        if i < 51 || i >= 83 {
            assert_eq!(a[i], b[i], "entry {} outside the strength and checksum fields", i);
        }
    }
    // The two strength fields do differ.
    assert_ne!(&a[51..67], &b[51..67]);
}

#[test]
fn sessions_rebind_channels() {
    let transmitter = recorder_transmitter(7, 0, 50);
    assert_eq!(transmitter.id(), 7);
    let session = transmitter.channel(Channel::Channel1);
    let transmitter = session.release();
    let mut session = transmitter.channel(Channel::Channel2);
    session.beep(Duration::micros(10));
    let transmitter = session.release();
    let log = transmitter.delay_ref().log();
    assert_eq!(log.len(), 0);
    assert_eq!(transmitter.id(), 7);
}
