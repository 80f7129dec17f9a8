use pmbus_bridge::binary32::Binary32;
use pmbus_bridge::bridge::{Bridge, FrameOutcome};
use pmbus_bridge::frame::DecodeError;
use pmbus_bridge::logging::{LogState, TickOutcome};
use pmbus_bridge::serial::{IoFault, ReadOutcome, WriteOutcome};

fn number(value: f32) -> Binary32 {
    Binary32::from_bits(value.to_bits())
}

fn frame_of(fields: [f32; 10]) -> Vec<u8> {
    let mut bytes = Vec::new();
    for field in fields {
        bytes.extend_from_slice(&field.to_le_bytes());
    }
    bytes
}

fn buffer_of(fields: [f32; 10]) -> Vec<u8> {
    let mut bytes = frame_of(fields);
    bytes.resize(128, 0);
    bytes
}

const FIELDS: [f32; 10] = [1.05, 1.1, 3.2, 4.0, 41.5, 1.8, 1.85, 0.75, 2.0, 38.25];

#[test]
fn reads_are_told_apart() {
    assert_eq!(ReadOutcome::classify(None), ReadOutcome::Timeout);
    assert_eq!(ReadOutcome::classify(Some(Ok(40))), ReadOutcome::Data(40));
    assert_eq!(ReadOutcome::classify(Some(Ok(0))), ReadOutcome::Data(0));
    assert_eq!(ReadOutcome::classify(Some(Err(IoFault::TimedOut))), ReadOutcome::Timeout);
    assert_eq!(ReadOutcome::classify(Some(Err(IoFault::Other))), ReadOutcome::Error);
    assert!(ReadOutcome::Data(1).has_data());
    assert!(!ReadOutcome::Timeout.has_data());
    assert!(!ReadOutcome::Error.has_data());
}

#[test]
fn reads_fill_no_more_than_the_buffer() {
    assert_eq!(ReadOutcome::Data(40).received(128), 40);
    assert_eq!(ReadOutcome::Data(128).received(128), 128);
    assert_eq!(ReadOutcome::Data(129).received(128), 128);
    assert_eq!(ReadOutcome::Data(usize::MAX).received(0), 0);
    assert_eq!(ReadOutcome::Timeout.received(128), 0);
    assert_eq!(ReadOutcome::Error.received(128), 0);
}

#[test]
fn writes_are_told_apart() {
    assert_eq!(WriteOutcome::classify(None), WriteOutcome::Error);
    assert_eq!(WriteOutcome::classify(Some(Ok(4))), WriteOutcome::Sent);
    assert_eq!(WriteOutcome::classify(Some(Err(IoFault::TimedOut))), WriteOutcome::Error);
    assert_eq!(WriteOutcome::classify(Some(Err(IoFault::Other))), WriteOutcome::Error);
}

#[test]
fn bridge_starts_at_zero() {
    let bridge = Bridge::new();
    assert_eq!(bridge.device.mem.voltage.to_bits(), 0);
    assert_eq!(bridge.device.core.temperature.to_bits(), 0);
    assert!(bridge.chart.is_empty());
    assert_eq!(bridge.logger.state(), LogState::Idle);
}

#[test]
fn tick_takes_in_a_frame() {
    let mut bridge = Bridge::new();
    let report = bridge.on_tick(1_000, ReadOutcome::Data(40), &buffer_of(FIELDS));
    assert_eq!(report.frame, FrameOutcome::Updated);
    assert!(report.log.is_none());
    assert_eq!(bridge.device.core.voltage, number(1.05));
    assert_eq!(bridge.device.mem.temperature, number(38.25));
    let samples = bridge.chart.snapshot();
    assert_eq!(samples.len(), 1);
    assert_eq!(samples[0].timestamp, 1_000);
    assert_eq!(samples[0].value, number(1.8));
}

#[test]
fn tick_without_data_keeps_the_state() {
    let mut bridge = Bridge::new();
    bridge.on_tick(1_000, ReadOutcome::Data(40), &buffer_of(FIELDS));
    let before = bridge.device;
    for (offset, outcome) in [ReadOutcome::Timeout, ReadOutcome::Error].into_iter().enumerate() {
        let mut other = FIELDS;
        other[5] = 9.0;
        let report = bridge.on_tick(1_100 + offset as i64, outcome, &buffer_of(other));
        assert_eq!(report.frame, FrameOutcome::NoData);
        assert_eq!(bridge.device, before);
    }
    // the chart still gets the last known voltage on every tick
    let samples = bridge.chart.snapshot();
    assert_eq!(samples.len(), 3);
    assert!(samples.iter().all(|sample| sample.value == number(1.8)));
}

#[test]
fn tick_refuses_a_partial_or_garbled_frame() {
    let mut bridge = Bridge::new();
    bridge.on_tick(1_000, ReadOutcome::Data(40), &buffer_of(FIELDS));
    let before = bridge.device;

    let mut other = FIELDS;
    other[5] = 9.0;
    let report = bridge.on_tick(1_100, ReadOutcome::Data(39), &buffer_of(other));
    assert_eq!(report.frame, FrameOutcome::Rejected(DecodeError::Truncated));
    assert_eq!(bridge.device, before);

    let report = bridge.on_tick(1_200, ReadOutcome::Data(0), &buffer_of(other));
    assert_eq!(report.frame, FrameOutcome::Rejected(DecodeError::Truncated));
    assert_eq!(bridge.device, before);

    other[2] = f32::NAN;
    let report = bridge.on_tick(1_300, ReadOutcome::Data(40), &buffer_of(other));
    assert_eq!(report.frame, FrameOutcome::Rejected(DecodeError::Malformed));
    assert_eq!(bridge.device, before);

    // a count beyond the buffer is cut to the buffer
    let report = bridge.on_tick(1_400, ReadOutcome::Data(1_000), &frame_of(FIELDS)[..20]);
    assert_eq!(report.frame, FrameOutcome::Rejected(DecodeError::Truncated));
    assert_eq!(bridge.device, before);
    assert_eq!(bridge.chart.len(), 5);
}

#[test]
fn tick_logs_the_state_it_has_just_read() {
    let mut bridge = Bridge::new();
    bridge.logger.start().unwrap();
    let report = bridge.on_tick(1_000, ReadOutcome::Data(40), &buffer_of(FIELDS));
    let step = report.log.unwrap();
    assert_eq!(step.outcome, TickOutcome::Recorded);
    assert_eq!(step.values[0], number(1.05));
    assert_eq!(step.values[5], number(1.8));
    assert_eq!(step.values[9], number(38.25));
    assert_eq!(bridge.logger.state(), LogState::Collecting { elapsed_ticks: 1 });

    let report = bridge.on_tick(1_100, ReadOutcome::Timeout, &buffer_of(FIELDS));
    assert_eq!(report.log.unwrap().values[5], number(1.8));
    assert_eq!(bridge.logger.state(), LogState::Collecting { elapsed_ticks: 2 });
}

#[test]
fn tick_ends_the_session_after_six_hundred_rows() {
    let mut bridge = Bridge::new();
    bridge.logger.start().unwrap();
    for tick in 0..599 {
        let report = bridge.on_tick(tick * 100, ReadOutcome::Timeout, &[]);
        assert_eq!(report.log.unwrap().outcome, TickOutcome::Recorded);
    }
    let report = bridge.on_tick(59_900, ReadOutcome::Timeout, &[]);
    assert_eq!(report.log.unwrap().outcome, TickOutcome::Stopped);
    assert_eq!(bridge.logger.state(), LogState::Idle);
    assert!(bridge.on_tick(60_000, ReadOutcome::Timeout, &[]).log.is_none());
    // sixty seconds of ticks at ten a second, less the one that is a window old
    assert_eq!(bridge.chart.len(), 600);
}
