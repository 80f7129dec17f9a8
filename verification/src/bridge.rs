//! The state of the bridge and what one tick does to it.

use vstd::prelude::*;
use vstd::slice::slice_subrange;
use crate::frame::{Device, DecodeError, decode_telemetry, decoded, zero_device};
use crate::logging::{LoggingSession, LogState, LogStep, row_of};
use crate::samples::{Sample, SampleBuffer, pushed};
use crate::serial::ReadOutcome;

verus! {

/// What a tick made of the bytes that were read.
#[derive(Clone, Copy, Debug, PartialEq, Eq, Structural)]
pub enum FrameOutcome {
    /// No data arrived.
    NoData,
    /// A frame was decoded and is the new state.
    Updated,
    /// The bytes were refused and the state stays as it was.
    Rejected(DecodeError),
}

/// What a tick did.
#[derive(Clone, Copy, Debug)]
pub struct TickReport {
    pub frame: FrameOutcome,
    /// The row for the caller to write, while a logging session runs.
    pub log: Option<LogStep>,
}

/// Everything that a tick reads and changes.
pub struct Bridge {
    /// The last known state of the device.
    pub device: Device,
    /// The memory rail's voltage over the last sixty seconds.
    pub chart: SampleBuffer,
    pub logger: LoggingSession,
}

/// The bytes that a read left in `buffer`.
pub open spec fn received(outcome: ReadOutcome, buffer: Seq<u8>) -> Seq<u8> {
    buffer.take(outcome.filled(buffer.len()) as int)
}

/// What a tick makes of a read.
pub open spec fn frame_outcome(outcome: ReadOutcome, buffer: Seq<u8>) -> FrameOutcome {
    match outcome {
        ReadOutcome::Data(_) => match decoded(received(outcome, buffer)) {
            Ok(_) => FrameOutcome::Updated,
            Err(error) => FrameOutcome::Rejected(error),
        },
        _ => FrameOutcome::NoData,
    }
}

/// The state of the device after a read: what the bytes hold where they
/// decode, and the state as it was in every other case.
pub open spec fn next_device(device: Device, outcome: ReadOutcome, buffer: Seq<u8>) -> Device {
    match outcome {
        ReadOutcome::Data(_) => match decoded(received(outcome, buffer)) {
            Ok(next) => next,
            Err(_) => device,
        },
        _ => device,
    }
}

impl Bridge {
    /// The bridge before the first tick: every field of the device is zero,
    /// the chart is empty and no logging session runs.
    pub fn new() -> (bridge: Self)
        ensures
            bridge.device == zero_device(),
            bridge.chart@ == Seq::<Sample>::empty(),
            bridge.logger@ == LogState::Idle,
    {
        Bridge { device: Device::new(), chart: SampleBuffer::new(), logger: LoggingSession::new() }
    }

    /// Handles one tick: takes in the frame that was read, if one was and it
    /// decodes; pushes the memory rail's voltage onto the chart at
    /// `timestamp`; and counts the tick in the logging session.
    pub fn on_tick(&mut self, timestamp: i64, outcome: ReadOutcome, buffer: &[u8]) -> (report:
        TickReport)
        ensures
            final(self).device == next_device(old(self).device, outcome, buffer@),
            final(self).chart@ == pushed(
                old(self).chart@,
                Sample { timestamp, value: final(self).device.mem.voltage },
            ),
            final(self).logger@ == old(self).logger@.ticked(),
            report.frame == frame_outcome(outcome, buffer@),
            old(self).logger@.tick_outcome() == match report.log {
                Some(step) => Some(step.outcome),
                None => None,
            },
            report.log.is_some() ==> report.log.unwrap().values@ == row_of(final(self).device),
    {
        let frame = if outcome.has_data() {
            let count: usize = outcome.received(buffer.len());
            match decode_telemetry(slice_subrange(buffer, 0, count)) {
                Ok(device) => {
                    self.device = device;
                    FrameOutcome::Updated
                },
                Err(error) => FrameOutcome::Rejected(error),
            }
        } else {
            FrameOutcome::NoData
        };
        self.chart.push(timestamp, self.device.mem.voltage);
        let log = self.logger.tick(&self.device);
        TickReport { frame, log }
    }
}

} // verus!
