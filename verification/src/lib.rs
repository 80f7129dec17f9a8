//! Telemetry and command bridge for a two-rail PMBus power module.
//!
//! The crate holds the wire formats (the LINEAR11 and LINEAR16 number
//! encodings, the telemetry frame, the command frame), the time-windowed
//! sample buffer behind the chart, the bounded logging session and the
//! per-tick handler that ties them together. Every function is verified
//! against the contract written next to it.
//!
//! Single-precision numbers are carried as their IEEE 754 bit patterns
//! ([`Binary32`]), so that every rule of the codec is integer arithmetic.

pub mod rounding;
pub mod binary32;
pub mod linear;
pub mod frame;
pub mod samples;
pub mod logging;
pub mod serial;
pub mod bridge;

pub use binary32::Binary32;
pub use bridge::{Bridge, FrameOutcome, TickReport};
pub use frame::{
    decode_telemetry, encode_command, setpoint_command, ChannelReading, Command, DecodeError, Device,
    LinearFormat, Rail, Setpoint,
};
pub use linear::{decode_signed11, decode_unsigned16, encode_signed11, encode_unsigned16};
pub use logging::{LogState, LogStep, LoggingSession, StartError, TickOutcome};
pub use samples::{Sample, SampleBuffer};
pub use serial::{IoFault, ReadOutcome, WriteOutcome};
