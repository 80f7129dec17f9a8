//! The telemetry frame read from the device and the command frame sent to
//! it.
//!
//! A telemetry frame is ten little-endian single-precision numbers, five for
//! each rail. A command frame is four bytes: channel, register, and a
//! LINEAR16 or LINEAR11 word with its high byte first.

use vstd::prelude::*;
use crate::binary32::Binary32;
use crate::linear::{encode_unsigned16, encode_signed11, linear16_mantissa, encoded11};
use crate::linear::{lemma_linear11_exponent_fits, lemma_unpack_pack, linear11_exponent, linear11_mantissa};

verus! {

/// The length of a telemetry frame in bytes.
pub const TELEMETRY_FRAME_LEN: usize = 40;

/// The exponent at which voltages are sent as LINEAR16.
pub const LINEAR16_EXPONENT: i32 = -9;

/// The channel of the core rail.
pub const CORE_CHANNEL: u8 = 0x00;

/// The channel of the memory rail.
pub const MEM_CHANNEL: u8 = 0x01;

/// The register that sets a rail's output voltage.
pub const VOLTAGE_SETPOINT_REGISTER: u8 = 0x21;

/// The register that sets a rail's current limit.
pub const CURRENT_LIMIT_REGISTER: u8 = 0x46;

/// What one rail reports.
#[derive(Clone, Copy, Debug, PartialEq, Eq, Structural)]
pub struct ChannelReading {
    pub voltage: Binary32,
    pub voltage_setpoint: Binary32,
    pub current: Binary32,
    pub current_limit: Binary32,
    pub temperature: Binary32,
}

/// The last known state of the device: one reading for each rail.
#[derive(Clone, Copy, Debug, PartialEq, Eq, Structural)]
pub struct Device {
    pub core: ChannelReading,
    pub mem: ChannelReading,
}

/// Why a telemetry frame was refused.
#[derive(Clone, Copy, Debug, PartialEq, Eq, Structural)]
pub enum DecodeError {
    /// Fewer bytes than a frame has.
    Truncated,
    /// A field is a NaN or an infinity.
    Malformed,
}

/// The number format of a command's payload.
#[derive(Clone, Copy, Debug, PartialEq, Eq, Structural)]
pub enum LinearFormat {
    Linear16,
    Linear11,
}

/// One of the two rails.
#[derive(Clone, Copy, Debug, PartialEq, Eq, Structural)]
pub enum Rail {
    Core,
    Mem,
}

/// A quantity that a command sets.
#[derive(Clone, Copy, Debug, PartialEq, Eq, Structural)]
pub enum Setpoint {
    Voltage,
    CurrentLimit,
}

/// A command for the device.
#[derive(Clone, Copy, Debug, PartialEq, Eq)]
pub struct Command {
    pub channel_id: u8,
    pub register_id: u8,
    /// The payload word, high byte first.
    pub payload: [u8; 2],
}

/// The little-endian 32-bit word at `offset`.
pub open spec fn word_at(bytes: Seq<u8>, offset: int) -> u32 {
    (bytes[offset] as int + bytes[offset + 1] as int * 0x100 + bytes[offset + 2] as int * 0x1_0000
        + bytes[offset + 3] as int * 0x100_0000) as u32
}

/// The field of the given index in a frame.
pub open spec fn field_at(bytes: Seq<u8>, index: int) -> Binary32 {
    Binary32 { bits: word_at(bytes, 4 * index) }
}

/// The reading whose five fields start at field `first`.
pub open spec fn reading_at(bytes: Seq<u8>, first: int) -> ChannelReading {
    ChannelReading {
        voltage: field_at(bytes, first),
        voltage_setpoint: field_at(bytes, first + 1),
        current: field_at(bytes, first + 2),
        current_limit: field_at(bytes, first + 3),
        temperature: field_at(bytes, first + 4),
    }
}

/// The state that a frame of at least forty bytes holds: the core rail's
/// reading, then the memory rail's.
pub open spec fn frame_device(bytes: Seq<u8>) -> Device {
    Device { core: reading_at(bytes, 0), mem: reading_at(bytes, 5) }
}

/// What decoding `bytes` gives: the state that they hold, unless they are too
/// few or hold a number that is not finite. Bytes after the frame are not
/// looked at.
pub open spec fn decoded(bytes: Seq<u8>) -> Result<Device, DecodeError> {
    if bytes.len() < TELEMETRY_FRAME_LEN {
        Err(DecodeError::Truncated)
    } else if !frame_device(bytes).finite() {
        Err(DecodeError::Malformed)
    } else {
        Ok(frame_device(bytes))
    }
}

/// The payload word for `value` in the given format.
pub open spec fn payload_word(value: Binary32, format: LinearFormat) -> u16 {
    match format {
        LinearFormat::Linear16 => linear16_mantissa(value, LINEAR16_EXPONENT as int) as u16,
        LinearFormat::Linear11 => encoded11(value),
    }
}

/// The four bytes of a command: channel, register, and the payload word with
/// its high byte first.
pub open spec fn command_frame(
    channel_id: u8,
    register_id: u8,
    value: Binary32,
    format: LinearFormat,
) -> Seq<u8> {
    let word = payload_word(value, format);
    seq![channel_id, register_id, (word / 256) as u8, (word % 256) as u8]
}

impl ChannelReading {
    /// Every field is finite.
    pub open spec fn finite(self) -> bool {
        &&& self.voltage.finite()
        &&& self.voltage_setpoint.finite()
        &&& self.current.finite()
        &&& self.current_limit.finite()
        &&& self.temperature.finite()
    }

    /// Whether every field is finite.
    pub fn is_finite(&self) -> (finite: bool)
        ensures
            finite == self.finite(),
    {
        self.voltage.is_finite() && self.voltage_setpoint.is_finite() && self.current.is_finite()
            && self.current_limit.is_finite() && self.temperature.is_finite()
    }
}

impl Device {
    /// Every field of both rails is finite.
    pub open spec fn finite(self) -> bool {
        self.core.finite() && self.mem.finite()
    }

    /// The state before the first frame: every field is zero.
    pub fn new() -> (device: Self)
        ensures
            device == zero_device(),
    {
        let zero = ChannelReading {
            voltage: Binary32 { bits: 0 },
            voltage_setpoint: Binary32 { bits: 0 },
            current: Binary32 { bits: 0 },
            current_limit: Binary32 { bits: 0 },
            temperature: Binary32 { bits: 0 },
        };
        Device { core: zero, mem: zero }
    }
}

/// The state in which every field is zero.
pub open spec fn zero_device() -> Device {
    let zero = ChannelReading {
        voltage: Binary32 { bits: 0 },
        voltage_setpoint: Binary32 { bits: 0 },
        current: Binary32 { bits: 0 },
        current_limit: Binary32 { bits: 0 },
        temperature: Binary32 { bits: 0 },
    };
    Device { core: zero, mem: zero }
}

impl Default for Device {
    fn default() -> (device: Self)
        ensures
            device == zero_device(),
    {
        Device::new()
    }
}

impl Rail {
    /// The channel of the rail on the wire.
    pub open spec fn channel(self) -> u8 {
        match self {
            Rail::Core => CORE_CHANNEL,
            Rail::Mem => MEM_CHANNEL,
        }
    }

    /// The channel of the rail on the wire.
    pub fn channel_id(self) -> (id: u8)
        ensures
            id == self.channel(),
    {
        match self {
            Rail::Core => CORE_CHANNEL,
            Rail::Mem => MEM_CHANNEL,
        }
    }
}

impl Setpoint {
    /// The register that sets the quantity.
    pub open spec fn register(self) -> u8 {
        match self {
            Setpoint::Voltage => VOLTAGE_SETPOINT_REGISTER,
            Setpoint::CurrentLimit => CURRENT_LIMIT_REGISTER,
        }
    }

    /// The format in which the register takes its value: LINEAR16 for a
    /// voltage, LINEAR11 for a current.
    pub open spec fn linear_format(self) -> LinearFormat {
        match self {
            Setpoint::Voltage => LinearFormat::Linear16,
            Setpoint::CurrentLimit => LinearFormat::Linear11,
        }
    }

    /// The register that sets the quantity.
    pub fn register_id(self) -> (id: u8)
        ensures
            id == self.register(),
    {
        match self {
            Setpoint::Voltage => VOLTAGE_SETPOINT_REGISTER,
            Setpoint::CurrentLimit => CURRENT_LIMIT_REGISTER,
        }
    }

    /// The format in which the register takes its value.
    pub fn format(self) -> (format: LinearFormat)
        ensures
            format == self.linear_format(),
    {
        match self {
            Setpoint::Voltage => LinearFormat::Linear16,
            Setpoint::CurrentLimit => LinearFormat::Linear11,
        }
    }
}

impl Command {
    /// The command's four bytes in the order of the wire.
    pub open spec fn wire(self) -> Seq<u8> {
        seq![self.channel_id, self.register_id, self.payload@[0], self.payload@[1]]
    }

    /// The command that sets a register of a channel to `value`.
    pub fn new(channel_id: u8, register_id: u8, value: Binary32, format: LinearFormat) -> (command:
        Self)
        ensures
            command.channel_id == channel_id,
            command.register_id == register_id,
            command.wire() == command_frame(channel_id, register_id, value, format),
    {
        let word: u16 = match format {
            LinearFormat::Linear16 => encode_unsigned16(value, LINEAR16_EXPONENT),
            LinearFormat::Linear11 => {
                proof {
                    lemma_linear11_exponent_fits(value);
                    lemma_unpack_pack(linear11_mantissa(value), linear11_exponent(value));
                }
                encode_signed11(value)
            },
        };
        Command { channel_id, register_id, payload: [(word / 256) as u8, (word % 256) as u8] }
    }

    /// The command's four bytes in the order of the wire.
    pub fn to_bytes(&self) -> (frame: [u8; 4])
        ensures
            frame@ == self.wire(),
    {
        [self.channel_id, self.register_id, self.payload[0], self.payload[1]]
    }
}

/// Reads the field of the given index from a frame.
fn read_field(bytes: &[u8], index: usize) -> (value: Binary32)
    requires
        index < 10,
        bytes@.len() >= TELEMETRY_FRAME_LEN,
    ensures
        value == field_at(bytes@, index as int),
{
    let offset: usize = 4 * index;
    let bits: u32 = bytes[offset] as u32 + bytes[offset + 1] as u32 * 0x100 + bytes[offset
        + 2] as u32 * 0x1_0000 + bytes[offset + 3] as u32 * 0x100_0000;
    Binary32 { bits }
}

/// Reads the reading whose five fields start at field `first`.
fn read_reading(bytes: &[u8], first: usize) -> (reading: ChannelReading)
    requires
        first <= 5,
        bytes@.len() >= TELEMETRY_FRAME_LEN,
    ensures
        reading == reading_at(bytes@, first as int),
{
    ChannelReading {
        voltage: read_field(bytes, first),
        voltage_setpoint: read_field(bytes, first + 1),
        current: read_field(bytes, first + 2),
        current_limit: read_field(bytes, first + 3),
        temperature: read_field(bytes, first + 4),
    }
}

/// Decodes a telemetry frame.
///
/// Fails with `Truncated` on fewer than forty bytes, and with `Malformed` on
/// forty bytes that hold a NaN or an infinity; gives the state otherwise.
pub fn decode_telemetry(bytes: &[u8]) -> (result: Result<Device, DecodeError>)
    ensures
        result == decoded(bytes@),
        bytes@.len() < TELEMETRY_FRAME_LEN ==> result == Err::<Device, DecodeError>(
            DecodeError::Truncated,
        ),
{
    if bytes.len() < TELEMETRY_FRAME_LEN {
        return Err(DecodeError::Truncated);
    }
    let device = Device { core: read_reading(bytes, 0), mem: read_reading(bytes, 5) };
    if device.core.is_finite() && device.mem.is_finite() {
        Ok(device)
    } else {
        Err(DecodeError::Malformed)
    }
}

/// Encodes the command that sets a register of a channel to `value`, in the
/// given format.
pub fn encode_command(channel_id: u8, register_id: u8, value: Binary32, format: LinearFormat) -> (frame:
    [u8; 4])
    ensures
        frame@ == command_frame(channel_id, register_id, value, format),
{
    Command::new(channel_id, register_id, value, format).to_bytes()
}

/// Encodes the command that sets a quantity of a rail to `value`: the rail's
/// channel, the quantity's register, and the format that the register takes.
pub fn setpoint_command(rail: Rail, setpoint: Setpoint, value: Binary32) -> (frame: [u8; 4])
    ensures
        frame@ == command_frame(rail.channel(), setpoint.register(), value, setpoint.linear_format()),
{
    encode_command(rail.channel_id(), setpoint.register_id(), value, setpoint.format())
}

} // verus!
