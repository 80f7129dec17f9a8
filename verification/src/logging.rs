//! The logging session: a bounded run of rows, one for each tick.
//!
//! The session decides; its caller owns the sink. `start` hands back the
//! header line to write, `tick` the values of the row to write and whether
//! the sink is to be closed after it, `stop` whether there is a sink to
//! close. A caller whose write fails calls `stop`.

use vstd::prelude::*;
use crate::binary32::Binary32;
use crate::frame::Device;

verus! {

/// The number of rows after which a session ends by itself.
pub const MAX_TICKS: u32 = 600;

/// The number of columns of the log.
pub const COLUMNS: usize = 10;

/// The state of a logging session.
#[derive(Clone, Copy, Debug, PartialEq, Eq, Structural)]
pub enum LogState {
    Idle,
    /// Rows are being written; `elapsed_ticks` of them have been.
    Collecting { elapsed_ticks: u32 },
}

/// Why a session did not start.
#[derive(Clone, Copy, Debug, PartialEq, Eq, Structural)]
pub enum StartError {
    /// A session is running already.
    AlreadyActive,
}

/// What a tick did to a running session.
#[derive(Clone, Copy, Debug, PartialEq, Eq, Structural)]
pub enum TickOutcome {
    /// A row was written and the session goes on.
    Recorded,
    /// The last row was written and the session has ended.
    Stopped,
}

/// What the caller of `tick` is to do: write a row of `values`, and close the
/// sink after it if `outcome` is `Stopped`.
#[derive(Clone, Copy, Debug)]
pub struct LogStep {
    pub outcome: TickOutcome,
    pub values: [Binary32; 10],
}

/// A logging session.
pub struct LoggingSession {
    collecting: bool,
    elapsed_ticks: u32,
}

/// The bytes that the `csv` crate writes for one record of the given fields
/// with its default settings.
pub uninterp spec fn csv_record_bytes(fields: Seq<Seq<char>>) -> Seq<u8>;

/// The names of the columns: the five fields of the core rail, then those of
/// the memory rail.
pub open spec fn header_fields() -> Seq<Seq<char>> {
    seq![
        "Vcore Voltage"@,
        "Vcore Voltage Setpoint"@,
        "Vcore Current"@,
        "Vcore Current Limit"@,
        "Vcore Temperature"@,
        "Vmem Voltage"@,
        "Vmem Voltage Setpoint"@,
        "Vmem Current"@,
        "Vmem Current Limit"@,
        "Vmem Temperature"@,
    ]
}

/// The values of a row in the order of the columns.
pub open spec fn row_of(device: Device) -> Seq<Binary32> {
    seq![
        device.core.voltage,
        device.core.voltage_setpoint,
        device.core.current,
        device.core.current_limit,
        device.core.temperature,
        device.mem.voltage,
        device.mem.voltage_setpoint,
        device.mem.current,
        device.mem.current_limit,
        device.mem.temperature,
    ]
}

impl LogState {
    /// A running session has written fewer rows than it may.
    pub open spec fn valid(self) -> bool {
        match self {
            LogState::Idle => true,
            LogState::Collecting { elapsed_ticks } => elapsed_ticks < MAX_TICKS,
        }
    }

    /// The state after a tick: a running session counts one row more, and
    /// ends when that row is the last.
    pub open spec fn ticked(self) -> LogState {
        match self {
            LogState::Idle => LogState::Idle,
            LogState::Collecting { elapsed_ticks } => if elapsed_ticks + 1 >= MAX_TICKS {
                LogState::Idle
            } else {
                LogState::Collecting { elapsed_ticks: (elapsed_ticks + 1) as u32 }
            },
        }
    }

    /// What a tick in this state reports: nothing when idle, `Stopped` for
    /// the last row of a session, `Recorded` for any other.
    pub open spec fn tick_outcome(self) -> Option<TickOutcome> {
        match self {
            LogState::Idle => None,
            LogState::Collecting { elapsed_ticks } => if elapsed_ticks + 1 >= MAX_TICKS {
                Some(TickOutcome::Stopped)
            } else {
                Some(TickOutcome::Recorded)
            },
        }
    }

    /// The state after `count` ticks.
    pub open spec fn after_ticks(self, count: nat) -> LogState
        decreases count,
    {
        if count == 0 {
            self
        } else {
            self.after_ticks((count - 1) as nat).ticked()
        }
    }

    /// The number of rows that `count` ticks write.
    pub open spec fn rows_written(self, count: nat) -> nat
        decreases count,
    {
        if count == 0 {
            0
        } else {
            let before = self.rows_written((count - 1) as nat);
            if self.after_ticks((count - 1) as nat).tick_outcome().is_some() {
                before + 1
            } else {
                before
            }
        }
    }
}

impl View for LoggingSession {
    type V = LogState;

    closed spec fn view(&self) -> LogState {
        if self.collecting {
            LogState::Collecting { elapsed_ticks: self.elapsed_ticks }
        } else {
            LogState::Idle
        }
    }
}

impl LoggingSession {
    #[verifier::type_invariant]
    spec fn well_formed(self) -> bool {
        self.collecting ==> self.elapsed_ticks < MAX_TICKS
    }

    /// An idle session.
    pub fn new() -> (session: Self)
        ensures
            session@ == LogState::Idle,
    {
        LoggingSession { collecting: false, elapsed_ticks: 0 }
    }

    /// The state of the session.
    pub fn state(&self) -> (state: LogState)
        ensures
            state == self@,
            state.valid(),
    {
        proof {
            use_type_invariant(self);
        }
        if self.collecting {
            LogState::Collecting { elapsed_ticks: self.elapsed_ticks }
        } else {
            LogState::Idle
        }
    }

    /// Whether a session is running.
    pub fn is_collecting(&self) -> (collecting: bool)
        ensures
            collecting == (self@ != LogState::Idle),
    {
        self.collecting
    }

    /// Starts a session and gives the header line to write to the sink.
    ///
    /// Fails with `AlreadyActive`, and changes nothing, while a session is
    /// running.
    pub fn start(&mut self) -> (result: Result<Vec<u8>, StartError>)
        ensures
            old(self)@ == LogState::Idle ==> final(self)@ == (LogState::Collecting {
                elapsed_ticks: 0,
            }) && result.is_ok() && result.unwrap()@ == csv_record_bytes(header_fields()),
            old(self)@ != LogState::Idle ==> final(self)@ == old(self)@ && result == Err::<
                Vec<u8>,
                StartError,
            >(StartError::AlreadyActive),
    {
        if self.collecting {
            return Err(StartError::AlreadyActive);
        }
        self.elapsed_ticks = 0;
        self.collecting = true;
        Ok(header_row())
    }

    /// Counts a tick. While idle it does nothing and gives `None`. While
    /// running it gives the values of the row to write, counts the row, and
    /// ends the session with `Stopped` when the row is the last that a
    /// session may hold.
    pub fn tick(&mut self, device: &Device) -> (step: Option<LogStep>)
        ensures
            final(self)@ == old(self)@.ticked(),
            old(self)@.tick_outcome() == match step {
                Some(step) => Some(step.outcome),
                None => None,
            },
            step.is_some() ==> step.unwrap().values@ == row_of(*device),
    {
        proof {
            use_type_invariant(&*self);
        }
        if !self.collecting {
            return None;
        }
        let values = row_values(device);
        if self.elapsed_ticks + 1 >= MAX_TICKS {
            self.collecting = false;
            self.elapsed_ticks = 0;
            Some(LogStep { outcome: TickOutcome::Stopped, values })
        } else {
            self.elapsed_ticks = self.elapsed_ticks + 1;
            Some(LogStep { outcome: TickOutcome::Recorded, values })
        }
    }

    /// Ends the session, if one is running, and says whether one was: the
    /// caller then closes the sink.
    pub fn stop(&mut self) -> (was_collecting: bool)
        ensures
            final(self)@ == LogState::Idle,
            was_collecting == (old(self)@ != LogState::Idle),
    {
        let was_collecting = self.collecting;
        self.collecting = false;
        self.elapsed_ticks = 0;
        was_collecting
    }
}

/// Writes one record through the `csv` crate: `csv::Writer::from_writer`
/// over an empty vector, `Writer::write_record` with the fields, and
/// `Writer::into_inner` for what was written.
///
/// Believed, not proved: the bytes written depend on the fields alone. What
/// the bytes are is left to the crate. A fresh writer takes any first record
/// and a vector never fails a write, so neither call gives an error here.
#[verifier::external_body]
fn write_record(fields: &Vec<String>) -> (line: Vec<u8>)
    ensures
        line@ == csv_record_bytes(fields.deep_view()),
{
    let mut writer = csv::Writer::from_writer(Vec::new());
    let _ = writer.write_record(fields);
    writer.into_inner().unwrap_or_default()
}

/// The header line of the log.
pub fn header_row() -> (line: Vec<u8>)
    ensures
        line@ == csv_record_bytes(header_fields()),
{
    let mut fields: Vec<String> = Vec::new();
    fields.push("Vcore Voltage".to_owned());
    fields.push("Vcore Voltage Setpoint".to_owned());
    fields.push("Vcore Current".to_owned());
    fields.push("Vcore Current Limit".to_owned());
    fields.push("Vcore Temperature".to_owned());
    fields.push("Vmem Voltage".to_owned());
    fields.push("Vmem Voltage Setpoint".to_owned());
    fields.push("Vmem Current".to_owned());
    fields.push("Vmem Current Limit".to_owned());
    fields.push("Vmem Temperature".to_owned());
    proof {
        assert(fields.deep_view() =~= header_fields());
    }
    write_record(&fields)
}

/// The line of a data row whose values have been turned into decimal text,
/// or `None` unless there is one text for each column.
pub fn data_row(texts: &Vec<String>) -> (line: Option<Vec<u8>>)
    ensures
        texts@.len() != COLUMNS ==> line.is_none(),
        texts@.len() == COLUMNS ==> line.is_some() && line.unwrap()@ == csv_record_bytes(
            texts.deep_view(),
        ),
{
    if texts.len() == COLUMNS {
        Some(write_record(texts))
    } else {
        None
    }
}

/// The values of a row in the order of the columns.
pub fn row_values(device: &Device) -> (values: [Binary32; 10])
    ensures
        values@ == row_of(*device),
{
    let values = [
        device.core.voltage,
        device.core.voltage_setpoint,
        device.core.current,
        device.core.current_limit,
        device.core.temperature,
        device.mem.voltage,
        device.mem.voltage_setpoint,
        device.mem.current,
        device.mem.current_limit,
        device.mem.temperature,
    ];
    proof {
        assert(values@ =~= row_of(*device));
    }
    values
}

/// A session that has just started writes a row on each of its first 600
/// ticks and on none after them: after `count` ticks it has written `count`
/// rows, or 600, whichever is less, and it is idle from the 600th tick on.
pub proof fn lemma_session_rows(count: nat)
    ensures
        (LogState::Collecting { elapsed_ticks: 0 }).rows_written(count) == if count < MAX_TICKS {
            count
        } else {
            MAX_TICKS as nat
        },
        (LogState::Collecting { elapsed_ticks: 0 }).after_ticks(count) == if count < MAX_TICKS {
            LogState::Collecting { elapsed_ticks: count as u32 }
        } else {
            LogState::Idle
        },
    decreases count,
{
    if count > 0 {
        lemma_session_rows((count - 1) as nat);
    }
}

/// The 600th tick of a session, and no earlier one, reports `Stopped`.
pub proof fn lemma_session_stops(count: nat)
    requires
        1 <= count <= MAX_TICKS,
    ensures
        (LogState::Collecting { elapsed_ticks: 0 }).after_ticks((count - 1) as nat).tick_outcome()
            == Some(
            if count == MAX_TICKS {
                TickOutcome::Stopped
            } else {
                TickOutcome::Recorded
            },
        ),
{
    lemma_session_rows((count - 1) as nat);
}

} // verus!
