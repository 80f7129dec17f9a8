//! What a read from the serial port, or a write to it, came to.
//!
//! The port itself belongs to the caller. It reports each attempt as plain
//! values, and these functions say what the attempt counts as.

use vstd::prelude::*;

verus! {

/// The time between two ticks, in milliseconds.
pub const TICK_MILLIS: u64 = 100;

/// The longest that a read waits for data, in milliseconds.
pub const READ_TIMEOUT_MILLIS: u64 = 10;

/// The speed of the serial link in bits per second.
pub const BAUD_RATE: u32 = 9600;

/// A read gives up before the next tick is due, so that ticks cannot pile
/// up behind it.
pub proof fn lemma_read_ends_within_a_tick()
    ensures
        READ_TIMEOUT_MILLIS < TICK_MILLIS,
{
}

/// How an attempt on an open port failed.
#[derive(Clone, Copy, Debug, PartialEq, Eq, Structural)]
pub enum IoFault {
    /// The port's timeout ran out.
    TimedOut,
    /// Any other failure.
    Other,
}

/// What a read came to.
#[derive(Clone, Copy, Debug, PartialEq, Eq, Structural)]
pub enum ReadOutcome {
    /// So many bytes arrived.
    Data(usize),
    /// Nothing arrived in time, or no port is open.
    Timeout,
    /// The port failed.
    Error,
}

/// What a write came to.
#[derive(Clone, Copy, Debug, PartialEq, Eq, Structural)]
pub enum WriteOutcome {
    Sent,
    /// The port failed, or no port is open.
    Error,
}

/// What a read counts as. `attempt` is `None` where no port is open, and
/// else what the port's read returned.
pub open spec fn read_outcome_of(attempt: Option<Result<usize, IoFault>>) -> ReadOutcome {
    match attempt {
        None => ReadOutcome::Timeout,
        Some(Ok(count)) => ReadOutcome::Data(count),
        Some(Err(IoFault::TimedOut)) => ReadOutcome::Timeout,
        Some(Err(IoFault::Other)) => ReadOutcome::Error,
    }
}

/// What a write counts as. `attempt` is `None` where no port is open, and
/// else what the port's write returned.
pub open spec fn write_outcome_of(attempt: Option<Result<usize, IoFault>>) -> WriteOutcome {
    match attempt {
        Some(Ok(_)) => WriteOutcome::Sent,
        _ => WriteOutcome::Error,
    }
}

impl ReadOutcome {
    /// The number of bytes of a buffer of `capacity` bytes that the read
    /// filled: none unless data arrived.
    pub open spec fn filled(self, capacity: nat) -> nat {
        match self {
            ReadOutcome::Data(count) => if count <= capacity {
                count as nat
            } else {
                capacity
            },
            _ => 0,
        }
    }

    /// What a read counts as.
    pub fn classify(attempt: Option<Result<usize, IoFault>>) -> (outcome: Self)
        ensures
            outcome == read_outcome_of(attempt),
    {
        match attempt {
            None => ReadOutcome::Timeout,
            Some(Ok(count)) => ReadOutcome::Data(count),
            Some(Err(IoFault::TimedOut)) => ReadOutcome::Timeout,
            Some(Err(IoFault::Other)) => ReadOutcome::Error,
        }
    }

    /// Whether data arrived.
    pub fn has_data(&self) -> (has_data: bool)
        ensures
            has_data == (*self is Data),
    {
        match self {
            ReadOutcome::Data(_) => true,
            _ => false,
        }
    }

    /// The number of bytes of a buffer of `capacity` bytes that the read
    /// filled.
    pub fn received(&self, capacity: usize) -> (count: usize)
        ensures
            count == self.filled(capacity as nat),
            count <= capacity,
    {
        match self {
            ReadOutcome::Data(count) => if *count <= capacity {
                *count
            } else {
                capacity
            },
            _ => 0,
        }
    }
}

impl WriteOutcome {
    /// What a write counts as.
    pub fn classify(attempt: Option<Result<usize, IoFault>>) -> (outcome: Self)
        ensures
            outcome == write_outcome_of(attempt),
    {
        match attempt {
            Some(Ok(_)) => WriteOutcome::Sent,
            _ => WriteOutcome::Error,
        }
    }
}

} // verus!
