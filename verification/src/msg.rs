//! Messages the engine hands to its consumers.

use vstd::prelude::*;
use crate::files::PitouFile;

verus! {

/// One drained batch of search results: matches collected since the
/// previous read, under a tag saying whether the session is still live.
pub enum SearchMsg {
    Active(Vec<PitouFile>),
    Terminated(Vec<PitouFile>),
}

/// The bare liveness tag of a search session.
#[derive(Clone, Copy, PartialEq, Eq, Structural)]
pub enum ActivityMsg {
    Active,
    Terminated,
}

/// How far a transfer has progressed.
#[derive(Clone, Copy)]
pub enum TransferState {
    Initializing(u64),
    Active(TransferSize),
    Terminated(TransferSize),
}

/// A progress report of one copy or move session.  Elapsed time is
/// held in milliseconds.
#[derive(Clone, Copy)]
pub enum TransferMsg {
    Copy { id: TransferSessionID, state: TransferState, time_elapsed: u64 },
    Move { id: TransferSessionID, state: TransferState, time_elapsed: u64 },
}

impl TransferMsg {
    /// The progress and elapsed time of the report, whichever way the
    /// transfer goes.
    pub fn details(self) -> (r: (TransferState, u64))
        ensures
            (self matches TransferMsg::Copy { id, state, time_elapsed } ==> r == (state,
            time_elapsed)),
            (self matches TransferMsg::Move { id, state, time_elapsed } ==> r == (state,
            time_elapsed)),
    {
        match self {
            TransferMsg::Copy { id: _, state, time_elapsed } => (state, time_elapsed),
            TransferMsg::Move { id: _, state, time_elapsed } => (state, time_elapsed),
        }
    }
}

/// Byte counts of a transfer: how much exists and how much has moved.
#[derive(Clone, Copy)]
pub struct TransferSize {
    pub total: u64,
    pub current: u64,
}

/// Identifies one transfer session.
#[derive(Clone, Copy)]
pub struct TransferSessionID {
    pub idx: i64,
    pub parity: i64,
}

} // verus!
