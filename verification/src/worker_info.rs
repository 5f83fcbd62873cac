//! The master's view of a worker's activity.
use vstd::prelude::*;
use std::time::Instant;
use crate::actors::now;

verus! {

/// Whether a worker is busy.
#[derive(Debug, Clone, Copy, PartialEq, Eq, Structural)]
pub enum WorkerState {
    Idle,
    Active,
}

/// A worker's network address.
#[derive(Debug, Clone, Hash, PartialEq, Eq)]
pub struct WorkerAddr(pub String);

/// A worker's state and when it last changed.
pub struct WorkerInfo {
    pub state: WorkerState,
    pub last_state_time: Instant,
}

impl WorkerInfo {
    /// An idle worker whose state changed now.
    pub fn new() -> (r: Self)
        ensures
            r.state == WorkerState::Idle,
    {
        WorkerInfo { state: WorkerState::Idle, last_state_time: now() }
    }
}

} // verus!
