//! What the master keeps per connected worker, and how it reports failures.
use vstd::prelude::*;
use std::time::Instant;
use crate::registry::WorkerId;

verus! {

/// Why a request to the master failed.
#[derive(Debug, Clone, Copy, PartialEq, Eq, Structural)]
pub enum ActorError {
    Unauthorized,
    InternalError,
}

impl ActorError {
    /// The error's name, as it displays itself.
    pub fn message(&self) -> (text: String)
        ensures
            text@ == match self {
                ActorError::Unauthorized => "Unauthorized"@,
                ActorError::InternalError => "InternalError"@,
            },
    {
        match self {
            ActorError::Unauthorized => String::from_str("Unauthorized"),
            ActorError::InternalError => String::from_str("InternalError"),
        }
    }

    /// The HTTP status the error is answered with (its body is the JSON
    /// string `""`).
    pub fn status_code(&self) -> (code: u16)
        ensures
            code == match self {
                ActorError::Unauthorized => 401u16,
                ActorError::InternalError => 500u16,
            },
    {
        match self {
            ActorError::Unauthorized => 401,
            ActorError::InternalError => 500,
        }
    }
}

#[verifier::external_type_specification]
#[verifier::external_body]
pub struct ExInstant(Instant);

/// `Instant::now`: the current time; nothing is stated of it.
#[verifier::external_body]
pub(crate) fn now() -> (t: Instant) {
    Instant::now()
}

/// `Instant::elapsed`: whole seconds and the nanoseconds beyond them since
/// `t`; the nanoseconds stay below one second.
#[verifier::external_body]
fn elapsed_since(t: &Instant) -> (e: (u64, u32))
    ensures
        e.1 < 1_000_000_000,
{
    let d = t.elapsed();
    (d.as_secs(), d.subsec_nanos())
}

/// Seconds of silence after which a worker is considered dead.
pub const WORKER_DIE_TIMEOUT_SECS: u64 = 60;

/// Whether a silence of `secs` seconds and `nanos` nanoseconds is longer
/// than the timeout, counted in nanoseconds.
pub open spec fn past_timeout(secs: u64, nanos: u32) -> bool {
    secs * 1_000_000_000 + nanos > WORKER_DIE_TIMEOUT_SECS * 1_000_000_000
}

/// Whether a worker silent for this long is to be dropped: when the silence
/// is longer than the timeout.
pub fn time_to_die(secs: u64, nanos: u32) -> (b: bool)
    requires
        nanos < 1_000_000_000,
    ensures
        b == past_timeout(secs, nanos),
{
    assert(past_timeout(secs, nanos) == (secs > WORKER_DIE_TIMEOUT_SECS || (secs
        == WORKER_DIE_TIMEOUT_SECS && nanos > 0))) by (nonlinear_arith)
        requires
            nanos < 1_000_000_000,
            WORKER_DIE_TIMEOUT_SECS == 60,
    ;
    secs > WORKER_DIE_TIMEOUT_SECS || (secs == WORKER_DIE_TIMEOUT_SECS && nanos > 0)
}

/// A worker is dropped after more than the timeout of silence and never
/// before: at most sixty seconds never count as past the timeout, anything
/// from sixty-one seconds on always does, and a longer silence is never
/// less dead than a shorter one.
pub proof fn law_timeout_is_sixty_seconds(secs: u64, nanos: u32, later_secs: u64, later_nanos: u32)
    requires
        nanos < 1_000_000_000,
        later_nanos < 1_000_000_000,
    ensures
        secs < 60 || (secs == 60 && nanos == 0) ==> !past_timeout(secs, nanos),
        secs >= 61 ==> past_timeout(secs, nanos),
        secs * 1_000_000_000 + nanos <= later_secs * 1_000_000_000 + later_nanos && past_timeout(
            secs,
            nanos,
        ) ==> past_timeout(later_secs, later_nanos),
{
    assert(secs < 60 ==> secs * 1_000_000_000 + nanos < 60_000_000_000) by (nonlinear_arith)
        requires
            nanos < 1_000_000_000,
    ;
    assert(secs >= 61 ==> secs * 1_000_000_000 + nanos > 60_000_000_000) by (nonlinear_arith);
}

/// What a worker is doing.
#[derive(Debug, Clone, Copy, PartialEq, Eq, Structural)]
pub enum WorkerStatus {
    Idle,
}

/// The master's record of one worker: its id, when it was last heard
/// from, and its status.
pub struct WorkerState {
    pub id: WorkerId,
    pub last_update_time: Instant,
    pub status: WorkerStatus,
}

impl WorkerState {
    /// A worker just heard from, idle.
    pub fn new(id: WorkerId) -> (r: Self)
        ensures
            r.id == id,
            r.status == WorkerStatus::Idle,
    {
        WorkerState { id, last_update_time: now(), status: WorkerStatus::Idle }
    }

    /// The worker was heard from now.
    pub fn update(&mut self)
        ensures
            final(self).id == old(self).id,
            final(self).status == old(self).status,
    {
        self.last_update_time = now();
    }

    /// Sets the worker's status.
    pub fn set_status(&mut self, status: WorkerStatus)
        ensures
            final(self).id == old(self).id,
            final(self).status == status,
            final(self).last_update_time == old(self).last_update_time,
    {
        self.status = status;
    }

    /// Whether the worker has been silent for longer than the timeout; the
    /// time is read from the clock, so nothing is stated of the answer.
    pub fn should_die(&self) -> bool {
        let (secs, nanos) = elapsed_since(&self.last_update_time);
        time_to_die(secs, nanos)
    }
}

} // verus!
