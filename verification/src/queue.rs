//! Decisions of the slicing worker pool: its configuration, and what a
//! worker records and announces once the runner has finished a job. The
//! pool's tasks, its cancellation signals and its polling are driven by the
//! caller.

use std::collections::HashSet;
use vstd::prelude::*;

use crate::entities::JobStatus;
use crate::ids::{GcodeId, JobId};

verus! {

broadcast use vstd::std_specs::hash::group_hash_axioms;

/// Configuration of the pool.
#[derive(Debug, Clone, Copy, PartialEq, Eq)]
pub struct QueueConfig {
    /// Number of concurrent workers.
    pub workers: usize,
    /// Polling interval when the queue is empty, in milliseconds.
    pub poll_interval_ms: u64,
}

impl Default for QueueConfig {
    /// Two workers polling every 200 ms.
    fn default() -> (r: Self)
        ensures
            r.workers == 2,
            r.poll_interval_ms == 200,
    {
        QueueConfig { workers: 2, poll_interval_ms: 200 }
    }
}

/// Outcome of a job as the runner reports it.
#[derive(Debug, Clone, PartialEq, Eq)]
pub enum RunOutcome {
    /// Sliced: the G-code produced and its statistics (JSON text).
    Succeeded { gcode_id: GcodeId, stats: String },
    /// Failed, with the failure detail (JSON text).
    Failed(String),
    /// Cancelled while running.
    Cancelled,
}

/// Final state recorded for a job.
#[derive(Debug, Clone, PartialEq, Eq)]
pub enum JobOutcome {
    Succeeded { gcode_id: GcodeId },
    /// Failure detail, JSON text.
    Failed { error: String },
}

/// Event announced to the owner of a job once it has run.
#[derive(Debug, Clone, PartialEq, Eq)]
pub enum JobEvent {
    /// State change of a job that will not progress further (progress
    /// complete): its status, phase and failure detail (JSON text).
    Settled { id: JobId, status: JobStatus, phase: String, error: Option<String> },
    /// The job succeeded: the G-code and its statistics (JSON text).
    Finished { id: JobId, gcode_id: Option<GcodeId>, stats: String },
}

/// What a worker does once the runner is done: the final state to record,
/// if any, and the event for the owner.
#[derive(Debug, Clone, PartialEq, Eq)]
pub struct Settlement {
    pub record: Option<JobOutcome>,
    pub event: JobEvent,
}

/// Settles a finished run: a success records the G-code and announces
/// `Finished`; a failure records the error and announces it (`failed`); a
/// cancellation records nothing, since the cancellation already set the
/// state, and announces `cancelled`.
pub fn settle(id: JobId, outcome: RunOutcome) -> (r: Settlement)
    ensures
        match outcome {
            RunOutcome::Succeeded { gcode_id, stats } => r.record == Some(
                JobOutcome::Succeeded { gcode_id },
            ) && r.event == JobEvent::Finished { id, gcode_id: Some(gcode_id), stats },
            RunOutcome::Failed(error) => r.record == Some(JobOutcome::Failed { error }) && (
            r.event matches JobEvent::Settled { id: i, status, phase, error: e } && i == id
                && status == JobStatus::Failed && phase@ == "failed"@ && e == Some(error)),
            RunOutcome::Cancelled => r.record is None && (r.event matches JobEvent::Settled {
                id: i,
                status,
                phase,
                error: e,
            } && i == id && status == JobStatus::Cancelled && phase@ == "cancelled"@ && e is None),
        },
{
    match outcome {
        RunOutcome::Succeeded { gcode_id, stats } => Settlement {
            record: Some(JobOutcome::Succeeded { gcode_id }),
            event: JobEvent::Finished { id, gcode_id: Some(gcode_id), stats },
        },
        RunOutcome::Failed(error) => {
            let recorded = error.clone();
            Settlement {
                record: Some(JobOutcome::Failed { error: recorded }),
                event: JobEvent::Settled {
                    id,
                    status: JobStatus::Failed,
                    phase: "failed".to_owned(),
                    error: Some(error),
                },
            }
        },
        RunOutcome::Cancelled => Settlement {
            record: None,
            event: JobEvent::Settled {
                id,
                status: JobStatus::Cancelled,
                phase: "cancelled".to_owned(),
                error: None,
            },
        },
    }
}


/// The jobs that a worker is running, whose cancellation signal a cancel
/// request reaches. A job enters when its run starts and leaves when the
/// runner returns, so a later cancel request for it reaches nothing.
pub struct RunningJobs {
    ids: HashSet<u128>,
}

impl RunningJobs {
    /// Identifiers of the running jobs.
    pub closed spec fn running(&self) -> Set<u128> {
        self.ids@
    }

    /// No job running.
    pub fn new() -> (r: Self)
        ensures
            r.running() == Set::<u128>::empty(),
    {
        RunningJobs { ids: HashSet::new() }
    }

    /// A run of `id` starts.
    pub fn start(&mut self, id: JobId)
        ensures
            final(self).running() == old(self).running().insert(id.0),
    {
        self.ids.insert(id.0);
    }

    /// The run of `id` has returned.
    pub fn finish(&mut self, id: JobId)
        ensures
            final(self).running() == old(self).running().remove(id.0),
    {
        self.ids.remove(&id.0);
    }

    /// Whether a cancel request for `id` reaches a running job (whose signal
    /// the caller then raises); a job that is not running is left alone.
    pub fn cancel_target(&self, id: JobId) -> (r: bool)
        ensures
            r == self.running().contains(id.0),
    {
        self.ids.contains(&id.0)
    }
}

/// A cancel request reaches a job only while it runs: once its run has
/// returned, a cancel for it reaches nothing, and other running jobs are
/// unaffected by its start or end.
pub proof fn law_cancel_reaches_only_running_jobs(running: Set<u128>, id: u128, other: u128)
    requires
        other != id,
    ensures
        running.insert(id).contains(id),
        !running.insert(id).remove(id).contains(id),
        running.insert(id).remove(id).contains(other) == running.contains(other),
{
}

} // verus!
