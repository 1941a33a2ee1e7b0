//! The bulk-validation worker: a consumer of the job queue.  One poll step
//! dequeues with a bounded wait, marks the job as being processed, runs the
//! pipeline over every address of the job, and marks the job completed —
//! unconditionally, since per-email outcomes are not persisted.  The caller
//! drives the loop and sleeps for whatever the returned action asks.

use vstd::prelude::*;
use crate::cache::RedisCache;
use crate::directory::DirectoryConfig;
use crate::job_queue::{BulkValidationJob, JobQueue, JobStatus};
use crate::pipeline::validate_single_email;

verus! {

/// What the loop around the worker should do after one poll step.
#[derive(Clone, Copy, Debug, PartialEq, Eq, Structural)]
pub enum WorkerAction {
    Processed,
    WaitIdle,
    WaitBackoff,
}

impl WorkerAction {
    /// How long the loop should sleep before polling again: nothing after a
    /// processed job, one second after an empty poll, five seconds after a
    /// queue error.
    pub fn wait_seconds(&self) -> (r: u64)
        ensures
            *self == WorkerAction::Processed ==> r == 0,
            *self == WorkerAction::WaitIdle ==> r == 1,
            *self == WorkerAction::WaitBackoff ==> r == 5,
    {
        match self {
            WorkerAction::Processed => 0,
            WorkerAction::WaitIdle => 1,
            WorkerAction::WaitBackoff => 5,
        }
    }
}

/// The decision the worker takes on a dequeue outcome: process a job, poll
/// again after the idle wait when the queue was empty, and back off longer
/// when the queue store failed.
pub fn worker_transition(dequeued: &Result<Option<BulkValidationJob>, redis::RedisError>) -> (r:
    WorkerAction)
    ensures
        (dequeued matches Ok(Some(_))) ==> r == WorkerAction::Processed,
        (dequeued matches Ok(None)) ==> r == WorkerAction::WaitIdle,
        dequeued is Err ==> r == WorkerAction::WaitBackoff,
{
    match dequeued {
        Ok(Some(_)) => WorkerAction::Processed,
        Ok(None) => WorkerAction::WaitIdle,
        Err(_) => WorkerAction::WaitBackoff,
    }
}

/// A running worker: the queue it consumes, and the collaborators its
/// pipeline runs need.
pub struct ValidationWorker {
    pub job_queue: JobQueue,
    pub redis_cache: RedisCache,
    pub directory: DirectoryConfig,
}

impl ValidationWorker {
    /// Builds a worker over the given queue and collaborators.
    pub fn new(job_queue: JobQueue, redis_cache: RedisCache, directory: DirectoryConfig) -> (r:
        Self)
        ensures
            r.job_queue == job_queue,
            r.redis_cache == redis_cache,
            r.directory == directory,
    {
        ValidationWorker { job_queue, redis_cache, directory }
    }

    /// Handles one dequeued job: runs the pipeline over every address, then
    /// marks the job completed.  The per-email outcomes are discarded, and a
    /// lost status update — the record may have expired — is not an error.
    pub fn process_bulk_validation(
        job: BulkValidationJob,
        redis_cache: &RedisCache,
        directory: &DirectoryConfig,
        job_queue: &JobQueue,
    ) {
        let n = job.emails.len();
        for i in 0..n
            invariant
                n == job.emails@.len(),
        {
            let _ = validate_single_email(
                job.emails[i].as_str(),
                job.check_role_based,
                redis_cache,
                directory,
            );
        }
        let _ = job_queue.update_job_status(job.id.as_str(), JobStatus::Completed);
    }

    /// One poll step: dequeue with the given bounded wait, act on the
    /// outcome as `worker_transition` decides, and report that decision.  A
    /// dequeued job is marked as being processed, handled, and marked
    /// completed before this returns.
    pub fn poll_once(&self, timeout_secs: u64) -> (r: WorkerAction) {
        let dequeued = self.job_queue.get_next_job(timeout_secs);
        let action = worker_transition(&dequeued);
        match dequeued {
            Ok(Some(job)) => {
                let _ = self.job_queue.update_job_status(job.id.as_str(), JobStatus::Processing);
                Self::process_bulk_validation(job, &self.redis_cache, &self.directory,
                    &self.job_queue);
            },
            Ok(None) => {},
            Err(_) => {},
        }
        action
    }
}

} // verus!
