use vstd::prelude::*;

use crate::config::RemoveConfig;
use crate::errors::RemoveError;
use crate::progress::RemoveProgress;
use crate::queue::AdaptiveQueue;
use crate::queue::FileJob;

verus! {

/// How many times a deleter retries the removal of a directory that is
/// still reported non-empty: siblings may not yet have unlinked its
/// contents, though every content job is already ahead of it in the queue.
pub const MAX_RMDIR_RETRIES: u32 = 16;

/// The longest pause between two such retries, in milliseconds.
pub const RETRY_DELAY_CAP_MS: u64 = 128;

/// What the caller's removal syscall came back with: the call's error text
/// when it failed.
pub enum ActionOutcome {
    Succeeded,
    Failed(String),
}

/// The syscall a job asks for. In a dry run no object is touched: every
/// job is acknowledged only.
pub enum DeleteAction {
    /// Count the job as done without touching the filesystem.
    AcknowledgeOnly,
    /// Unlink the named file or symlink.
    Unlink(String),
    /// Remove the named directory, which the queue order promises has had
    /// its whole subtree enqueued ahead of it.
    Rmdir(String),
}

impl DeleteAction {
    pub open spec fn action_spec(job: FileJob, dry_run: bool) -> DeleteAction {
        if dry_run {
            DeleteAction::AcknowledgeOnly
        } else {
            match job {
                FileJob::File(p) => DeleteAction::Unlink(p),
                FileJob::Symlink(p) => DeleteAction::Unlink(p),
                FileJob::EmptyDir(p) => DeleteAction::Rmdir(p),
            }
        }
    }
}

/// Decides what to do for one job: nothing but an acknowledgement in a dry
/// run, an unlink for a file or symlink, an rmdir for a directory.
pub fn planned_action(job: &FileJob, config: &RemoveConfig) -> (a: DeleteAction)
    ensures
        a == DeleteAction::action_spec(*job, config.dry_run),
        config.dry_run ==> a == DeleteAction::AcknowledgeOnly,
{
    if config.dry_run {
        DeleteAction::AcknowledgeOnly
    } else {
        match job {
            FileJob::File(p) => DeleteAction::Unlink(p.clone()),
            FileJob::Symlink(p) => DeleteAction::Unlink(p.clone()),
            FileJob::EmptyDir(p) => DeleteAction::Rmdir(p.clone()),
        }
    }
}

/// The error a failed removal of this job is reported as.
pub open spec fn removal_error(job: FileJob, detail: String) -> RemoveError {
    match job {
        FileJob::File(p) => RemoveError::RemoveFailed(p, detail),
        FileJob::Symlink(p) => RemoveError::RemoveFailed(p, detail),
        FileJob::EmptyDir(p) => RemoveError::RemoveDirFailed(p, detail),
    }
}

/// Records the outcome of one job: a success — or any job of a dry run,
/// where no syscall was made — counts as deleted; a failure is counted and
/// sampled as an error and reported to the caller. Exactly one counter
/// moves, by exactly one, for every job.
pub fn process_job(
    job: &FileJob,
    outcome: &ActionOutcome,
    config: &RemoveConfig,
    progress: &mut RemoveProgress,
) -> (r: Result<(), RemoveError>)
    requires
        old(progress).wf(),
        old(progress).deleted_count() < u64::MAX,
        old(progress).errors_count() < u64::MAX,
    ensures
        final(progress).wf(),
        final(progress).scanned_count() == old(progress).scanned_count(),
        final(progress).deleted_count() + final(progress).errors_count() == old(progress).deleted_count() + old(progress).errors_count() + 1,
        config.dry_run || *outcome is Succeeded ==> r is Ok && final(progress).deleted_count()
            == old(progress).deleted_count() + 1 && final(progress).errors_count() == old(
            progress
        ).errors_count() && final(progress).error_items() == old(progress).error_items(),
        *outcome matches ActionOutcome::Failed(detail) ==> (!config.dry_run ==> r == Err::<(), RemoveError>(
            removal_error(*job, detail),
        ) && final(progress).errors_count() == old(progress).errors_count() + 1 && final(
            progress
        ).deleted_count() == old(progress).deleted_count()),
    {
    if config.dry_run {
        progress.inc_deleted(job.path());
        return Ok(());
    }
    match outcome {
        ActionOutcome::Succeeded => {
            progress.inc_deleted(job.path());
            Ok(())
        },
        ActionOutcome::Failed(detail) => {
            progress.inc_error(job.path(), detail.clone());
            match job {
                FileJob::File(p) => Err(RemoveError::RemoveFailed(p.clone(), detail.clone())),
                FileJob::Symlink(p) => Err(RemoveError::RemoveFailed(p.clone(), detail.clone())),
                FileJob::EmptyDir(p) => Err(
                    RemoveError::RemoveDirFailed(p.clone(), detail.clone()),
                ),
            }
        },
    }
}

/// When a deleter may stop: the scanners have all returned, so nothing
/// will be enqueued any more, and the queue has drained. An empty queue
/// alone is not enough — a scanner between two directory reads leaves the
/// queue transiently empty.
pub fn deleter_should_exit(scanners_done: bool, queue_empty: bool) -> (r: bool)
    ensures
        r == (scanners_done && queue_empty),
{
    scanners_done && queue_empty
}

/// The pause before retry number `attempt` of an rmdir, in milliseconds:
/// it doubles from one millisecond up to the cap.
pub open spec fn retry_delay_spec(attempt: nat) -> nat
    decreases attempt,
{
    if attempt == 0 {
        1
    } else if 2 * retry_delay_spec((attempt - 1) as nat) >= RETRY_DELAY_CAP_MS {
        RETRY_DELAY_CAP_MS as nat
    } else {
        2 * retry_delay_spec((attempt - 1) as nat)
    }
}

/// Computes the escalating pause before retry number `attempt` of an rmdir
/// on a directory still reported non-empty.
pub fn rmdir_retry_delay_ms(attempt: u32) -> (d: u64)
    ensures
        d == retry_delay_spec(attempt as nat),
        1 <= d <= RETRY_DELAY_CAP_MS,
    {
    let mut d: u64 = 1;
    let mut i: u32 = 0;
    while i < attempt
        invariant
            i <= attempt,
            d == retry_delay_spec(i as nat),
            1 <= d <= RETRY_DELAY_CAP_MS,
        decreases attempt - i,
    {
        if d >= RETRY_DELAY_CAP_MS / 2 {
            d = RETRY_DELAY_CAP_MS;
        } else {
            d = 2 * d;
        }
        i += 1;
    }
    d
}

/// Drains the queue, acknowledging every job as done — each dequeued job
/// is handed to `process_job` with a success outcome, which is what a dry
/// run's acknowledgement and this model's removal both are. Returns
/// whether the worker exits for good: only when the scanners are done and
/// the queue is empty; otherwise the caller wakes it again after more
/// scanning.
pub fn delete_worker(
    queue: &mut AdaptiveQueue,
    config: &RemoveConfig,
    scanners_done: bool,
    progress: &mut RemoveProgress,
) -> (exited: bool)
    requires
        old(queue).wf(),
        old(progress).wf(),
        old(progress).deleted_count() + old(queue).jobs().len() <= u64::MAX,
        old(progress).errors_count() < u64::MAX,
    ensures
        final(queue).wf(),
        final(progress).wf(),
        final(queue).jobs().len() == 0,
        final(queue).dequeued_total() == old(queue).dequeued_total() + old(queue).jobs().len(),
        final(queue).enqueued_total() == old(queue).enqueued_total(),
        final(queue).capacity_spec() == old(queue).capacity_spec(),
        final(progress).deleted_count() == old(progress).deleted_count() + old(queue).jobs().len(),
        final(progress).errors_count() == old(progress).errors_count(),
        final(progress).scanned_count() == old(progress).scanned_count(),
        final(progress).error_items() == old(progress).error_items(),
        exited == scanners_done,
    {
    let ghost start_jobs = old(queue).jobs();
    let ghost mut k: int = 0;
    loop
        invariant
            queue.wf(),
            progress.wf(),
            0 <= k <= start_jobs.len(),
            start_jobs == old(queue).jobs(),
            queue.jobs() == start_jobs.subrange(k, start_jobs.len() as int),
            queue.dequeued_total() == old(queue).dequeued_total() + k,
            queue.enqueued_total() == old(queue).enqueued_total(),
            queue.capacity_spec() == old(queue).capacity_spec(),
            progress.deleted_count() == old(progress).deleted_count() + k,
            progress.errors_count() == old(progress).errors_count(),
            progress.scanned_count() == old(progress).scanned_count(),
            progress.error_items() == old(progress).error_items(),
            old(progress).deleted_count() + start_jobs.len() <= u64::MAX,
            old(progress).errors_count() < u64::MAX,
        ensures
            queue.jobs().len() == 0,
            k == start_jobs.len(),
        decreases start_jobs.len() - k,
    {
        let next = queue.recv_timeout(100);
        match next {
            Some(job) => {
                proof {
                    assert(start_jobs.subrange(k, start_jobs.len() as int).drop_first()
                        =~= start_jobs.subrange(k + 1, start_jobs.len() as int));
                }
                let _ = process_job(&job, &ActionOutcome::Succeeded, config, progress);
                proof {
                    k = k + 1;
                }
            },
            None => {
                proof {
                    assert(start_jobs.subrange(k, start_jobs.len() as int) =~= Seq::<
                        FileJob,
                    >::empty());
                }
                break ;
            },
        }
    }
    let empty = queue.is_empty();
    deleter_should_exit(scanners_done, empty)
}

} // verus!
