use vstd::prelude::*;

use crate::config::RemoveConfig;
use crate::deleter::delete_worker;
use crate::progress::RemoveProgress;
use crate::progress::TuiHandle;
use crate::queue::AdaptiveQueue;
use crate::results::exit_code;
use crate::scanner::children_size_prefix;
use crate::scanner::lemma_children_size_prefix_le;
use crate::scanner::lemma_scan_children_accounting;
use crate::scanner::lemma_scan_children_size;
use crate::scanner::lemma_scan_effect_size;
use crate::scanner::scan_children;
use crate::scanner::scan_children_prefix;
use crate::scanner::scan_path;
use crate::scanner::FsNode;

verus! {

/// The default bound of the hand-off queue: generous enough to hide
/// per-unlink latency, small enough that memory stays within a few
/// thousand queued paths per scanner.
pub const BASE_QUEUE_CAPACITY: usize = 10_000;

/// The largest queue bound the channel is created with.
pub const MAX_QUEUE_CAPACITY: usize = 0x1000_0000;

/// The queue bound for a scanner pool of the given size: a thousand
/// in-flight jobs per scanner, and never below the base bound nor above
/// the largest one.
pub fn default_queue_capacity(scan_threads: usize) -> (c: usize)
    ensures
        BASE_QUEUE_CAPACITY <= c <= MAX_QUEUE_CAPACITY,
        scan_threads * 1000 <= MAX_QUEUE_CAPACITY ==> c == if scan_threads * 1000
            > BASE_QUEUE_CAPACITY {
            scan_threads * 1000
        } else {
            BASE_QUEUE_CAPACITY as int
        },
{
    if scan_threads > MAX_QUEUE_CAPACITY / 1000 {
        return MAX_QUEUE_CAPACITY;
    }
    let scaled = scan_threads * 1000;
    if scaled > BASE_QUEUE_CAPACITY {
        scaled
    } else {
        BASE_QUEUE_CAPACITY
    }
}

/// What one whole run reports.
#[derive(Debug, Clone, Copy, PartialEq, Eq, Structural)]
pub struct RunSummary {
    pub scanned: u64,
    pub deleted: u64,
    pub errors: u64,
    pub exit_code: i32,
}

/// Runs the two-stage pipeline over the sanitized roots, in this order:
/// scan every root — all of them, whatever happened to the others — into
/// the bounded queue, raise the scanners-done flag, then drain the queue,
/// acknowledging every job. The summary's deleted count is exactly the
/// number of jobs that passed through the queue; deleted and errors
/// together never exceed scanned, and match it exactly whenever the run
/// continues past errors or meets none.
pub fn run_pipeline(roots: &Vec<FsNode>, config: &RemoveConfig, queue_capacity: usize) -> (s:
    RunSummary)
    requires
        1 <= queue_capacity <= MAX_QUEUE_CAPACITY,
        children_size_prefix(roots@, roots@.len() as int) <= queue_capacity,
    ensures
        ({
            let eff = scan_children(roots@, config.continue_on_error);
            &&& s.scanned == eff.scanned
            &&& s.deleted == eff.jobs.len()
            &&& s.errors == eff.errors
            &&& s.deleted + s.errors <= s.scanned
            &&& (config.continue_on_error || eff.err is None ==> s.deleted + s.errors
                == s.scanned)
            &&& s.exit_code == if s.errors > 0 {
                1int
            } else {
                0int
            }
        }),
{
    let ghost cont = config.continue_on_error;
    let ghost total = children_size_prefix(roots@, roots@.len() as int);
    let mut progress = RemoveProgress::new();
    let mut queue = AdaptiveQueue::new(queue_capacity);
    let mut scanners_done = TuiHandle::new();
    let mut i: usize = 0;
    while i < roots.len()
        invariant
            i <= roots@.len(),
            queue.wf(),
            progress.wf(),
            cont == config.continue_on_error,
            total == children_size_prefix(roots@, roots@.len() as int),
            total <= queue.capacity_spec(),
            queue.capacity_spec() <= MAX_QUEUE_CAPACITY,
            ({
                let eff = scan_children_prefix(roots@, i as int, cont);
                &&& queue.jobs() == eff.jobs
                &&& queue.enqueued_total() == eff.jobs.len()
                &&& queue.dequeued_total() == 0
                &&& progress.scanned_count() == eff.scanned
                &&& progress.errors_count() == eff.errors
                &&& progress.deleted_count() == 0
            }),
        decreases roots@.len() - i,
    {
        proof {
            lemma_scan_children_size(roots@, i as int, cont);
            lemma_children_size_prefix_le(roots@, i as int + 1, roots@.len() as int);
            lemma_scan_effect_size(roots@[i as int], cont);
        }
        let _ = scan_path(&roots[i], &mut queue, &mut progress, config);
        proof {
            let pre = scan_children_prefix(roots@, i as int, cont);
            let last = crate::scanner::scan_effect(roots@[i as int], cont);
            assert(pre.jobs + last.jobs == scan_children_prefix(roots@, i as int + 1, cont).jobs);
        }
        i += 1;
    }
    scanners_done.set_done();
    proof {
        lemma_scan_children_size(roots@, roots@.len() as int, cont);
    }
    let done = scanners_done.is_done();
    let _ = delete_worker(&mut queue, config, done, &mut progress);
    proof {
        lemma_scan_children_size(roots@, roots@.len() as int, cont);
        if cont || scan_children(roots@, cont).err is None {
            lemma_scan_children_accounting(roots@, roots@.len() as int, cont);
        }
    }
    let stats = progress.get_stats();
    let code = exit_code(stats.2);
    RunSummary { scanned: stats.0, deleted: stats.1, errors: stats.2, exit_code: code }
}

} // verus!
