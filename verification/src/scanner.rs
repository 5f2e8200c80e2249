use vstd::prelude::*;

use crate::config::RemoveConfig;
use crate::errors::RemoveError;
use crate::progress::RemoveProgress;
use crate::queue::AdaptiveQueue;
use crate::queue::FileJob;

verus! {

/// One filesystem object as a traversal observed it: its absolute path, its
/// classification, and, for a directory, its entries. The error variants
/// record the failures a walk can meet, with the failure's text.
pub enum FsNode {
    /// A regular file.
    File(String),
    /// A symbolic link, never followed.
    Symlink(String),
    /// A directory and its entries.
    Dir(String, Vec<FsNode>),
    /// An object that is neither file, directory nor symlink.
    Other(String),
    /// A path whose metadata could not be read, with the error's text.
    Unreadable(String, String),
    /// A directory that could not be opened for iteration, with the error's
    /// text.
    UnlistableDir(String, String),
    /// An entry of the named directory that could not be read, with the
    /// error's text.
    BadEntry(String, String),
}

/// Everything one scan does: the jobs it enqueues in order, how many objects
/// it counts as scanned, how many errors it records, and the error it
/// returns, if any.
pub struct ScanEffect {
    pub jobs: Seq<FileJob>,
    pub scanned: nat,
    pub errors: nat,
    pub err: Option<RemoveError>,
}

/// The effect of scanning one node. Every child of a directory is scanned
/// whatever happened to its siblings; a directory's own job goes out last,
/// after all its descendants' jobs, and only when no child failed or
/// `cont` asks the scan to continue past errors.
pub open spec fn scan_effect(n: FsNode, cont: bool) -> ScanEffect
    decreases n, 0int,
{
    match n {
        FsNode::File(p) => ScanEffect {
            jobs: seq![FileJob::File(p)],
            scanned: 1,
            errors: 0,
            err: None,
        },
        FsNode::Symlink(p) => ScanEffect {
            jobs: seq![FileJob::Symlink(p)],
            scanned: 1,
            errors: 0,
            err: None,
        },
        FsNode::Dir(p, cs) => {
            let children = scan_children_prefix(cs@, cs@.len() as int, cont);
            if cont || children.err is None {
                ScanEffect {
                    jobs: children.jobs.push(FileJob::EmptyDir(p)),
                    scanned: children.scanned + 1,
                    errors: children.errors,
                    err: None,
                }
            } else {
                ScanEffect {
                    jobs: children.jobs,
                    scanned: children.scanned + 1,
                    errors: children.errors,
                    err: children.err,
                }
            }
        },
        FsNode::Other(p) => ScanEffect {
            jobs: Seq::empty(),
            scanned: 1,
            errors: 1,
            err: Some(RemoveError::UnsupportedType(p)),
        },
        FsNode::Unreadable(p, e) => ScanEffect {
            jobs: Seq::empty(),
            scanned: 1,
            errors: 1,
            err: Some(RemoveError::MetadataFailed(p, e)),
        },
        FsNode::UnlistableDir(p, e) => ScanEffect {
            jobs: Seq::empty(),
            scanned: 1,
            errors: 1,
            err: Some(RemoveError::ReadDirFailed(p, e)),
        },
        FsNode::BadEntry(parent, e) => ScanEffect {
            jobs: Seq::empty(),
            scanned: 1,
            errors: 1,
            err: Some(RemoveError::DirEntryFailed(parent, e)),
        },
    }
}

/// The combined effect of scanning the first `i` of the nodes `cs`, in
/// order: jobs concatenate, counters add, and the error reported is the
/// first child's.
pub open spec fn scan_children_prefix(cs: Seq<FsNode>, i: int, cont: bool) -> ScanEffect
    decreases cs, i,
{
    if 0 < i <= cs.len() {
        let pre = scan_children_prefix(cs, i - 1, cont);
        let last = scan_effect(cs[i - 1], cont);
        ScanEffect {
            jobs: pre.jobs + last.jobs,
            scanned: pre.scanned + last.scanned,
            errors: pre.errors + last.errors,
            err: if pre.err is Some {
                pre.err
            } else {
                last.err
            },
        }
    } else {
        ScanEffect { jobs: Seq::empty(), scanned: 0, errors: 0, err: None }
    }
}

/// The combined effect of scanning all of `cs` in order.
pub open spec fn scan_children(cs: Seq<FsNode>, cont: bool) -> ScanEffect {
    scan_children_prefix(cs, cs.len() as int, cont)
}

/// How many filesystem objects the node's tree holds, error entries
/// included: exactly what a scan of it counts as scanned.
pub open spec fn node_size(n: FsNode) -> nat
    decreases n, 0int,
{
    match n {
        FsNode::Dir(_p, cs) => 1 + children_size_prefix(cs@, cs@.len() as int),
        _ => 1,
    }
}

/// How many objects the first `i` of the nodes `cs` hold together.
pub open spec fn children_size_prefix(cs: Seq<FsNode>, i: int) -> nat
    decreases cs, i,
{
    if 0 < i <= cs.len() {
        children_size_prefix(cs, i - 1) + node_size(cs[i - 1])
    } else {
        0
    }
}

/// What a scan's counters can reach: it scans exactly the tree's size, and
/// jobs and recorded errors together never exceed it.
pub proof fn lemma_scan_effect_size(n: FsNode, cont: bool)
    ensures
        scan_effect(n, cont).scanned == node_size(n),
        scan_effect(n, cont).jobs.len() + scan_effect(n, cont).errors <= node_size(n),
        1 <= node_size(n),
    decreases n, 0int,
{
    match n {
        FsNode::Dir(_p, cs) => {
            lemma_scan_children_size(cs@, cs@.len() as int, cont);
        },
        _ => {},
    }
}

/// The prefix form of the size bounds.
pub proof fn lemma_scan_children_size(cs: Seq<FsNode>, i: int, cont: bool)
    ensures
        scan_children_prefix(cs, i, cont).scanned == children_size_prefix(cs, i),
        scan_children_prefix(cs, i, cont).jobs.len() + scan_children_prefix(cs, i, cont).errors
            <= children_size_prefix(cs, i),
    decreases cs, i,
{
    if 0 < i <= cs.len() {
        lemma_scan_children_size(cs, i - 1, cont);
        lemma_scan_effect_size(cs[i - 1], cont);
    }
}

/// Prefix sizes grow with the prefix.
pub proof fn lemma_children_size_prefix_le(cs: Seq<FsNode>, i: int, j: int)
    requires
        0 <= i <= j <= cs.len(),
    ensures
        children_size_prefix(cs, i) <= children_size_prefix(cs, j),
    decreases j,
{
    if i < j {
        lemma_children_size_prefix_le(cs, i, j - 1);
    }
}

/// Scans the children `children` in order, front to back, handing every one
/// to `scan_path` whatever happened to its siblings, as the parallel walk
/// collects every entry's outcome. Returns the first child's error when the
/// configuration does not ask to continue past errors, and success
/// otherwise.
fn scan_entries(
    children: &Vec<FsNode>,
    queue: &mut AdaptiveQueue,
    progress: &mut RemoveProgress,
    config: &RemoveConfig,
) -> (r: Result<(), RemoveError>)
    requires
        old(queue).wf(),
        old(progress).wf(),
        old(queue).jobs().len() + children_size_prefix(children@, children@.len() as int) <= old(
            queue,
        ).capacity_spec(),
        old(queue).enqueued_total() + children_size_prefix(children@, children@.len() as int)
            <= u64::MAX,
        old(progress).scanned_count() + children_size_prefix(children@, children@.len() as int)
            <= u64::MAX,
        old(progress).errors_count() + children_size_prefix(children@, children@.len() as int)
            <= u64::MAX,
    ensures
        final(queue).wf(),
        final(progress).wf(),
        ({
            let eff = scan_children(children@, config.continue_on_error);
            &&& final(queue).jobs() == old(queue).jobs() + eff.jobs
            &&& final(queue).enqueued_total() == old(queue).enqueued_total() + eff.jobs.len()
            &&& final(queue).dequeued_total() == old(queue).dequeued_total()
            &&& final(queue).capacity_spec() == old(queue).capacity_spec()
            &&& final(progress).scanned_count() == old(progress).scanned_count() + eff.scanned
            &&& final(progress).errors_count() == old(progress).errors_count() + eff.errors
            &&& final(progress).deleted_count() == old(progress).deleted_count()
            &&& match r {
                Ok(_) => config.continue_on_error || eff.err is None,
                Err(e) => !config.continue_on_error && eff.err == Some(e),
            }
        }),
    decreases children@, children@.len() as int,
{
    let ghost cont = config.continue_on_error;
    let mut first_err: Option<RemoveError> = None;
    let mut i: usize = 0;
    while i < children.len()
        invariant
            i <= children@.len(),
            queue.wf(),
            progress.wf(),
            old(queue).wf(),
            old(queue).jobs().len() + children_size_prefix(children@, children@.len() as int)
                <= old(queue).capacity_spec(),
            old(queue).enqueued_total() + children_size_prefix(children@, children@.len() as int)
                <= u64::MAX,
            old(progress).scanned_count() + children_size_prefix(
                children@,
                children@.len() as int,
            ) <= u64::MAX,
            old(progress).errors_count() + children_size_prefix(children@, children@.len() as int)
                <= u64::MAX,
            cont == config.continue_on_error,
            ({
                let eff = scan_children_prefix(children@, i as int, cont);
                &&& queue.jobs() == old(queue).jobs() + eff.jobs
                &&& queue.enqueued_total() == old(queue).enqueued_total() + eff.jobs.len()
                &&& queue.dequeued_total() == old(queue).dequeued_total()
                &&& queue.capacity_spec() == old(queue).capacity_spec()
                &&& progress.scanned_count() == old(progress).scanned_count() + eff.scanned
                &&& progress.errors_count() == old(progress).errors_count() + eff.errors
                &&& progress.deleted_count() == old(progress).deleted_count()
                &&& match first_err {
                    None => eff.err is None,
                    Some(e) => eff.err == Some(e),
                }
            }),
        decreases children@.len() - i,
    {
        proof {
            lemma_scan_children_size(children@, i as int, cont);
            lemma_children_size_prefix_le(children@, i as int + 1, children@.len() as int);
            lemma_scan_effect_size(children@[i as int], cont);
        }
        let r = scan_path(&children[i], queue, progress, config);
        proof {
            let pre = scan_children_prefix(children@, i as int, cont);
            let last = scan_effect(children@[i as int], cont);
            let eff = scan_children_prefix(children@, i as int + 1, cont);
            assert(eff.jobs == pre.jobs + last.jobs);
            assert(old(queue).jobs() + eff.jobs =~= (old(queue).jobs() + pre.jobs) + last.jobs);
        }
        match r {
            Err(e) => {
                if first_err.is_none() {
                    first_err = Some(e);
                }
            },
            Ok(_) => {},
        }
        i += 1;
    }
    match first_err {
        Some(e) => {
            if !config.continue_on_error {
                Err(e)
            } else {
                Ok(())
            }
        },
        None => Ok(()),
    }
}

/// Where every scanned object goes: when a scan continues past errors, or
/// meets none, each object it counts yields exactly one job or one recorded
/// error — nothing is dropped and nothing is double-counted.
pub proof fn lemma_scan_accounting(n: FsNode, cont: bool)
    requires
        cont || scan_effect(n, cont).err is None,
    ensures
        scan_effect(n, cont).jobs.len() + scan_effect(n, cont).errors == scan_effect(
            n,
            cont,
        ).scanned,
    decreases n, 1int,
{
    match n {
        FsNode::Dir(_p, cs) => {
            lemma_scan_children_accounting(cs@, cs@.len() as int, cont);
        },
        _ => {},
    }
}

/// The prefix form of the accounting law.
pub proof fn lemma_scan_children_accounting(cs: Seq<FsNode>, i: int, cont: bool)
    requires
        cont || scan_children_prefix(cs, i, cont).err is None,
    ensures
        scan_children_prefix(cs, i, cont).jobs.len() + scan_children_prefix(cs, i, cont).errors
            == scan_children_prefix(cs, i, cont).scanned,
    decreases cs, i,
{
    if 0 < i <= cs.len() {
        lemma_scan_children_accounting(cs, i - 1, cont);
        lemma_scan_accounting(cs[i - 1], cont);
    }
}

/// Node `u` stands somewhere in the tree rooted at `t`.
pub open spec fn in_tree(u: FsNode, t: FsNode) -> bool
    decreases t, 1int,
{
    u == t || (match t {
        FsNode::Dir(_p, cs) => in_children(u, cs@, cs@.len() as int),
        _ => false,
    })
}

/// Node `u` stands in the tree of one of the first `i` nodes of `cs`.
pub open spec fn in_children(u: FsNode, cs: Seq<FsNode>, i: int) -> bool
    decreases cs, i,
{
    0 < i <= cs.len() && (in_tree(u, cs[i - 1]) || in_children(u, cs, i - 1))
}

/// `part` occurs as one contiguous block of `whole`, starting at `lo`.
pub open spec fn block_at(whole: Seq<FileJob>, part: Seq<FileJob>, lo: int) -> bool {
    &&& 0 <= lo
    &&& lo + part.len() <= whole.len()
    &&& whole.subrange(lo, lo + part.len() as int) == part
}

/// Wherever a node stands in a tree, the jobs of its own scan stand
/// together, as one contiguous block, inside the jobs of the whole tree's
/// scan.
pub proof fn lemma_subtree_jobs_block(t: FsNode, u: FsNode, cont: bool)
    requires
        in_tree(u, t),
    ensures
        exists|lo: int| block_at(scan_effect(t, cont).jobs, scan_effect(u, cont).jobs, lo),
    decreases t, 1int,
{
    let tj = scan_effect(t, cont).jobs;
    let uj = scan_effect(u, cont).jobs;
    if u == t {
        assert(tj.subrange(0, tj.len() as int) =~= tj);
        assert(block_at(tj, uj, 0));
    } else {
        match t {
            FsNode::Dir(p, cs) => {
                let cj = scan_children(cs@, cont).jobs;
                lemma_subtree_jobs_block_children(cs@, cs@.len() as int, u, cont);
                let w = choose|lo: int| block_at(cj, uj, lo);
                if cont || scan_children(cs@, cont).err is None {
                    assert(tj == cj.push(FileJob::EmptyDir(p)));
                    assert(tj.subrange(w, w + uj.len() as int) =~= cj.subrange(
                        w,
                        w + uj.len() as int,
                    ));
                    assert(block_at(tj, uj, w));
                } else {
                    assert(block_at(tj, uj, w));
                }
            },
            _ => {
                assert(false);
            },
        }
    }
}

/// The prefix form of the block law.
pub proof fn lemma_subtree_jobs_block_children(cs: Seq<FsNode>, i: int, u: FsNode, cont: bool)
    requires
        in_children(u, cs, i),
    ensures
        exists|lo: int|
            block_at(scan_children_prefix(cs, i, cont).jobs, scan_effect(u, cont).jobs, lo),
    decreases cs, i,
{
    let pj = scan_children_prefix(cs, i, cont).jobs;
    let pre = scan_children_prefix(cs, i - 1, cont).jobs;
    let last = scan_effect(cs[i - 1], cont).jobs;
    let uj = scan_effect(u, cont).jobs;
    assert(pj == pre + last);
    if in_tree(u, cs[i - 1]) {
        lemma_subtree_jobs_block(cs[i - 1], u, cont);
        let w = choose|lo: int| block_at(last, uj, lo);
        let shifted = pre.len() + w;
        assert(pj.subrange(shifted, shifted + uj.len() as int) =~= last.subrange(
            w,
            w + uj.len() as int,
        ));
        assert(block_at(pj, uj, shifted));
    } else {
        lemma_subtree_jobs_block_children(cs, i - 1, u, cont);
        let w = choose|lo: int| block_at(pre, uj, lo);
        assert(pj.subrange(w, w + uj.len() as int) =~= pre.subrange(w, w + uj.len() as int));
        assert(block_at(pj, uj, w));
    }
}

/// A directory that completed its scan sends its own job out last: the
/// final job of its effect names the directory itself, after every job of
/// its subtree.
pub proof fn lemma_dir_job_last(t: FsNode, cont: bool)
    requires
        t is Dir,
        scan_effect(t, cont).err is None,
    ensures
        scan_effect(t, cont).jobs.len() == scan_children((t->Dir_1)@, cont).jobs.len() + 1,
        scan_effect(t, cont).jobs.last() == FileJob::EmptyDir(t->Dir_0),
{
}

/// The child-before-parent ordering: every job arising from the subtree of
/// a completed directory stands, as a block, strictly before the
/// directory's own job in the enqueue order — and the FIFO queue preserves
/// that order to the consumers.
pub proof fn lemma_subtree_jobs_before_dir(t: FsNode, u: FsNode, cont: bool)
    requires
        t is Dir,
        in_children(u, (t->Dir_1)@, (t->Dir_1)@.len() as int),
        scan_effect(t, cont).err is None,
    ensures
        exists|lo: int|
            block_at(scan_effect(t, cont).jobs, scan_effect(u, cont).jobs, lo) && lo + scan_effect(
                u,
                cont,
            ).jobs.len() < scan_effect(t, cont).jobs.len(),
{
    let cs = t->Dir_1;
    let cj = scan_children(cs@, cont).jobs;
    let tj = scan_effect(t, cont).jobs;
    let uj = scan_effect(u, cont).jobs;
    assert(tj == cj.push(FileJob::EmptyDir(t->Dir_0)));
    lemma_subtree_jobs_block_children(cs@, cs@.len() as int, u, cont);
    let w = choose|lo: int| block_at(cj, uj, lo);
    assert(tj.subrange(w, w + uj.len() as int) =~= cj.subrange(w, w + uj.len() as int));
    assert(block_at(tj, uj, w) && w + uj.len() < tj.len());
}

/// The ordering law over a whole run: in the job sequence of a run over
/// several roots — which is exactly the sequence the deleters dequeue,
/// the queue being FIFO — every job arising from the subtree of a
/// completed directory `d` stands strictly before `d`'s own job.
pub proof fn lemma_run_child_before_parent(roots: Seq<FsNode>, d: FsNode, u: FsNode, cont: bool)
    requires
        in_children(d, roots, roots.len() as int),
        d is Dir,
        in_children(u, (d->Dir_1)@, (d->Dir_1)@.len() as int),
        scan_effect(d, cont).err is None,
    ensures
        exists|lo: int, own: int|
            {
                &&& 0 <= lo
                &&& lo + scan_effect(u, cont).jobs.len() <= own
                &&& own < scan_children(roots, cont).jobs.len()
                &&& #[trigger] scan_children(roots, cont).jobs.subrange(
                    lo,
                    lo + scan_effect(u, cont).jobs.len() as int,
                ) == scan_effect(u, cont).jobs
                &&& #[trigger] scan_children(roots, cont).jobs[own] == FileJob::EmptyDir(
                    d->Dir_0,
                )
            },
{
    let run = scan_children(roots, cont).jobs;
    let dj = scan_effect(d, cont).jobs;
    let uj = scan_effect(u, cont).jobs;
    lemma_dir_job_last(d, cont);
    lemma_subtree_jobs_before_dir(d, u, cont);
    let w = choose|lo: int|
        block_at(dj, uj, lo) && lo + scan_effect(u, cont).jobs.len() < scan_effect(d, cont).jobs.len();
    lemma_subtree_jobs_block_children(roots, roots.len() as int, d, cont);
    let big = choose|lo: int| block_at(run, dj, lo);
    let lo = big + w;
    let own = big + dj.len() - 1;
    assert(run.subrange(big, big + dj.len() as int) == dj);
    assert forall|j: int| 0 <= j < dj.len() implies run[big + j] == dj[j] by {
        assert(run.subrange(big, big + dj.len() as int)[j] == run[big + j]);
    }
    assert(run[own] == dj[dj.len() - 1]);
    assert(run.subrange(lo, lo + uj.len() as int) =~= uj) by {
        assert forall|j: int| 0 <= j < uj.len() implies run.subrange(
            lo,
            lo + uj.len() as int,
        )[j] == uj[j] by {
            assert(run.subrange(lo, lo + uj.len() as int)[j] == run[lo + j]);
            assert(run[big + (w + j)] == dj[w + j]);
            assert(dj.subrange(w, w + uj.len() as int)[j] == dj[w + j]);
        }
    }
    assert(0 <= lo && lo + uj.len() <= own && own < run.len() && run.subrange(
        lo,
        lo + uj.len() as int,
    ) == uj && run[own] == FileJob::EmptyDir(d->Dir_0));
}

/// The paths the jobs of `jobs` name, in order.
pub open spec fn job_paths(jobs: Seq<FileJob>) -> Seq<Seq<char>> {
    jobs.map_values(|j: FileJob| j.path_view())
}

/// The paths of the removable objects of the tree under `n`, in post-order:
/// a directory's own path after all of its subtree's. Objects a walk could
/// not classify carry no path here, as no job is made for them.
pub open spec fn tree_paths(n: FsNode) -> Seq<Seq<char>>
    decreases n, 1int,
{
    match n {
        FsNode::File(p) => seq![p@],
        FsNode::Symlink(p) => seq![p@],
        FsNode::Dir(p, cs) => tree_paths_prefix(cs@, cs@.len() as int) + seq![p@],
        _ => Seq::empty(),
    }
}

/// The paths of the removable objects of the first `i` trees of `cs`.
pub open spec fn tree_paths_prefix(cs: Seq<FsNode>, i: int) -> Seq<Seq<char>>
    decreases cs, i,
{
    if 0 < i <= cs.len() {
        tree_paths_prefix(cs, i - 1) + tree_paths(cs[i - 1])
    } else {
        Seq::empty()
    }
}

/// No loss: when a scan continues past errors, or meets none, the paths
/// passed through the queue are exactly the paths the tree holds — the
/// same sequence in post-order, so in particular the same set, one job per
/// object, symlinks counted once as themselves.
pub proof fn lemma_scan_jobs_paths(n: FsNode, cont: bool)
    requires
        cont || scan_effect(n, cont).err is None,
    ensures
        job_paths(scan_effect(n, cont).jobs) == tree_paths(n),
        job_paths(scan_effect(n, cont).jobs).to_set() == tree_paths(n).to_set(),
    decreases n, 1int,
{
    match n {
        FsNode::Dir(p, cs) => {
            lemma_scan_children_jobs_paths(cs@, cs@.len() as int, cont);
            let cj = scan_children(cs@, cont).jobs;
            assert(scan_effect(n, cont).jobs == cj.push(FileJob::EmptyDir(p)));
            assert(job_paths(cj.push(FileJob::EmptyDir(p))) =~= job_paths(cj) + seq![p@]);
            assert(job_paths(scan_effect(n, cont).jobs) =~= tree_paths(n));
        },
        FsNode::File(p) => {
            assert(job_paths(seq![FileJob::File(p)]) =~= seq![p@]);
        },
        FsNode::Symlink(p) => {
            assert(job_paths(seq![FileJob::Symlink(p)]) =~= seq![p@]);
        },
        _ => {
            assert(job_paths(scan_effect(n, cont).jobs) =~= Seq::<Seq<char>>::empty());
        },
    }
}

/// The prefix form of the no-loss law.
pub proof fn lemma_scan_children_jobs_paths(cs: Seq<FsNode>, i: int, cont: bool)
    requires
        cont || scan_children_prefix(cs, i, cont).err is None,
    ensures
        job_paths(scan_children_prefix(cs, i, cont).jobs) == tree_paths_prefix(cs, i),
    decreases cs, i,
{
    if 0 < i <= cs.len() {
        lemma_scan_children_jobs_paths(cs, i - 1, cont);
        lemma_scan_jobs_paths(cs[i - 1], cont);
        let pre = scan_children_prefix(cs, i - 1, cont).jobs;
        let last = scan_effect(cs[i - 1], cont).jobs;
        assert(job_paths(pre + last) =~= job_paths(pre) + job_paths(last));
    } else {
        assert(job_paths(Seq::<FileJob>::empty()) =~= Seq::<Seq<char>>::empty());
    }
}

/// Non-overlap: when the tree's paths are pairwise distinct — which the
/// sanitizer's canonical, non-overlapping roots and the refusal to follow
/// symlinks provide — no two jobs of one scan carry the same path.
pub proof fn lemma_jobs_paths_distinct(n: FsNode, cont: bool)
    requires
        cont || scan_effect(n, cont).err is None,
        tree_paths(n).no_duplicates(),
    ensures
        job_paths(scan_effect(n, cont).jobs).no_duplicates(),
{
    lemma_scan_jobs_paths(n, cont);
}

/// Non-overlap for a whole run over several roots: when their trees'
/// paths are pairwise distinct — which canonical, non-overlapping roots
/// provide — no two jobs of the whole run carry the same path.
pub proof fn lemma_run_paths_distinct(roots: Seq<FsNode>, cont: bool)
    requires
        cont || scan_children(roots, cont).err is None,
        tree_paths_prefix(roots, roots.len() as int).no_duplicates(),
    ensures
        job_paths(scan_children(roots, cont).jobs).no_duplicates(),
{
    lemma_scan_children_jobs_paths(roots, roots.len() as int, cont);
}

/// Walks the tree under `node`, counting each object as scanned and
/// enqueuing one job per file, symlink and directory. A directory's job is
/// enqueued only after every job of its whole subtree: the recursion
/// returns from the children first, which is what lets a consumer of the
/// directory's job remove the directory itself. Errors are recorded where
/// they arise; whether one aborts the enclosing directory's scan is the
/// configuration's `continue_on_error` choice.
pub fn scan_path(
    node: &FsNode,
    queue: &mut AdaptiveQueue,
    progress: &mut RemoveProgress,
    config: &RemoveConfig,
) -> (r: Result<(), RemoveError>)
    requires
        old(queue).wf(),
        old(progress).wf(),
        old(queue).jobs().len() + node_size(*node) <= old(queue).capacity_spec(),
        old(queue).enqueued_total() + node_size(*node) <= u64::MAX,
        old(progress).scanned_count() + node_size(*node) <= u64::MAX,
        old(progress).errors_count() + node_size(*node) <= u64::MAX,
    ensures
        final(queue).wf(),
        final(progress).wf(),
        ({
            let eff = scan_effect(*node, config.continue_on_error);
            &&& final(queue).jobs() == old(queue).jobs() + eff.jobs
            &&& final(queue).enqueued_total() == old(queue).enqueued_total() + eff.jobs.len()
            &&& final(queue).dequeued_total() == old(queue).dequeued_total()
            &&& final(queue).capacity_spec() == old(queue).capacity_spec()
            &&& final(progress).scanned_count() == old(progress).scanned_count() + eff.scanned
            &&& final(progress).errors_count() == old(progress).errors_count() + eff.errors
            &&& final(progress).deleted_count() == old(progress).deleted_count()
            &&& match r {
                Ok(_) => eff.err is None,
                Err(e) => eff.err == Some(e),
            }
        }),
    decreases *node, 1int,
{
    proof {
        lemma_scan_effect_size(*node, config.continue_on_error);
    }
    progress.inc_scanned();
    match node {
        FsNode::File(path) => {
            let job = FileJob::File(path.clone());
            queue.send(job);
            proof {
                let eff = scan_effect(*node, config.continue_on_error);
                assert(old(queue).jobs().push(FileJob::File(*path)) =~= old(queue).jobs()
                    + eff.jobs);
            }
            Ok(())
        },
        FsNode::Symlink(path) => {
            let job = FileJob::Symlink(path.clone());
            queue.send(job);
            proof {
                let eff = scan_effect(*node, config.continue_on_error);
                assert(old(queue).jobs().push(FileJob::Symlink(*path)) =~= old(queue).jobs()
                    + eff.jobs);
            }
            Ok(())
        },
        FsNode::Dir(path, entries) => {
            let ghost cont = config.continue_on_error;
            proof {
                lemma_scan_children_size(entries@, entries@.len() as int, cont);
            }
            let r = scan_entries(entries, queue, progress, config);
            match r {
                Ok(_) => {
                    let job = FileJob::EmptyDir(path.clone());
                    queue.send(job);
                    proof {
                        let eff = scan_effect(*node, cont);
                        let children = scan_children(entries@, cont);
                        assert(eff.jobs == children.jobs.push(FileJob::EmptyDir(*path)));
                        assert((old(queue).jobs() + children.jobs).push(FileJob::EmptyDir(*path))
                            =~= old(queue).jobs() + eff.jobs);
                    }
                    Ok(())
                },
                Err(e) => Err(e),
            }
        },
        FsNode::Other(path) => {
            let err = RemoveError::UnsupportedType(path.clone());
            let text = err.message();
            progress.inc_error(path, text);
            proof {
                let eff = scan_effect(*node, config.continue_on_error);
                assert(old(queue).jobs() + eff.jobs =~= old(queue).jobs());
            }
            Err(err)
        },
        FsNode::Unreadable(path, detail) => {
            let err = RemoveError::MetadataFailed(path.clone(), detail.clone());
            let text = err.message();
            progress.inc_error(path, text);
            proof {
                let eff = scan_effect(*node, config.continue_on_error);
                assert(old(queue).jobs() + eff.jobs =~= old(queue).jobs());
            }
            Err(err)
        },
        FsNode::UnlistableDir(path, detail) => {
            let err = RemoveError::ReadDirFailed(path.clone(), detail.clone());
            let text = err.message();
            progress.inc_error(path, text);
            proof {
                let eff = scan_effect(*node, config.continue_on_error);
                assert(old(queue).jobs() + eff.jobs =~= old(queue).jobs());
            }
            Err(err)
        },
        FsNode::BadEntry(parent, detail) => {
            let err = RemoveError::DirEntryFailed(parent.clone(), detail.clone());
            let text = err.message();
            progress.inc_error(parent, text);
            proof {
                let eff = scan_effect(*node, config.continue_on_error);
                assert(old(queue).jobs() + eff.jobs =~= old(queue).jobs());
            }
            Err(err)
        },
    }
}

} // verus!
