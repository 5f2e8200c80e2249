use vstd::prelude::*;

use crate::config::RemoveConfig;
use crate::deleter::ActionOutcome;
use crate::errors::RemoveError;
use crate::progress::RemoveProgress;
use crate::scanner::children_size_prefix;
use crate::scanner::lemma_children_size_prefix_le;
use crate::scanner::node_size;
use crate::scanner::FsNode;

verus! {

/// Everything one recursive removal does: the count it returns on success,
/// how many objects it counts as scanned and deleted, how many errors it
/// records, and the error it returns, if any.
pub struct RemoveEffect {
    pub removed: nat,
    pub scanned: nat,
    pub deleted: nat,
    pub errors: nat,
    pub err: Option<RemoveError>,
}

/// The effect of removing one node's tree, children before the directory
/// itself. Every child is processed whatever happened to its siblings; the
/// directory's own removal happens only when no child failed or `cont`
/// asks the removal to continue past errors.
pub open spec fn remove_effect(n: FsNode, cont: bool) -> RemoveEffect
    decreases n, 0int,
{
    match n {
        FsNode::File(p) => RemoveEffect {
            removed: 1,
            scanned: 1,
            deleted: 1,
            errors: 0,
            err: None,
        },
        FsNode::Symlink(p) => RemoveEffect {
            removed: 1,
            scanned: 1,
            deleted: 1,
            errors: 0,
            err: None,
        },
        FsNode::Dir(p, cs) => {
            let children = remove_children_prefix(cs@, cs@.len() as int, cont);
            if cont || children.err is None {
                RemoveEffect {
                    removed: children.removed + 1,
                    scanned: children.scanned + 1,
                    deleted: children.deleted + 1,
                    errors: children.errors,
                    err: None,
                }
            } else {
                RemoveEffect {
                    removed: children.removed,
                    scanned: children.scanned + 1,
                    deleted: children.deleted,
                    errors: children.errors,
                    err: children.err,
                }
            }
        },
        FsNode::Other(p) => RemoveEffect {
            removed: 0,
            scanned: 1,
            deleted: 0,
            errors: 1,
            err: Some(RemoveError::UnsupportedType(p)),
        },
        FsNode::Unreadable(p, e) => RemoveEffect {
            removed: 0,
            scanned: 1,
            deleted: 0,
            errors: 1,
            err: Some(RemoveError::MetadataFailed(p, e)),
        },
        FsNode::UnlistableDir(p, e) => RemoveEffect {
            removed: 0,
            scanned: 1,
            deleted: 0,
            errors: 1,
            err: Some(RemoveError::ReadDirFailed(p, e)),
        },
        FsNode::BadEntry(parent, e) => RemoveEffect {
            removed: 0,
            scanned: 1,
            deleted: 0,
            errors: 1,
            err: Some(RemoveError::DirEntryFailed(parent, e)),
        },
    }
}

/// The combined effect of removing the first `i` of the nodes `cs`, in
/// order: counters add, only successful children contribute to the
/// returned count, and the error reported is the first child's.
pub open spec fn remove_children_prefix(cs: Seq<FsNode>, i: int, cont: bool) -> RemoveEffect
    decreases cs, i,
{
    if 0 < i <= cs.len() {
        let pre = remove_children_prefix(cs, i - 1, cont);
        let last = remove_effect(cs[i - 1], cont);
        RemoveEffect {
            removed: pre.removed + if last.err is None {
                last.removed
            } else {
                0
            },
            scanned: pre.scanned + last.scanned,
            deleted: pre.deleted + last.deleted,
            errors: pre.errors + last.errors,
            err: if pre.err is Some {
                pre.err
            } else {
                last.err
            },
        }
    } else {
        RemoveEffect { removed: 0, scanned: 0, deleted: 0, errors: 0, err: None }
    }
}

/// What a removal's counters can reach: it scans exactly the tree's size,
/// and none of the other counters exceeds it.
pub proof fn lemma_remove_effect_size(n: FsNode, cont: bool)
    ensures
        remove_effect(n, cont).scanned == node_size(n),
        remove_effect(n, cont).deleted <= node_size(n),
        remove_effect(n, cont).errors <= node_size(n),
        remove_effect(n, cont).removed <= node_size(n),
    decreases n, 1int,
{
    match n {
        FsNode::Dir(_p, cs) => {
            lemma_remove_children_size(cs@, cs@.len() as int, cont);
        },
        _ => {},
    }
}

/// The prefix form of the size bounds.
pub proof fn lemma_remove_children_size(cs: Seq<FsNode>, i: int, cont: bool)
    ensures
        remove_children_prefix(cs, i, cont).scanned == children_size_prefix(cs, i),
        remove_children_prefix(cs, i, cont).deleted <= children_size_prefix(cs, i),
        remove_children_prefix(cs, i, cont).errors <= children_size_prefix(cs, i),
        remove_children_prefix(cs, i, cont).removed <= children_size_prefix(cs, i),
    decreases cs, i,
{
    if 0 < i <= cs.len() {
        lemma_remove_children_size(cs, i - 1, cont);
        lemma_remove_effect_size(cs[i - 1], cont);
    }
}

/// Completeness of the count for the recursive remover: when it continues
/// past errors, or meets none, every scanned object is deleted or recorded
/// as an error, exactly one of the two.
pub proof fn lemma_remove_accounting(n: FsNode, cont: bool)
    requires
        cont || remove_effect(n, cont).err is None,
    ensures
        remove_effect(n, cont).deleted + remove_effect(n, cont).errors == remove_effect(
            n,
            cont,
        ).scanned,
    decreases n, 1int,
{
    match n {
        FsNode::Dir(_p, cs) => {
            lemma_remove_children_accounting(cs@, cs@.len() as int, cont);
        },
        _ => {},
    }
}

/// The prefix form of the accounting law.
pub proof fn lemma_remove_children_accounting(cs: Seq<FsNode>, i: int, cont: bool)
    requires
        cont || remove_children_prefix(cs, i, cont).err is None,
    ensures
        remove_children_prefix(cs, i, cont).deleted + remove_children_prefix(cs, i, cont).errors
            == remove_children_prefix(cs, i, cont).scanned,
    decreases cs, i,
{
    if 0 < i <= cs.len() {
        lemma_remove_children_accounting(cs, i - 1, cont);
        lemma_remove_accounting(cs[i - 1], cont);
    }
}

/// On a tree whose removal records no error, the returned count, the
/// deleted counter and the scanned counter all agree: everything the walk
/// saw was removed and counted once.
pub proof fn lemma_remove_clean(n: FsNode, cont: bool)
    requires
        remove_effect(n, cont).errors == 0,
    ensures
        remove_effect(n, cont).err is None,
        remove_effect(n, cont).removed == remove_effect(n, cont).deleted,
        remove_effect(n, cont).deleted == remove_effect(n, cont).scanned,
    decreases n, 1int,
{
    match n {
        FsNode::Dir(_p, cs) => {
            lemma_remove_children_clean(cs@, cs@.len() as int, cont);
        },
        _ => {},
    }
}

/// The prefix form of the clean-run law.
pub proof fn lemma_remove_children_clean(cs: Seq<FsNode>, i: int, cont: bool)
    requires
        remove_children_prefix(cs, i, cont).errors == 0,
    ensures
        remove_children_prefix(cs, i, cont).err is None,
        remove_children_prefix(cs, i, cont).removed == remove_children_prefix(
            cs,
            i,
            cont,
        ).deleted,
        remove_children_prefix(cs, i, cont).deleted == remove_children_prefix(
            cs,
            i,
            cont,
        ).scanned,
    decreases cs, i,
{
    if 0 < i <= cs.len() {
        lemma_remove_children_clean(cs, i - 1, cont);
        lemma_remove_clean(cs[i - 1], cont);
    }
}

/// Books one symlink removal: the caller made (or, in a dry run, skipped)
/// the unlink and hands in what it returned. Success and dry runs count as
/// one deletion and return a count of one; a failure is recorded and
/// reported.
pub fn remove_symlink(
    path: &String,
    outcome: &ActionOutcome,
    config: &RemoveConfig,
    progress: &mut RemoveProgress,
) -> (r: Result<u64, RemoveError>)
    requires
        old(progress).wf(),
        old(progress).deleted_count() < u64::MAX,
        old(progress).errors_count() < u64::MAX,
    ensures
        final(progress).wf(),
        final(progress).scanned_count() == old(progress).scanned_count(),
        config.dry_run || *outcome is Succeeded ==> r == Ok::<u64, RemoveError>(1) && final(progress).deleted_count() == old(progress).deleted_count() + 1 && final(progress).errors_count()
            == old(progress).errors_count(),
        *outcome matches ActionOutcome::Failed(detail) ==> (!config.dry_run ==> r == Err::<
            u64,
            RemoveError,
        >(RemoveError::RemoveFailed(*path, detail)) && final(progress).errors_count() == old(progress).errors_count() + 1 && final(progress).deleted_count() == old(progress).deleted_count()),
{
    if config.dry_run {
        progress.inc_deleted(path);
        return Ok(1);
    }
    match outcome {
        ActionOutcome::Succeeded => {
            progress.inc_deleted(path);
            Ok(1)
        },
        ActionOutcome::Failed(detail) => {
            progress.inc_error(path, detail.clone());
            Err(RemoveError::RemoveFailed(path.clone(), detail.clone()))
        },
    }
}

/// Books one file removal, exactly as `remove_symlink` books a symlink's.
pub fn remove_file(
    path: &String,
    outcome: &ActionOutcome,
    config: &RemoveConfig,
    progress: &mut RemoveProgress,
) -> (r: Result<u64, RemoveError>)
    requires
        old(progress).wf(),
        old(progress).deleted_count() < u64::MAX,
        old(progress).errors_count() < u64::MAX,
    ensures
        final(progress).wf(),
        final(progress).scanned_count() == old(progress).scanned_count(),
        config.dry_run || *outcome is Succeeded ==> r == Ok::<u64, RemoveError>(1) && final(progress).deleted_count() == old(progress).deleted_count() + 1 && final(progress).errors_count()
            == old(progress).errors_count(),
        *outcome matches ActionOutcome::Failed(detail) ==> (!config.dry_run ==> r == Err::<
            u64,
            RemoveError,
        >(RemoveError::RemoveFailed(*path, detail)) && final(progress).errors_count() == old(progress).errors_count() + 1 && final(progress).deleted_count() == old(progress).deleted_count()),
{
    if config.dry_run {
        progress.inc_deleted(path);
        return Ok(1);
    }
    match outcome {
        ActionOutcome::Succeeded => {
            progress.inc_deleted(path);
            Ok(1)
        },
        ActionOutcome::Failed(detail) => {
            progress.inc_error(path, detail.clone());
            Err(RemoveError::RemoveFailed(path.clone(), detail.clone()))
        },
    }
}

/// Removes a directory's entries, every one whatever happened to its
/// siblings, then the directory itself — unless a child failed and the
/// configuration does not ask to continue, in which case the directory
/// stays and the first child's error is returned. On success the count of
/// removed objects, the directory included, is returned.
pub fn remove_directory(
    path: &String,
    entries: &Vec<FsNode>,
    config: &RemoveConfig,
    progress: &mut RemoveProgress,
) -> (r: Result<u64, RemoveError>)
    requires
        old(progress).wf(),
        old(progress).scanned_count() + children_size_prefix(entries@, entries@.len() as int)
            <= u64::MAX,
        old(progress).deleted_count() + children_size_prefix(entries@, entries@.len() as int) + 1
            <= u64::MAX,
        old(progress).errors_count() + children_size_prefix(entries@, entries@.len() as int)
            <= u64::MAX,
    ensures
        final(progress).wf(),
        ({
            let cont = config.continue_on_error;
            let children = remove_children_prefix(entries@, entries@.len() as int, cont);
            &&& final(progress).scanned_count() == old(progress).scanned_count()
                + children.scanned
            &&& (cont || children.err is None ==> final(progress).deleted_count() == old(progress).deleted_count() + children.deleted + 1 && final(progress).errors_count() == old(progress).errors_count() + children.errors && r == Ok::<u64, RemoveError>(
                (children.removed + 1) as u64,
            ))
            &&& (!cont && children.err is Some ==> final(progress).deleted_count() == old(progress).deleted_count() + children.deleted && final(progress).errors_count() == old(progress).errors_count() + children.errors && r == Err::<u64, RemoveError>(children.err->0))
        }),
    decreases entries@, entries@.len() as int,
{
    let ghost cont = config.continue_on_error;
    let mut first_err: Option<RemoveError> = None;
    let mut count: u64 = 0;
    let mut i: usize = 0;
    while i < entries.len()
        invariant
            i <= entries@.len(),
            progress.wf(),
            old(progress).wf(),
            old(progress).scanned_count() + children_size_prefix(
                entries@,
                entries@.len() as int,
            ) <= u64::MAX,
            old(progress).deleted_count() + children_size_prefix(
                entries@,
                entries@.len() as int,
            ) + 1 <= u64::MAX,
            old(progress).errors_count() + children_size_prefix(entries@, entries@.len() as int)
                <= u64::MAX,
            cont == config.continue_on_error,
            ({
                let eff = remove_children_prefix(entries@, i as int, cont);
                &&& progress.scanned_count() == old(progress).scanned_count() + eff.scanned
                &&& progress.deleted_count() == old(progress).deleted_count() + eff.deleted
                &&& progress.errors_count() == old(progress).errors_count() + eff.errors
                &&& count == eff.removed
                &&& match first_err {
                    None => eff.err is None,
                    Some(e) => eff.err == Some(e),
                }
            }),
        decreases entries@.len() - i,
    {
        proof {
            lemma_remove_children_size(entries@, i as int, cont);
            lemma_children_size_prefix_le(entries@, i as int + 1, entries@.len() as int);
            lemma_remove_effect_size(entries@[i as int], cont);
        }
        let r = fast_remove(&entries[i], config, progress);
        match r {
            Ok(c) => {
                count = count + c;
            },
            Err(e) => {
                if first_err.is_none() {
                    first_err = Some(e);
                }
            },
        }
        i += 1;
    }
    match first_err {
        Some(e) => {
            if !config.continue_on_error {
                return Err(e);
            }
        },
        None => {},
    }
    proof {
        lemma_remove_children_size(entries@, entries@.len() as int, cont);
    }
    progress.inc_deleted(path);
    Ok(count + 1)
}

/// Removes whatever stands at one node: a file or symlink by one unlink, a
/// directory recursively, children first. Counts every object it visits
/// as scanned; errors are recorded where they arise and abort the
/// enclosing directory's removal unless the configuration asks to
/// continue. On success the count of removed objects is returned.
pub fn fast_remove(node: &FsNode, config: &RemoveConfig, progress: &mut RemoveProgress) -> (r:
    Result<u64, RemoveError>)
    requires
        old(progress).wf(),
        old(progress).scanned_count() + node_size(*node) <= u64::MAX,
        old(progress).deleted_count() + node_size(*node) <= u64::MAX,
        old(progress).errors_count() + node_size(*node) <= u64::MAX,
    ensures
        final(progress).wf(),
        ({
            let eff = remove_effect(*node, config.continue_on_error);
            &&& final(progress).scanned_count() == old(progress).scanned_count() + eff.scanned
            &&& final(progress).deleted_count() == old(progress).deleted_count() + eff.deleted
            &&& final(progress).errors_count() == old(progress).errors_count() + eff.errors
            &&& match r {
                Ok(count) => eff.err is None && count == eff.removed,
                Err(e) => eff.err == Some(e),
            }
        }),
    decreases *node, 1int,
{
    proof {
        crate::scanner::lemma_scan_effect_size(*node, config.continue_on_error);
        lemma_remove_effect_size(*node, config.continue_on_error);
    }
    progress.inc_scanned();
    match node {
        FsNode::File(path) => remove_file(path, &ActionOutcome::Succeeded, config, progress),
        FsNode::Symlink(path) => remove_symlink(path, &ActionOutcome::Succeeded, config, progress),
        FsNode::Dir(path, entries) => remove_directory(path, entries, config, progress),
        FsNode::Other(path) => {
            let err = RemoveError::UnsupportedType(path.clone());
            let text = err.message();
            progress.inc_error(path, text);
            Err(err)
        },
        FsNode::Unreadable(path, detail) => {
            let err = RemoveError::MetadataFailed(path.clone(), detail.clone());
            let text = err.message();
            progress.inc_error(path, text);
            Err(err)
        },
        FsNode::UnlistableDir(path, detail) => {
            let err = RemoveError::ReadDirFailed(path.clone(), detail.clone());
            let text = err.message();
            progress.inc_error(path, text);
            Err(err)
        },
        FsNode::BadEntry(parent, detail) => {
            let err = RemoveError::DirEntryFailed(parent.clone(), detail.clone());
            let text = err.message();
            progress.inc_error(parent, text);
            Err(err)
        },
    }
}

} // verus!
