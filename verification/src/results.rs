use vstd::prelude::*;

use crate::errors::RemoveError;

verus! {

/// The sum of the counts of the successful results among the first `i`.
pub open spec fn total_items_spec(rs: Seq<(String, Result<u64, RemoveError>)>, i: int) -> int
    decreases i,
{
    if 0 < i <= rs.len() {
        total_items_spec(rs, i - 1) + match rs[i - 1].1 {
            Ok(count) => count as int,
            Err(_) => 0int,
        }
    } else {
        0
    }
}

/// How many of the first `i` results failed.
pub open spec fn total_errors_spec(rs: Seq<(String, Result<u64, RemoveError>)>, i: int) -> int
    decreases i,
{
    if 0 < i <= rs.len() {
        total_errors_spec(rs, i - 1) + match rs[i - 1].1 {
            Ok(_) => 0int,
            Err(_) => 1int,
        }
    } else {
        0
    }
}

/// Failed results never outnumber the results.
pub proof fn lemma_total_errors_bound(rs: Seq<(String, Result<u64, RemoveError>)>, i: int)
    requires
        0 <= i <= rs.len(),
    ensures
        0 <= total_errors_spec(rs, i) <= i,
        0 <= total_items_spec(rs, i),
    decreases i,
{
    if 0 < i {
        lemma_total_errors_bound(rs, i - 1);
    }
}

/// Totals one run's per-root results: the number of items the successful
/// removals report together, and the number of roots whose removal failed.
pub fn process_results(results: &Vec<(String, Result<u64, RemoveError>)>) -> (totals: (u64, u64))
    requires
        total_items_spec(results@, results@.len() as int) <= u64::MAX,
    ensures
        totals.0 == total_items_spec(results@, results@.len() as int),
        totals.1 == total_errors_spec(results@, results@.len() as int),
{
    let mut total_items: u64 = 0;
    let mut total_errors: u64 = 0;
    let mut i: usize = 0;
    while i < results.len()
        invariant
            i <= results@.len(),
            total_items == total_items_spec(results@, i as int),
            total_errors == total_errors_spec(results@, i as int),
            total_items_spec(results@, results@.len() as int) <= u64::MAX,
        decreases results@.len() - i,
    {
        proof {
            lemma_total_errors_bound(results@, i as int);
            lemma_total_items_monotone(results@, i as int + 1, results@.len() as int);
        }
        match &results[i].1 {
            Ok(count) => {
                total_items = total_items + *count;
            },
            Err(_) => {
                total_errors = total_errors + 1;
            },
        }
        i += 1;
    }
    (total_items, total_errors)
}

/// Item totals only grow with more results.
pub proof fn lemma_total_items_monotone(rs: Seq<(String, Result<u64, RemoveError>)>, i: int, j:
    int)
    requires
        0 <= i <= j <= rs.len(),
    ensures
        total_items_spec(rs, i) <= total_items_spec(rs, j),
    decreases j,
{
    if i < j {
        lemma_total_items_monotone(rs, i, j - 1);
    }
}

/// The process's exit status: zero only for a run that recorded no error.
pub fn exit_code(total_errors: u64) -> (c: i32)
    ensures
        c == if total_errors > 0 {
            1int
        } else {
            0int
        },
{
    if total_errors > 0 {
        1
    } else {
        0
    }
}

} // verus!
