use vstd::prelude::*;
use vstd::string::StringExecFns;
use vstd::string::StringSliceAdditionalSpecFns;

use crate::errors::RemoveError;

verus! {

/// The bytes a path string occupies, which is what the overlap check runs on.
pub open spec fn path_bytes(p: String) -> Seq<u8> {
    vstd::utf8::encode_utf8(p@)
}

/// The byte views of a list of path strings.
pub open spec fn byte_views(s: Seq<String>) -> Seq<Seq<u8>> {
    s.map_values(|p: String| path_bytes(p))
}

/// `p` is a prefix of `q` on a path-component boundary: `q` equals `p`, or
/// `q` continues `p` right at a separator. Canonical paths carry no trailing
/// separator, except the root itself, which the last clause covers.
pub open spec fn is_component_prefix(p: Seq<u8>, q: Seq<u8>) -> bool {
    &&& p.len() <= q.len()
    &&& q.subrange(0, p.len() as int) == p
    &&& (p.len() == q.len() || q[p.len() as int] == 47u8 || (p.len() > 0 && p[p.len() - 1]
        == 47u8))
}

/// One of the two paths lies inside the other (or they are equal).
pub open spec fn paths_overlap(p: Seq<u8>, q: Seq<u8>) -> bool {
    is_component_prefix(p, q) || is_component_prefix(q, p)
}

/// No element of `d` lies inside another element of `d`.
pub open spec fn overlap_free(d: Seq<Seq<u8>>) -> bool {
    forall|i: int, j: int|
        0 <= i < d.len() && 0 <= j < d.len() && i != j ==> !paths_overlap(d[i], d[j])
}

/// Removes repeated elements, keeping the first occurrence of each and the
/// order of first occurrences.
pub open spec fn dedup_first(s: Seq<Seq<u8>>) -> Seq<Seq<u8>>
    decreases s.len(),
{
    if s.len() == 0 {
        Seq::empty()
    } else {
        let rest = dedup_first(s.drop_last());
        if s.drop_last().contains(s.last()) {
            rest
        } else {
            rest.push(s.last())
        }
    }
}

/// What sanitization yields: the deduplicated list when it is overlap-free,
/// nothing otherwise.
pub open spec fn sanitize_spec(paths: Seq<Seq<u8>>) -> Option<Seq<Seq<u8>>> {
    if overlap_free(dedup_first(paths)) {
        Some(dedup_first(paths))
    } else {
        None
    }
}

/// Deduplication keeps exactly the elements of its input.
pub proof fn lemma_dedup_contains(s: Seq<Seq<u8>>, x: Seq<u8>)
    ensures
        dedup_first(s).contains(x) == s.contains(x),
    decreases s.len(),
{
    if s.len() > 0 {
        let drop = s.drop_last();
        let rest = dedup_first(drop);
        lemma_dedup_contains(drop, x);
        if drop.contains(x) {
            let i = choose|i: int| 0 <= i < drop.len() && drop[i] == x;
            assert(s[i] == x);
            assert(s.contains(x));
        }
        if s.last() == x {
            assert(s[s.len() - 1] == x);
            assert(s.contains(x));
        }
        if s.contains(x) {
            let i = choose|i: int| 0 <= i < s.len() && s[i] == x;
            if i < s.len() - 1 {
                assert(drop[i] == x);
                assert(drop.contains(x));
                assert(rest.contains(x));
                if !drop.contains(s.last()) {
                    let j = choose|j: int| 0 <= j < rest.len() && rest[j] == x;
                    assert(rest.push(s.last())[j] == x);
                    assert(dedup_first(s).contains(x));
                }
            } else {
                // x is the last element of s
                if drop.contains(x) {
                    let j = choose|j: int| 0 <= j < rest.len() && rest[j] == x;
                    if !drop.contains(s.last()) {
                        assert(rest.push(s.last())[j] == x);
                    }
                    assert(dedup_first(s).contains(x));
                } else {
                    assert(rest.push(s.last())[rest.len() as int] == x);
                    assert(dedup_first(s).contains(x));
                }
            }
        }
        if dedup_first(s).contains(x) {
            if drop.contains(s.last()) {
                assert(drop.contains(x));
            } else {
                let j = choose|j: int|
                    0 <= j < rest.push(s.last()).len() && rest.push(s.last())[j] == x;
                if j < rest.len() {
                    assert(rest[j] == x);
                    assert(rest.contains(x));
                    assert(drop.contains(x));
                } else {
                    assert(x == s.last());
                }
            }
            assert(s.contains(x));
        }
    }
}

/// Deduplication leaves no repeated element behind.
pub proof fn lemma_dedup_no_duplicates(s: Seq<Seq<u8>>)
    ensures
        dedup_first(s).no_duplicates(),
    decreases s.len(),
{
    if s.len() > 0 {
        lemma_dedup_no_duplicates(s.drop_last());
        if !s.drop_last().contains(s.last()) {
            lemma_dedup_contains(s.drop_last(), s.last());
            assert(!dedup_first(s.drop_last()).contains(s.last()));
        }
    }
}

/// A list without repeats passes through deduplication unchanged.
pub proof fn lemma_dedup_of_no_duplicates(s: Seq<Seq<u8>>)
    requires
        s.no_duplicates(),
    ensures
        dedup_first(s) == s,
    decreases s.len(),
{
    if s.len() > 0 {
        assert(s.drop_last().no_duplicates());
        lemma_dedup_of_no_duplicates(s.drop_last());
        if s.drop_last().contains(s.last()) {
            let i = choose|i: int| 0 <= i < s.drop_last().len() && s.drop_last()[i] == s.last();
            assert(s[i] == s[s.len() - 1]);
            assert(false);
        }
        assert(dedup_first(s) =~= s);
    }
}

/// Sanitizing an already sanitized list changes nothing: what comes out of a
/// successful sanitization is a fixed point.
pub proof fn lemma_sanitize_idempotent(paths: Seq<Seq<u8>>)
    requires
        sanitize_spec(paths) is Some,
    ensures
        sanitize_spec(sanitize_spec(paths)->0) == sanitize_spec(paths),
{
    let d = dedup_first(paths);
    lemma_dedup_no_duplicates(paths);
    lemma_dedup_of_no_duplicates(d);
}

/// A list that holds two distinct overlapping paths is rejected, wherever the
/// two stand in it.
pub proof fn lemma_overlap_rejected(paths: Seq<Seq<u8>>, i: int, j: int)
    requires
        0 <= i < paths.len(),
        0 <= j < paths.len(),
        paths[i] != paths[j],
        paths_overlap(paths[i], paths[j]),
    ensures
        sanitize_spec(paths) is None,
{
    let d = dedup_first(paths);
    assert(paths.contains(paths[i]));
    assert(paths.contains(paths[j]));
    lemma_dedup_contains(paths, paths[i]);
    lemma_dedup_contains(paths, paths[j]);
    let ki = choose|k: int| 0 <= k < d.len() && d[k] == paths[i];
    let kj = choose|k: int| 0 <= k < d.len() && d[k] == paths[j];
    assert(ki != kj);
    assert(!overlap_free(d));
}

/// Whether two byte slices hold the same bytes.
fn bytes_eq(a: &[u8], b: &[u8]) -> (r: bool)
    ensures
        r == (a@ == b@),
{
    if a.len() != b.len() {
        return false;
    }
    let mut i: usize = 0;
    while i < a.len()
        invariant
            i <= a@.len(),
            a@.len() == b@.len(),
            forall|k: int| 0 <= k < i ==> a@[k] == b@[k],
        decreases a@.len() - i,
    {
        if a[i] != b[i] {
            return false;
        }
        i += 1;
    }
    proof {
        assert(a@ =~= b@);
    }
    true
}

/// Whether two paths occupy the same bytes.
fn path_eq(a: &String, b: &String) -> (r: bool)
    ensures
        r == (path_bytes(*a) == path_bytes(*b)),
{
    bytes_eq(a.as_str().as_bytes(), b.as_str().as_bytes())
}

/// Whether `p` is a prefix of `q` on a path-component boundary.
fn is_path_prefix(p: &String, q: &String) -> (r: bool)
    ensures
        r == is_component_prefix(path_bytes(*p), path_bytes(*q)),
{
    let pb = p.as_str().as_bytes();
    let qb = q.as_str().as_bytes();
    if pb.len() > qb.len() {
        return false;
    }
    let mut i: usize = 0;
    while i < pb.len()
        invariant
            i <= pb@.len(),
            pb@.len() <= qb@.len(),
            pb@ == path_bytes(*p),
            qb@ == path_bytes(*q),
            forall|k: int| 0 <= k < i ==> pb@[k] == qb@[k],
        decreases pb@.len() - i,
    {
        if pb[i] != qb[i] {
            proof {
                let pv = path_bytes(*p);
                let qv = path_bytes(*q);
                assert(pb@ == pv);
                assert(qb@ == qv);
                if is_component_prefix(pv, qv) {
                    assert(qv.subrange(0, pv.len() as int)[i as int] == qv[i as int]);
                    assert(false);
                }
            }
            return false;
        }
        i += 1;
    }
    proof {
        assert(qb@.subrange(0, pb@.len() as int) =~= pb@);
    }
    if pb.len() == qb.len() {
        return true;
    }
    if qb[pb.len()] == 47u8 {
        return true;
    }
    if pb.len() > 0 && pb[pb.len() - 1] == 47u8 {
        return true;
    }
    false
}

/// Whether some element of `v` occupies the same bytes as `p`.
fn contains_path(v: &Vec<String>, p: &String) -> (r: bool)
    ensures
        r == byte_views(v@).contains(path_bytes(*p)),
{
    let mut i: usize = 0;
    while i < v.len()
        invariant
            i <= v@.len(),
            forall|k: int| 0 <= k < i ==> byte_views(v@)[k] != path_bytes(*p),
        decreases v@.len() - i,
    {
        if path_eq(&v[i], p) {
            assert(byte_views(v@)[i as int] == path_bytes(*p));
            return true;
        }
        i += 1;
    }
    false
}

/// Builds the diagnostic for a pair of overlapping roots, naming the inner
/// path first, as the run's operator sees it.
fn overlap_message(inner: &String, outer: &String) -> (m: String)
    ensures
        m@ == "Path overlap detected: "@ + inner@ + " is inside "@ + outer@
            + ". This could cause concurrent access issues."@,
{
    let mut m = "Path overlap detected: ".to_owned();
    m.append(inner.as_str());
    m.append(" is inside ");
    m.append(outer.as_str());
    m.append(". This could cause concurrent access issues.");
    m
}

/// Deduplicates already-canonical input roots, keeping first-seen order, and
/// rejects any pair where one root lies inside another, so that no two
/// workers can ever race on the same filesystem object.
///
/// Succeeds exactly when the deduplicated list is overlap-free; the only
/// error it returns is `PathOverlap`.
pub fn deduplicate_and_check_paths(paths: &Vec<String>) -> (r: Result<Vec<String>, RemoveError>)
    ensures
        match r {
            Ok(v) => sanitize_spec(byte_views(paths@)) == Some(byte_views(v@)),
            Err(e) => sanitize_spec(byte_views(paths@)) is None && e is PathOverlap,
        },
{
    let mut canonical: Vec<String> = Vec::new();
    let mut i: usize = 0;
    while i < paths.len()
        invariant
            i <= paths@.len(),
            byte_views(canonical@) == dedup_first(byte_views(paths@.subrange(0, i as int))),
        decreases paths@.len() - i,
    {
        let ghost prefix = byte_views(paths@.subrange(0, i as int));
        let ghost next = byte_views(paths@.subrange(0, i as int + 1));
        proof {
            assert(paths@.subrange(0, i as int + 1).drop_last() =~= paths@.subrange(0, i as int));
            assert(next.drop_last() =~= prefix);
            assert(next.last() == path_bytes(paths@[i as int]));
            lemma_dedup_contains(prefix, path_bytes(paths@[i as int]));
        }
        if !contains_path(&canonical, &paths[i]) {
            canonical.push(paths[i].clone());
            proof {
                assert(byte_views(canonical@) =~= dedup_first(next));
            }
        } else {
            proof {
                assert(byte_views(canonical@) =~= dedup_first(next));
            }
        }
        i += 1;
    }
    proof {
        assert(paths@.subrange(0, paths@.len() as int) =~= paths@);
    }
    let ghost d = byte_views(canonical@);
    let mut a: usize = 0;
    while a < canonical.len()
        invariant
            a <= canonical@.len(),
            d == byte_views(canonical@),
            d == dedup_first(byte_views(paths@)),
            forall|x: int, y: int| 0 <= x < a && x < y < d.len() ==> !paths_overlap(d[x], d[y]),
        decreases canonical@.len() - a,
    {
        let mut b: usize = a + 1;
        while b < canonical.len()
            invariant
                a < canonical@.len(),
                a + 1 <= b <= canonical@.len(),
                d == byte_views(canonical@),
                d == dedup_first(byte_views(paths@)),
                forall|y: int| a < y < b ==> !paths_overlap(d[a as int], d[y]),
            decreases canonical@.len() - b,
        {
            if is_path_prefix(&canonical[a], &canonical[b]) {
                proof {
                    assert(paths_overlap(d[a as int], d[b as int]));
                    assert(!overlap_free(d));
                }
                return Err(RemoveError::PathOverlap(overlap_message(&canonical[b], &canonical[a])));
            }
            if is_path_prefix(&canonical[b], &canonical[a]) {
                proof {
                    assert(paths_overlap(d[a as int], d[b as int]));
                    assert(!overlap_free(d));
                }
                return Err(RemoveError::PathOverlap(overlap_message(&canonical[a], &canonical[b])));
            }
            b += 1;
        }
        a += 1;
    }
    proof {
        assert forall|x: int, y: int|
            0 <= x < d.len() && 0 <= y < d.len() && x != y implies !paths_overlap(
            d[x],
            d[y],
        ) by {
            if x < y {
            } else {
                assert(!paths_overlap(d[y], d[x]));
            }
        }
    }
    Ok(canonical)
}

} // verus!
