//! Fuzzy matching of list entries against the user's filter text.
use vstd::prelude::*;
use nucleo::pattern::{CaseMatching, Normalization, Pattern};
use nucleo::{Config, Matcher, Utf32Str};

verus! {

/// The score nucleo's `Pattern::score` gives `haystack` for the pattern
/// parsed from `query` (smart case, smart normalization, default matcher
/// configuration); `None` when the pattern does not match.
pub uninterp spec fn nucleo_score(haystack: Seq<char>, query: Seq<char>) -> Option<u32>;

/// Calls `nucleo::pattern::Pattern::parse` on `query` and then
/// `Pattern::score` on `haystack` with a fresh `Matcher` built from
/// `Config::DEFAULT`. The contract only ties the result to the two
/// arguments through `nucleo_score`; what the score is, is left to nucleo.
#[verifier::external_body]
fn pattern_score(haystack: &str, query: &str) -> (r: Option<u32>)
    ensures
        r == nucleo_score(haystack@, query@),
{
    let pattern = Pattern::parse(query, CaseMatching::Smart, Normalization::Smart);
    let mut matcher = Matcher::new(Config::DEFAULT);
    let mut buf: Vec<char> = Vec::new();
    pattern.score(Utf32Str::new(haystack, &mut buf), &mut matcher)
}

/// Result order: higher score first, then lower index first.
pub open spec fn ranks_before(a: (usize, u32), b: (usize, u32)) -> bool {
    a.1 > b.1 || (a.1 == b.1 && a.0 < b.0)
}

pub open spec fn is_match(items: Seq<Seq<char>>, q: Seq<char>, i: int) -> bool {
    0 <= i < items.len() && nucleo_score(items[i], q) is Some
}

/// `r` is the answer to a fuzzy query: for an empty query every index with
/// score 0 in index order; otherwise exactly the matching indices with
/// their scores, strictly ordered by `ranks_before`.
pub open spec fn is_fuzzy_result(items: Seq<Seq<char>>, q: Seq<char>, r: Seq<(usize, u32)>) -> bool {
    if q.len() == 0 {
        r == Seq::new(items.len(), |i: int| (i as usize, 0u32))
    } else {
        &&& forall|k: int| 0 <= k < r.len() ==> #[trigger] r[k].0 < items.len()
            && nucleo_score(items[r[k].0 as int], q) == Some(r[k].1)
        &&& forall|i: int| #[trigger] is_match(items, q, i) ==>
            exists|k: int| 0 <= k < r.len() && r[k].0 == i
        &&& forall|j: int, k: int| 0 <= j < k < r.len() ==> ranks_before(#[trigger] r[j], #[trigger] r[k])
    }
}

/// The (unique, see `lemma_fuzzy_result_unique`) answer to a fuzzy query.
pub open spec fn fuzzy_spec(items: Seq<Seq<char>>, q: Seq<char>) -> Seq<(usize, u32)> {
    choose|r: Seq<(usize, u32)>| is_fuzzy_result(items, q, r)
}

pub open spec fn str_views(items: Seq<&str>) -> Seq<Seq<char>> {
    items.map_values(|s: &str| s@)
}

/// Two strictly `ranks_before`-sorted sequences holding the same elements
/// are equal.
proof fn lemma_sorted_same_elements(a: Seq<(usize, u32)>, b: Seq<(usize, u32)>)
    requires
        forall|j: int, k: int| 0 <= j < k < a.len() ==> ranks_before(#[trigger] a[j], #[trigger] a[k]),
        forall|j: int, k: int| 0 <= j < k < b.len() ==> ranks_before(#[trigger] b[j], #[trigger] b[k]),
        forall|j: int| 0 <= j < a.len() ==> b.contains(#[trigger] a[j]),
        forall|j: int| 0 <= j < b.len() ==> a.contains(#[trigger] b[j]),
    ensures
        a == b,
    decreases a.len() + b.len(),
{
    if a.len() == 0 {
        if b.len() > 0 {
            assert(a.contains(b[0]));
        }
        assert(b =~= a);
    } else if b.len() == 0 {
        assert(b.contains(a[0]));
    } else {
        assert(b.contains(a[0]));
        assert(a.contains(b[0]));
        let ja = choose|k: int| 0 <= k < b.len() && b[k] == a[0];
        let jb = choose|k: int| 0 <= k < a.len() && a[k] == b[0];
        if ja > 0 {
            assert(ranks_before(b[0], b[ja]));
            if jb > 0 {
                assert(ranks_before(a[0], a[jb]));
            }
        }
        assert(a[0] == b[0]);
        let a1 = a.drop_first();
        let b1 = b.drop_first();
        assert forall|j: int| 0 <= j < a1.len() implies b1.contains(#[trigger] a1[j]) by {
            assert(b.contains(a1[j]));
            let k = choose|k: int| 0 <= k < b.len() && b[k] == a1[j];
            assert(ranks_before(a[0], a[j + 1]));
            assert(k != 0);
            assert(b1[k - 1] == a1[j]);
        }
        assert forall|j: int| 0 <= j < b1.len() implies a1.contains(#[trigger] b1[j]) by {
            assert(a.contains(b1[j]));
            let k = choose|k: int| 0 <= k < a.len() && a[k] == b1[j];
            assert(ranks_before(b[0], b[j + 1]));
            assert(k != 0);
            assert(a1[k - 1] == b1[j]);
        }
        lemma_sorted_same_elements(a1, b1);
        assert(a =~= seq![a[0]] + a1);
        assert(b =~= seq![b[0]] + b1);
    }
}

/// A fuzzy query has exactly one answer: the order of the results is fully
/// determined by the scores and the indices.
pub proof fn lemma_fuzzy_result_unique(items: Seq<Seq<char>>, q: Seq<char>, r1: Seq<(usize, u32)>, r2: Seq<(usize, u32)>)
    requires
        is_fuzzy_result(items, q, r1),
        is_fuzzy_result(items, q, r2),
    ensures
        r1 == r2,
{
    if q.len() > 0 {
        assert forall|j: int| 0 <= j < r1.len() implies r2.contains(#[trigger] r1[j]) by {
            assert(is_match(items, q, r1[j].0 as int));
            let k = choose|k: int| 0 <= k < r2.len() && r2[k].0 == r1[j].0;
            assert(r2[k] == r1[j]);
        }
        assert forall|j: int| 0 <= j < r2.len() implies r1.contains(#[trigger] r2[j]) by {
            assert(is_match(items, q, r2[j].0 as int));
            let k = choose|k: int| 0 <= k < r1.len() && r1[k].0 == r2[j].0;
            assert(r1[k] == r2[j]);
        }
        lemma_sorted_same_elements(r1, r2);
    }
}

/// An empty query keeps every item, in order, with score 0; a non-empty
/// one lists exactly the items nucleo matches, each once, with nucleo's
/// score.
pub proof fn law_fuzzy_keeps_matches(items: Seq<Seq<char>>, q: Seq<char>, r: Seq<(usize, u32)>)
    requires
        is_fuzzy_result(items, q, r),
    ensures
        q.len() == 0 ==> r.len() == items.len() && forall|i: int| 0 <= i < r.len() ==> #[trigger] r[i] == (i as usize, 0u32),
        q.len() > 0 ==> forall|k: int| 0 <= k < r.len() ==>
            (#[trigger] r[k]).0 < items.len() && nucleo_score(items[r[k].0 as int], q) == Some(r[k].1),
        q.len() > 0 ==> forall|i: int| 0 <= i < items.len() && nucleo_score(items[i], q) is Some ==>
            exists|k: int| 0 <= k < r.len() && (#[trigger] r[k]).0 == i,
        q.len() > 0 ==> forall|j: int, k: int| 0 <= j < k < r.len() ==> (#[trigger] r[j]).0 != (#[trigger] r[k]).0,
{
    if q.len() > 0 {
        assert forall|i: int| 0 <= i < items.len() && nucleo_score(items[i], q) is Some implies
            exists|k: int| 0 <= k < r.len() && (#[trigger] r[k]).0 == i by {
            assert(is_match(items, q, i));
        }
        assert forall|j: int, k: int| 0 <= j < k < r.len() implies (#[trigger] r[j]).0 != (#[trigger] r[k]).0 by {
            assert(ranks_before(r[j], r[k]));
            if r[j].0 == r[k].0 {
                assert(nucleo_score(items[r[j].0 as int], q) == Some(r[j].1));
            }
        }
    }
}

/// A non-empty query lists its matches best first: no result has a lower
/// score than one after it, and results with equal scores keep the order
/// of the items.
pub proof fn law_fuzzy_best_first(items: Seq<Seq<char>>, q: Seq<char>, r: Seq<(usize, u32)>)
    requires
        q.len() > 0,
        is_fuzzy_result(items, q, r),
    ensures
        forall|j: int, k: int| 0 <= j < k < r.len() ==>
            (#[trigger] r[j]).1 >= (#[trigger] r[k]).1 && (r[j].1 == r[k].1 ==> r[j].0 < r[k].0),
        forall|j: int, k: int| 0 <= j < r.len() && 0 <= k < r.len() && (#[trigger] r[j]).1 > (#[trigger] r[k]).1 ==> j < k,
{
    assert forall|j: int, k: int| 0 <= j < k < r.len() implies
        (#[trigger] r[j]).1 >= (#[trigger] r[k]).1 && (r[j].1 == r[k].1 ==> r[j].0 < r[k].0) by {
        assert(ranks_before(r[j], r[k]));
    }
    assert forall|j: int, k: int| 0 <= j < r.len() && 0 <= k < r.len() && (#[trigger] r[j]).1 > (#[trigger] r[k]).1 implies j < k by {
        if k < j {
            assert(ranks_before(r[k], r[j]));
        }
    }
}

/// Insert `x` into the sorted `v` in front of the first element that does
/// not rank before it.
fn insert_ranked(v: &mut Vec<(usize, u32)>, x: (usize, u32))
    requires
        forall|j: int, k: int| 0 <= j < k < old(v).len() ==> ranks_before(#[trigger] old(v)@[j], #[trigger] old(v)@[k]),
        forall|j: int| 0 <= j < old(v).len() ==> (#[trigger] old(v)@[j]).0 < x.0,
    ensures
        final(v)@.len() == old(v)@.len() + 1,
        forall|j: int, k: int| 0 <= j < k < final(v).len() ==> ranks_before(#[trigger] final(v)@[j], #[trigger] final(v)@[k]),
        forall|e: (usize, u32)| final(v)@.contains(e) <==> (old(v)@.contains(e) || e == x),
{
    let mut p: usize = 0;
    while p < v.len() && ranks_before_exec(v[p], x)
        invariant
            p <= v.len(),
            v@ == old(v)@,
            forall|j: int| 0 <= j < p ==> ranks_before(#[trigger] v@[j], x),
        decreases v.len() - p,
    {
        p = p + 1;
    }
    let ghost before = v@;
    v.insert(p, x);
    assert(v@ == before.subrange(0, p as int).push(x) + before.subrange(p as int, before.len() as int));
    assert forall|j: int, k: int| 0 <= j < k < v.len() implies ranks_before(#[trigger] v@[j], #[trigger] v@[k]) by {
        if k < p {
        } else if k == p {
        } else if j < p {
            assert(ranks_before(before[j], before[k - 1]));
        } else if j == p {
            assert(before[k - 1].0 < x.0);
            if p < before.len() {
                assert(!ranks_before(before[p as int], x));
                if k - 1 > p {
                    assert(ranks_before(before[p as int], before[k - 1]));
                }
            }
        } else {
            assert(ranks_before(before[j - 1], before[k - 1]));
        }
    }
    assert forall|e: (usize, u32)| v@.contains(e) <==> (before.contains(e) || e == x) by {
        if v@.contains(e) {
            let k = choose|k: int| 0 <= k < v@.len() && v@[k] == e;
            if k < p {
                assert(before[k] == e);
            } else if k > p {
                assert(before[k - 1] == e);
            }
        }
        if before.contains(e) {
            let k = choose|k: int| 0 <= k < before.len() && before[k] == e;
            if k < p {
                assert(v@[k] == e);
            } else {
                assert(v@[k + 1] == e);
            }
        }
        if e == x {
            assert(v@[p as int] == e);
        }
    }
}

fn ranks_before_exec(a: (usize, u32), b: (usize, u32)) -> (r: bool)
    ensures
        r == ranks_before(a, b),
{
    a.1 > b.1 || (a.1 == b.1 && a.0 < b.0)
}

/// Fuzzy-match `items` against `query`, returning `(index, score)` pairs.
/// An empty query yields every item with score 0 in index order; otherwise
/// only the matches, by score descending, ties by index ascending.
pub fn fuzzy_match(items: &[&str], query: &str) -> (r: Vec<(usize, u32)>)
    ensures
        is_fuzzy_result(str_views(items@), query@, r@),
        query@.len() > 0 ==> forall|j: int, k: int| 0 <= j < k < r@.len() ==>
            (#[trigger] r@[j]).1 >= (#[trigger] r@[k]).1 && ((r@[j]).1 == (r@[k]).1 ==> (r@[j]).0 < (r@[k]).0),
        r@ == fuzzy_spec(str_views(items@), query@),
{
    let ghost its = str_views(items@);
    let mut out: Vec<(usize, u32)> = Vec::new();
    if query.is_empty() {
        let mut i: usize = 0;
        while i < items.len()
            invariant
                i <= items.len(),
                out@ == Seq::new(i as nat, |k: int| (k as usize, 0u32)),
            decreases items.len() - i,
        {
            out.push((i, 0));
            i = i + 1;
            assert(out@ == Seq::new(i as nat, |k: int| (k as usize, 0u32)));
        }
        proof {
            assert(query@.len() == 0);
            assert(is_fuzzy_result(its, query@, out@));
            lemma_fuzzy_result_unique(its, query@, out@, fuzzy_spec(its, query@));
        }
        return out;
    }
    let mut i: usize = 0;
    while i < items.len()
        invariant
            i <= items.len(),
            its == str_views(items@),
            query@.len() > 0,
            forall|k: int| 0 <= k < out@.len() ==> #[trigger] out@[k].0 < i
                && nucleo_score(its[out@[k].0 as int], query@) == Some(out@[k].1),
            forall|m: int| 0 <= m < i && #[trigger] is_match(its, query@, m) ==>
                exists|k: int| 0 <= k < out@.len() && out@[k].0 == m,
            forall|j: int, k: int| 0 <= j < k < out@.len() ==> ranks_before(#[trigger] out@[j], #[trigger] out@[k]),
        decreases items.len() - i,
    {
        let s = pattern_score(items[i], query);
        let ghost prev = out@;
        match s {
            Some(score) => {
                insert_ranked(&mut out, (i, score));
                assert forall|k: int| 0 <= k < out@.len() implies #[trigger] out@[k].0 < i + 1
                    && nucleo_score(its[out@[k].0 as int], query@) == Some(out@[k].1) by {
                    assert(out@.contains(out@[k]));
                    if prev.contains(out@[k]) {
                        let m = choose|m: int| 0 <= m < prev.len() && prev[m] == out@[k];
                        assert(prev[m].0 < i);
                    }
                }
                assert forall|m: int| 0 <= m < i + 1 && #[trigger] is_match(its, query@, m) implies
                    exists|k: int| 0 <= k < out@.len() && out@[k].0 == m by {
                    if m < i {
                        let k = choose|k: int| 0 <= k < prev.len() && prev[k].0 == m;
                        assert(prev.contains(prev[k]));
                        assert(out@.contains(prev[k]));
                    } else {
                        assert(out@.contains((i, score)));
                    }
                }
            },
            None => {},
        }
        i = i + 1;
    }
    proof {
        assert(is_fuzzy_result(its, query@, out@));
        lemma_fuzzy_result_unique(its, query@, out@, fuzzy_spec(its, query@));
        law_fuzzy_best_first(its, query@, out@);
    }
    out
}

} // verus!
