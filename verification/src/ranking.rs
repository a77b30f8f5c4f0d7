//! Ordering of search hits: a stable sort by snippet length, longest first,
//! and the cut to the first page of hits.

use vstd::prelude::*;
use vstd::utf8::encode_utf8;
use crate::search::SearchResult;

verus! {

/// How many hits a search answers with at most.
pub const MAX_RESULTS: usize = 20;

/// The length in bytes of a hit's snippet, the key by which hits are ordered.
pub open spec fn snippet_len(r: SearchResult) -> nat {
    encode_utf8(r.snippet@).len()
}

/// `out` lists `items` rearranged by the index map `p` (`out[k]` is
/// `items[p[k]]`), longest snippet first, and hits with snippets of equal
/// length keep the order they had in `items`.
pub open spec fn stable_by_snippet_len(items: Seq<SearchResult>, out: Seq<SearchResult>, p: Seq<int>) -> bool {
    &&& p.len() == items.len()
    &&& out.len() == items.len()
    &&& forall|k: int| 0 <= k < p.len() ==> 0 <= #[trigger] p[k] < items.len() && out[k] == items[p[k]]
    &&& forall|a: int, b: int| 0 <= a < b < p.len() ==> #[trigger] p[a] != #[trigger] p[b]
    &&& forall|a: int, b: int|
        0 <= a < b < out.len() ==> snippet_len(#[trigger] out[a]) > snippet_len(#[trigger] out[b]) || (
        snippet_len(out[a]) == snippet_len(out[b]) && p[a] < p[b])
}

/// `out` is the stable sort of `items` by snippet length, longest first.
pub open spec fn sorted_by_snippet_len(items: Seq<SearchResult>, out: Seq<SearchResult>) -> bool {
    exists|p: Seq<int>| stable_by_snippet_len(items, out, p)
}

fn snippet_byte_len(r: &SearchResult) -> (n: usize)
    ensures
        n == snippet_len(*r),
{
    r.snippet.as_str().as_bytes().len()
}

proof fn lemma_insert_keeps_order(
    items: Seq<SearchResult>,
    i: int,
    out: Seq<SearchResult>,
    p: Seq<int>,
    pos: int,
)
    requires
        0 <= i < items.len(),
        stable_by_snippet_len(items.take(i), out, p),
        0 <= pos <= out.len(),
        forall|k: int| 0 <= k < pos ==> snippet_len(#[trigger] out[k]) >= snippet_len(items[i]),
        pos < out.len() ==> snippet_len(out[pos]) < snippet_len(items[i]),
    ensures
        stable_by_snippet_len(items.take(i + 1), out.insert(pos, items[i]), p.insert(pos, i)),
{
    let x = items[i];
    let out2 = out.insert(pos, x);
    let p2 = p.insert(pos, i);
    let pre2 = items.take(i + 1);
    assert forall|k: int| 0 <= k < p2.len() implies 0 <= #[trigger] p2[k] < pre2.len() && out2[k]
        == pre2[p2[k]] by {
        if k < pos {
            assert(p2[k] == p[k]);
        } else if k > pos {
            assert(p2[k] == p[k - 1]);
        }
    }
    assert forall|a: int, b: int| 0 <= a < b < p2.len() implies #[trigger] p2[a] != #[trigger] p2[b] by {
        if a < pos && b > pos {
            assert(p[b - 1] != p[a]);
        } else if a > pos {
            assert(p[a - 1] != p[b - 1]);
        } else if a == pos {
            assert(p[b - 1] < i);
        } else if b == pos {
            assert(p[a] < i);
        }
    }
    assert forall|a: int, b: int| 0 <= a < b < out2.len() implies snippet_len(#[trigger] out2[a])
        > snippet_len(#[trigger] out2[b]) || (snippet_len(out2[a]) == snippet_len(out2[b]) && p2[a]
        < p2[b]) by {
        if b < pos {
            assert(out2[a] == out[a] && out2[b] == out[b]);
        } else if a > pos {
            assert(out2[a] == out[a - 1] && out2[b] == out[b - 1]);
        } else if a < pos && b > pos {
            assert(out2[a] == out[a] && out2[b] == out[b - 1]);
        } else if a == pos {
            // every hit after the insertion point has a shorter snippet
            assert(out2[b] == out[b - 1]);
        } else {
            // b == pos: every hit before it is at least as long, and came earlier
            assert(out2[a] == out[a]);
            assert(p[a] < i);
        }
    }
}

/// Sorts the hits by snippet length in bytes, longest first, keeping hits of
/// equal snippet length in the order they came in.
pub fn sort_by_snippet_len(items: Vec<SearchResult>) -> (out: Vec<SearchResult>)
    ensures
        sorted_by_snippet_len(items@, out@),
{
    let ghost orig = items@;
    let n = items.len();
    let mut rest = items;
    let mut out: Vec<SearchResult> = Vec::new();
    let ghost mut p: Seq<int> = Seq::empty();
    let mut i: usize = 0;
    assert(orig.take(0) =~= Seq::<SearchResult>::empty());
    while i < n
        invariant
            n == orig.len(),
            0 <= i <= n,
            rest@ == orig.subrange(i as int, n as int),
            stable_by_snippet_len(orig.take(i as int), out@, p),
        decreases n - i,
    {
        let x = rest.remove(0);
        assert(x == orig[i as int]);
        assert(rest@ =~= orig.subrange(i + 1, n as int));
        let kx = snippet_byte_len(&x);
        let mut pos: usize = 0;
        while pos < out.len() && snippet_byte_len(&out[pos]) >= kx
            invariant
                0 <= pos <= out@.len(),
                kx == snippet_len(x),
                forall|k: int| 0 <= k < pos ==> snippet_len(#[trigger] out@[k]) >= kx,
            decreases out@.len() - pos,
        {
            pos = pos + 1;
        }
        proof {
            lemma_insert_keeps_order(orig, i as int, out@, p, pos as int);
            p = p.insert(pos as int, i as int);
        }
        out.insert(pos, x);
        i = i + 1;
    }
    assert(orig.take(n as int) =~= orig);
    out
}

/// `out` is the first page of `items`: the stable sort by snippet length,
/// longest first, cut to at most `MAX_RESULTS` hits.
pub open spec fn first_page(items: Seq<SearchResult>, out: Seq<SearchResult>) -> bool {
    exists|sorted: Seq<SearchResult>|
        sorted_by_snippet_len(items, sorted) && out == sorted.take(
            if items.len() < MAX_RESULTS { items.len() as int } else { MAX_RESULTS as int },
        )
}

/// The first page of hits: the hits sorted by snippet length, longest first
/// (stable), cut to at most `MAX_RESULTS`.
pub fn rank_hits(items: Vec<SearchResult>) -> (out: Vec<SearchResult>)
    ensures
        first_page(items@, out@),
{
    let mut sorted = sort_by_snippet_len(items);
    let ghost s = sorted@;
    sorted.truncate(MAX_RESULTS);
    assert(sorted@ == s.take(
        if items@.len() < MAX_RESULTS { items@.len() as int } else { MAX_RESULTS as int },
    ));
    sorted
}

} // verus!

verus! {

/// Every hit of `items` has its place in the order `p`.
proof fn lemma_order_covers(items: Seq<SearchResult>, out: Seq<SearchResult>, p: Seq<int>, j: int)
    requires
        stable_by_snippet_len(items, out, p),
        0 <= j < items.len(),
    ensures
        exists|k: int| 0 <= k < p.len() && p[k] == j,
{
    broadcast use vstd::set::group_set_axioms, vstd::seq_lib::seq_to_set_is_finite;

    assert(p.no_duplicates()) by {
        assert forall|a: int, b: int| 0 <= a < p.len() && 0 <= b < p.len() && a != b implies p[a] != p[b] by {
            if a < b {
                assert(p[a] != p[b]);
            } else {
                assert(p[b] != p[a]);
            }
        }
    }
    p.unique_seq_to_set();
    let range = vstd::set_lib::set_int_range(0, items.len() as int);
    vstd::set_lib::lemma_int_range(0, items.len() as int);
    assert(p.to_set().subset_of(range)) by {
        assert forall|v: int| p.to_set().contains(v) implies range.contains(v) by {
            let k = choose|k: int| 0 <= k < p.len() && p[k] == v;
            assert(0 <= p[k] < items.len());
        }
    }
    vstd::set_lib::lemma_subset_equality(p.to_set(), range);
    assert(range.contains(j));
    assert(p.to_set().contains(j));
}

proof fn lemma_orders_agree_upto(
    items: Seq<SearchResult>,
    out1: Seq<SearchResult>,
    p1: Seq<int>,
    out2: Seq<SearchResult>,
    p2: Seq<int>,
    k: int,
)
    requires
        stable_by_snippet_len(items, out1, p1),
        stable_by_snippet_len(items, out2, p2),
        0 <= k < items.len(),
    ensures
        forall|j: int| 0 <= j <= k ==> p1[j] == p2[j],
    decreases k,
{
    if k > 0 {
        lemma_orders_agree_upto(items, out1, p1, out2, p2, k - 1);
    }
    let a = p1[k];
    let b = p2[k];
    if a != b {
        lemma_order_covers(items, out2, p2, a);
        lemma_order_covers(items, out1, p1, b);
        let m2 = choose|m: int| 0 <= m < p2.len() && p2[m] == a;
        let m1 = choose|m: int| 0 <= m < p1.len() && p1[m] == b;
        if m2 < k {
            assert(p1[m2] == p2[m2]);
            assert(p1[m2] != p1[k]);
        }
        if m1 < k {
            assert(p2[m1] == p1[m1]);
            assert(p2[m1] != p2[k]);
        }
        // a is ranked after b in p2, and b after a in p1: impossible
        assert(out2[k] == items[b] && out2[m2] == items[a]);
        assert(out1[k] == items[a] && out1[m1] == items[b]);
    }
}

/// Law: the ranking leaves nothing open. Two orders of the same hits that
/// both sort them by snippet length, longest first and stable, are the same
/// order.
pub proof fn lemma_ranking_is_unique(items: Seq<SearchResult>, out1: Seq<SearchResult>, out2: Seq<SearchResult>)
    requires
        sorted_by_snippet_len(items, out1),
        sorted_by_snippet_len(items, out2),
    ensures
        out1 == out2,
{
    let p1 = choose|p: Seq<int>| stable_by_snippet_len(items, out1, p);
    let p2 = choose|p: Seq<int>| stable_by_snippet_len(items, out2, p);
    if items.len() > 0 {
        lemma_orders_agree_upto(items, out1, p1, out2, p2, items.len() - 1);
    }
    assert(out1 =~= out2) by {
        assert forall|k: int| 0 <= k < out1.len() implies out1[k] == out2[k] by {
            assert(p1[k] == p2[k]);
        }
    }
}

/// Law: every hit keeps a place in the sorted order, so sorting loses and
/// duplicates nothing.
pub proof fn lemma_sorting_keeps_every_hit(items: Seq<SearchResult>, out: Seq<SearchResult>, j: int)
    requires
        sorted_by_snippet_len(items, out),
        0 <= j < items.len(),
    ensures
        exists|k: int| 0 <= k < out.len() && out[k] == items[j],
{
    let p = choose|p: Seq<int>| stable_by_snippet_len(items, out, p);
    lemma_order_covers(items, out, p, j);
    let k = choose|k: int| 0 <= k < p.len() && p[k] == j;
    assert(out[k] == items[j]);
}

} // verus!
