//! Puts the positions of a column in the order in which its values are
//! listed: by value, and where two cells hold the same value, the earlier
//! cell first.

use crate::csv_type::{lemma_order_total, lemma_order_transitive, CsvAny, CsvValue};
use vstd::prelude::*;

verus! {

/// Whether the cell at position `i` is listed before the cell at position
/// `j`.
pub open spec fn listed_before(vals: Seq<CsvValue>, i: int, j: int) -> bool {
    vals[i].below(vals[j]) || (vals[i].same_as(vals[j]) && i < j)
}

/// Whether `order` holds each of the positions `lo..hi` of `vals` once, in
/// listing order.
pub open spec fn lists_range(vals: Seq<CsvValue>, order: Seq<usize>, lo: int, hi: int) -> bool {
    &&& order.len() == hi - lo
    &&& forall|k: int| 0 <= k < order.len() ==> lo <= #[trigger] order[k] < hi
    &&& forall|a: int, b: int|
        0 <= a < b < order.len() ==> listed_before(vals, #[trigger] order[a] as int, #[trigger] order[b] as int)
    &&& forall|p: usize| lo <= p < hi ==> #[trigger] order.contains(p)
}

proof fn lemma_push_contains(s: Seq<usize>, x: usize, p: usize)
    ensures
        s.push(x).contains(p) <==> s.contains(p) || p == x,
{
    let grown = s.push(x);
    if s.contains(p) {
        let k = choose|k: int| 0 <= k < s.len() && s[k] == p;
        assert(grown[k] == p);
    }
    if p == x {
        assert(grown[s.len() as int] == p);
    }
    if grown.contains(p) {
        let k = choose|k: int| 0 <= k < grown.len() && grown[k] == p;
        if k < s.len() {
            assert(s[k] == p);
        }
    }
}

/// Merges the listings of two neighbouring ranges into the listing of both.
fn merge(col: &Vec<CsvAny>, left: &Vec<usize>, right: &Vec<usize>, Ghost(lo): Ghost<int>, Ghost(
    mid,
): Ghost<int>, Ghost(hi): Ghost<int>) -> (out: Vec<usize>)
    requires
        0 <= lo <= mid <= hi <= col.len(),
        lists_range(col.deep_view(), left@, lo, mid),
        lists_range(col.deep_view(), right@, mid, hi),
    ensures
        lists_range(col.deep_view(), out@, lo, hi),
{
    let ghost vals = col.deep_view();
    let mut out: Vec<usize> = Vec::new();
    let mut i: usize = 0;
    let mut j: usize = 0;
    while i < left.len() || j < right.len()
        invariant
            0 <= lo <= mid <= hi <= col.len(),
            vals == col.deep_view(),
            lists_range(vals, left@, lo, mid),
            lists_range(vals, right@, mid, hi),
            i <= left.len(),
            j <= right.len(),
            out.len() == i + j,
            forall|k: int| 0 <= k < out.len() ==> lo <= #[trigger] out[k] < hi,
            forall|a: int, b: int|
                0 <= a < b < out.len() ==> listed_before(
                    vals,
                    #[trigger] out[a] as int,
                    #[trigger] out[b] as int,
                ),
            forall|k: int, a: int|
                0 <= k < out.len() && i <= a < left.len() ==> listed_before(
                    vals,
                    #[trigger] out[k] as int,
                    #[trigger] left[a] as int,
                ),
            forall|k: int, b: int|
                0 <= k < out.len() && j <= b < right.len() ==> listed_before(
                    vals,
                    #[trigger] out[k] as int,
                    #[trigger] right[b] as int,
                ),
            forall|p: usize| out@.contains(p) <==> left@.take(i as int).contains(p) || right@.take(j as int).contains(p),
        decreases left.len() - i + right.len() - j,
    {
        let take_left = if i == left.len() {
            false
        } else if j == right.len() {
            true
        } else {
            !col[right[j]].precedes(&col[left[i]])
        };
        let ghost before = out@;
        if take_left {
            let x = left[i];
            proof {
                assert forall|a: int| i < a < left.len() implies listed_before(
                    vals,
                    x as int,
                    #[trigger] left[a] as int,
                ) by {}
                assert forall|b: int| j <= b < right.len() implies listed_before(
                    vals,
                    x as int,
                    #[trigger] right[b] as int,
                ) by {
                    let y = right[j as int];
                    let z = right[b];
                    lemma_order_total(vals[x as int], vals[y as int]);
                    lemma_order_transitive(vals[x as int], vals[y as int], vals[z as int]);
                }
                assert forall|p: usize| before.push(x).contains(p) <==> left@.take(i + 1).contains(p)
                    || right@.take(j as int).contains(p) by {
                    lemma_push_contains(before, x, p);
                    assert(left@.take(i + 1) == left@.take(i as int).push(x));
                    lemma_push_contains(left@.take(i as int), x, p);
                }
            }
            out.push(x);
            i += 1;
        } else {
            let x = right[j];
            proof {
                assert forall|b: int| j < b < right.len() implies listed_before(
                    vals,
                    x as int,
                    #[trigger] right[b] as int,
                ) by {}
                assert forall|a: int| i <= a < left.len() implies listed_before(
                    vals,
                    x as int,
                    #[trigger] left[a] as int,
                ) by {
                    let y = left[i as int];
                    let z = left[a];
                    lemma_order_transitive(vals[x as int], vals[y as int], vals[z as int]);
                }
                assert forall|p: usize| before.push(x).contains(p) <==> left@.take(i as int).contains(p)
                    || right@.take(j + 1).contains(p) by {
                    lemma_push_contains(before, x, p);
                    assert(right@.take(j + 1) == right@.take(j as int).push(x));
                    lemma_push_contains(right@.take(j as int), x, p);
                }
            }
            out.push(x);
            j += 1;
        }
    }
    proof {
        assert(left@.take(i as int) == left@);
        assert(right@.take(j as int) == right@);
    }
    out
}

/// The positions `lo..hi` of `col` in listing order.
fn sorted_range(col: &Vec<CsvAny>, lo: usize, hi: usize) -> (order: Vec<usize>)
    requires
        lo <= hi <= col.len(),
    ensures
        lists_range(col.deep_view(), order@, lo as int, hi as int),
    decreases hi - lo,
{
    if hi - lo == 0 {
        Vec::new()
    } else if hi - lo == 1 {
        let mut order: Vec<usize> = Vec::new();
        order.push(lo);
        proof {
            assert(order@[0] == lo);
        }
        order
    } else {
        let mid = lo + (hi - lo) / 2;
        let left = sorted_range(col, lo, mid);
        let right = sorted_range(col, mid, hi);
        merge(col, &left, &right, Ghost(lo as int), Ghost(mid as int), Ghost(hi as int))
    }
}

/// The positions of `col` in listing order: its cells by value, and cells
/// of the same value in the order in which they stand in the column.
pub fn sorted_positions(col: &Vec<CsvAny>) -> (order: Vec<usize>)
    ensures
        lists_range(col.deep_view(), order@, 0, col.len() as int),
{
    sorted_range(col, 0, col.len())
}

} // verus!
