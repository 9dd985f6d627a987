//! From the positions of a column in listing order to the positions at which
//! each of its distinct values occurs first.

use crate::csv_type::{lemma_order_total, lemma_order_transitive, CsvAny, CsvValue};
use crate::sorting::{listed_before, lists_range, sorted_positions};
use itertools::Itertools;
use vstd::prelude::*;

verus! {

/// Whether no cell before position `at` holds the value of the cell at `at`.
pub open spec fn first_of_its_value(vals: Seq<CsvValue>, at: int) -> bool {
    forall|j: int| 0 <= j < at ==> !(#[trigger] vals[j]).same_as(vals[at])
}

/// Whether the value of the cell at position `i` is the value of one of the
/// cells at `heads`.
pub open spec fn is_listed(vals: Seq<CsvValue>, heads: Seq<usize>, i: int) -> bool {
    exists|k: int| 0 <= k < heads.len() && vals[i].same_as(vals[#[trigger] heads[k] as int])
}

/// Whether the values at `heads` rise strictly in the listing order.
pub open spec fn rises(vals: Seq<CsvValue>, heads: Seq<usize>) -> bool {
    forall|a: int, b: int|
        0 <= a < b < heads.len() ==> vals[#[trigger] heads[a] as int].below(
            vals[#[trigger] heads[b] as int],
        )
}

/// Whether `heads` lists the distinct values of `vals`: for every value of
/// the column the position at which it occurs first, the positions in the
/// listing order of their values.
pub open spec fn lists_distinct_values(vals: Seq<CsvValue>, heads: Seq<usize>) -> bool {
    &&& forall|k: int| 0 <= k < heads.len() ==> #[trigger] heads[k] < vals.len()
    &&& forall|k: int| 0 <= k < heads.len() ==> first_of_its_value(vals, #[trigger] heads[k] as int)
    &&& rises(vals, heads)
    &&& forall|i: int| 0 <= i < vals.len() ==> #[trigger] is_listed(vals, heads, i)
}

/// What is left of `order` when every position is dropped whose cell holds
/// the same value as the cell of the position kept last.
pub open spec fn run_heads(vals: Seq<CsvValue>, order: Seq<usize>) -> Seq<usize>
    decreases order.len(),
{
    if order.len() == 0 {
        Seq::empty()
    } else {
        let kept = run_heads(vals, order.drop_last());
        if kept.len() > 0 && vals[kept.last() as int].same_as(vals[order.last() as int]) {
            kept
        } else {
            kept.push(order.last())
        }
    }
}

/// Whether `order` lists every position of `vals` once, in listing order.
#[verifier::opaque]
spec fn is_listing(vals: Seq<CsvValue>, order: Seq<usize>) -> bool {
    &&& vals.len() <= usize::MAX
    &&& lists_range(vals, order, 0, vals.len() as int)
}

proof fn lemma_listing_in_order(vals: Seq<CsvValue>, order: Seq<usize>, a: int, b: int)
    requires
        is_listing(vals, order),
        0 <= a < b < order.len(),
    ensures
        order[a] < vals.len(),
        order[b] < vals.len(),
        listed_before(vals, order[a] as int, order[b] as int),
{
    reveal(is_listing);
}

proof fn lemma_listing_covers(vals: Seq<CsvValue>, order: Seq<usize>, i: int) -> (q: int)
    requires
        is_listing(vals, order),
        0 <= i < vals.len(),
    ensures
        0 <= q < order.len(),
        order[q] == i,
{
    reveal(is_listing);
    assert(order.contains(i as usize));
    choose|q: int| 0 <= q < order.len() && order[q] == i as usize
}

proof fn lemma_listing_bounds(vals: Seq<CsvValue>, order: Seq<usize>, a: int)
    requires
        is_listing(vals, order),
        0 <= a < order.len(),
    ensures
        order[a] < vals.len(),
        order.len() == vals.len(),
{
    reveal(is_listing);
}

/// What holds of the heads of the first `m` positions of a listing.
spec fn heads_of_prefix(vals: Seq<CsvValue>, order: Seq<usize>, m: int, heads: Seq<usize>) -> bool {
    &&& forall|k: int| 0 <= k < heads.len() ==> order.take(m).contains(#[trigger] heads[k])
    &&& forall|k: int| 0 <= k < heads.len() ==> first_of_its_value(vals, #[trigger] heads[k] as int)
    &&& rises(vals, heads)
    &&& m > 0 ==> heads.len() > 0 && vals[heads.last() as int].same_as(vals[order[m - 1] as int])
    &&& forall|a: int| 0 <= a < m ==> is_listed(vals, heads, #[trigger] order[a] as int)
}

/// Every head of the first `m` positions is listed before the position
/// `order[m]`, or holds the same value.
proof fn lemma_head_not_after(vals: Seq<CsvValue>, order: Seq<usize>, m: int, heads: Seq<usize>, k: int)
    requires
        is_listing(vals, order),
        0 < m < order.len(),
        forall|k: int| 0 <= k < heads.len() ==> order.take(m).contains(#[trigger] heads[k]),
        0 <= k < heads.len(),
    ensures
        vals[heads[k] as int].below(vals[order[m] as int]) || vals[heads[k] as int].same_as(
            vals[order[m] as int],
        ),
{
    let seen = order.take(m);
    assert(seen.contains(heads[k]));
    let a = choose|a: int| 0 <= a < seen.len() && seen[a] == heads[k];
    assert(order[a] == heads[k]);
    lemma_listing_in_order(vals, order, a, m);
}

/// A head whose cell holds the value of the cell at `order[m]` makes the
/// last head hold that value too.
proof fn lemma_last_head_holds(vals: Seq<CsvValue>, order: Seq<usize>, m: int, heads: Seq<usize>, k: int)
    requires
        is_listing(vals, order),
        0 < m < order.len(),
        rises(vals, heads),
        heads.len() > 0,
        vals[heads.last() as int].same_as(vals[order[m - 1] as int]),
        0 <= k < heads.len(),
        vals[heads[k] as int].same_as(vals[order[m] as int]),
    ensures
        vals[heads.last() as int].same_as(vals[order[m] as int]),
{
    let x = vals[order[m] as int];
    let head = vals[heads[k] as int];
    let last = vals[heads.last() as int];
    let prev = vals[order[m - 1] as int];
    lemma_listing_in_order(vals, order, m - 1, m);
    lemma_order_total(prev, x);
    lemma_order_total(head, last);
    lemma_order_total(last, x);
    lemma_order_total(head, x);
    lemma_order_transitive(last, prev, x);
    lemma_order_transitive(head, last, x);
    lemma_order_transitive(head, x, last);
    if k < heads.len() - 1 {
        assert(vals[heads[k] as int].below(vals[heads[heads.len() - 1] as int]));
    }
}

/// Where the last head does not hold the value of the cell at `order[m]`,
/// no earlier cell of the column holds it.
proof fn lemma_new_value_is_first(vals: Seq<CsvValue>, order: Seq<usize>, m: int, heads: Seq<usize>, j: int)
    requires
        is_listing(vals, order),
        0 < m < order.len(),
        heads_of_prefix(vals, order, m, heads),
        !vals[heads.last() as int].same_as(vals[order[m] as int]),
        0 <= j < order[m],
    ensures
        !vals[j].same_as(vals[order[m] as int]),
{
    let x = order[m];
    lemma_listing_bounds(vals, order, m);
    if vals[j].same_as(vals[x as int]) {
        let q = lemma_listing_covers(vals, order, j);
        lemma_order_total(vals[j], vals[x as int]);
        if q > m {
            lemma_listing_in_order(vals, order, m, q);
        } else {
            assert(is_listed(vals, heads, order[q] as int));
            let k = choose|k: int|
                0 <= k < heads.len() && vals[j].same_as(vals[#[trigger] heads[k] as int]);
            lemma_order_total(vals[j], vals[heads[k] as int]);
            lemma_order_transitive(vals[heads[k] as int], vals[j], vals[x as int]);
            lemma_last_head_holds(vals, order, m, heads, k);
        }
    }
}

proof fn lemma_heads_step_keep(vals: Seq<CsvValue>, order: Seq<usize>, m: int, heads: Seq<usize>)
    requires
        is_listing(vals, order),
        0 < m < order.len(),
        heads_of_prefix(vals, order, m, heads),
        vals[heads.last() as int].same_as(vals[order[m] as int]),
    ensures
        heads_of_prefix(vals, order, m + 1, heads),
{
    let seen = order.take(m);
    let more = order.take(m + 1);
    assert forall|k: int| 0 <= k < heads.len() implies more.contains(#[trigger] heads[k]) by {
        let a = choose|a: int| 0 <= a < seen.len() && seen[a] == heads[k];
        assert(more[a] == heads[k]);
    }
    assert forall|a: int| 0 <= a < m + 1 implies is_listed(vals, heads, #[trigger] order[a] as int) by {
        if a == m {
            lemma_order_total(vals[order[m] as int], vals[heads.last() as int]);
            assert(vals[order[m] as int].same_as(vals[heads[heads.len() - 1] as int]));
        }
    }
}

proof fn lemma_heads_step_push(vals: Seq<CsvValue>, order: Seq<usize>, m: int, kept: Seq<usize>)
    requires
        is_listing(vals, order),
        0 <= m < order.len(),
        heads_of_prefix(vals, order, m, kept),
        m > 0 ==> !vals[kept.last() as int].same_as(vals[order[m] as int]),
        m == 0 ==> kept.len() == 0,
    ensures
        heads_of_prefix(vals, order, m + 1, kept.push(order[m])),
{
    let x = order[m];
    let heads = kept.push(x);
    let seen = order.take(m);
    let more = order.take(m + 1);
    lemma_listing_bounds(vals, order, m);
    lemma_order_total(vals[x as int], vals[x as int]);
    assert(more[m] == x);
    assert forall|k: int| 0 <= k < heads.len() implies more.contains(#[trigger] heads[k]) by {
        if k < kept.len() {
            let a = choose|a: int| 0 <= a < seen.len() && seen[a] == kept[k];
            assert(more[a] == heads[k]);
        }
    }
    assert forall|k: int| 0 <= k < heads.len() implies first_of_its_value(
        vals,
        #[trigger] heads[k] as int,
    ) by {
        if k < kept.len() {
            assert(heads[k] == kept[k]);
        } else {
            assert forall|j: int| 0 <= j < x implies !(#[trigger] vals[j]).same_as(vals[x as int]) by {
                if m > 0 {
                    lemma_new_value_is_first(vals, order, m, kept, j);
                } else {
                    if vals[j].same_as(vals[x as int]) {
                        let q = lemma_listing_covers(vals, order, j);
                        lemma_order_total(vals[j], vals[x as int]);
                        lemma_listing_in_order(vals, order, 0, q);
                    }
                }
            }
        }
    }
    assert(rises(vals, heads)) by {
        assert forall|a: int, b: int| 0 <= a < b < heads.len() implies vals[#[trigger] heads[a] as int].below(
            vals[#[trigger] heads[b] as int],
        ) by {
            assert(heads[a] == kept[a]);
            if b < kept.len() {
                assert(heads[b] == kept[b]);
            } else {
                lemma_head_not_after(vals, order, m, kept, a);
                if vals[kept[a] as int].same_as(vals[x as int]) {
                    lemma_last_head_holds(vals, order, m, kept, a);
                }
            }
        }
    }
    assert(heads.last() == x);
    assert forall|a: int| 0 <= a < m + 1 implies is_listed(vals, heads, #[trigger] order[a] as int) by {
        if a == m {
            assert(heads[heads.len() - 1] == x);
        } else {
            assert(is_listed(vals, kept, order[a] as int));
            let k = choose|k: int|
                0 <= k < kept.len() && vals[order[a] as int].same_as(vals[#[trigger] kept[k] as int]);
            assert(heads[k] == kept[k]);
        }
    }
}

proof fn lemma_run_heads_prefix(vals: Seq<CsvValue>, order: Seq<usize>, m: int)
    requires
        is_listing(vals, order),
        0 <= m <= order.len(),
    ensures
        heads_of_prefix(vals, order, m, run_heads(vals, order.take(m))),
    decreases m,
{
    if m == 0 {
        assert(order.take(0).len() == 0);
    } else {
        let seen = order.take(m - 1);
        assert(order.take(m).drop_last() == seen);
        assert(order.take(m).last() == order[m - 1]);
        let kept = run_heads(vals, seen);
        lemma_run_heads_prefix(vals, order, m - 1);
        if kept.len() > 0 && vals[kept.last() as int].same_as(vals[order[m - 1] as int]) {
            lemma_heads_step_keep(vals, order, m - 1, kept);
        } else {
            lemma_heads_step_push(vals, order, m - 1, kept);
        }
    }
}

/// Dropping the repeated values from a listing of the whole column leaves
/// the listing of its distinct values.
pub proof fn lemma_run_heads_list_distinct_values(vals: Seq<CsvValue>, order: Seq<usize>)
    requires
        vals.len() <= usize::MAX,
        lists_range(vals, order, 0, vals.len() as int),
    ensures
        lists_distinct_values(vals, run_heads(vals, order)),
{
    let heads = run_heads(vals, order);
    assert(is_listing(vals, order)) by {
        reveal(is_listing);
    }
    lemma_run_heads_prefix(vals, order, order.len() as int);
    assert(order.take(order.len() as int) == order);
    assert forall|k: int| 0 <= k < heads.len() implies #[trigger] heads[k] < vals.len() by {
        let a = choose|a: int| 0 <= a < order.len() && order[a] == heads[k];
        lemma_listing_bounds(vals, order, a);
    }
    assert forall|i: int| 0 <= i < vals.len() implies #[trigger] is_listed(vals, heads, i) by {
        let a = lemma_listing_covers(vals, order, i);
        assert(is_listed(vals, heads, order[a] as int));
    }
}

/// Two cells that are the first of the same value are the same cell.
proof fn lemma_first_is_unique(vals: Seq<CsvValue>, p: int, q: int)
    requires
        0 <= p < vals.len(),
        0 <= q < vals.len(),
        first_of_its_value(vals, p),
        first_of_its_value(vals, q),
        vals[p].same_as(vals[q]),
    ensures
        p == q,
{
    lemma_order_total(vals[p], vals[q]);
    if p < q {
        assert(!vals[p].same_as(vals[q]));
    }
    if q < p {
        assert(!vals[q].same_as(vals[p]));
    }
}

/// The position in `to` that lists the value at position `k` of `from`.
proof fn lemma_listed_in_other(vals: Seq<CsvValue>, from: Seq<usize>, to: Seq<usize>, k: int) -> (at: int)
    requires
        lists_distinct_values(vals, from),
        lists_distinct_values(vals, to),
        0 <= k < from.len(),
    ensures
        0 <= at < to.len(),
        to[at] == from[k],
{
    assert(from[k] < vals.len());
    assert(is_listed(vals, to, from[k] as int));
    let at = choose|at: int|
        0 <= at < to.len() && vals[from[k] as int].same_as(vals[#[trigger] to[at] as int]);
    assert(to[at] < vals.len());
    assert(first_of_its_value(vals, from[k] as int));
    assert(first_of_its_value(vals, to[at] as int));
    lemma_first_is_unique(vals, from[k] as int, to[at] as int);
    at
}

proof fn lemma_listings_agree_at(vals: Seq<CsvValue>, a: Seq<usize>, b: Seq<usize>, k: int)
    requires
        lists_distinct_values(vals, a),
        lists_distinct_values(vals, b),
        0 <= k < a.len(),
    ensures
        k < b.len(),
        a[k] == b[k],
    decreases k,
{
    let at = lemma_listed_in_other(vals, a, b, k);
    assert(a[k] < vals.len());
    lemma_order_total(vals[a[k] as int], vals[a[k] as int]);
    if at < k {
        lemma_listings_agree_at(vals, a, b, at);
        assert(vals[a[at] as int].below(vals[a[k] as int]));
    } else if at > k {
        let back = lemma_listed_in_other(vals, b, a, k);
        assert(b[k] < vals.len());
        lemma_order_total(vals[b[k] as int], vals[b[k] as int]);
        assert(vals[b[k] as int].below(vals[b[at] as int]));
        if back < k {
            lemma_listings_agree_at(vals, a, b, back);
        } else if back > k {
            assert(vals[a[k] as int].below(vals[a[back] as int]));
            lemma_order_total(vals[a[k] as int], vals[b[k] as int]);
        }
    }
}

/// A column has one listing of its distinct values and no other.
pub proof fn lemma_distinct_listing_is_unique(vals: Seq<CsvValue>, a: Seq<usize>, b: Seq<usize>)
    requires
        lists_distinct_values(vals, a),
        lists_distinct_values(vals, b),
    ensures
        a == b,
{
    assert forall|k: int| 0 <= k < a.len() implies k < b.len() && #[trigger] a[k] == b[k] by {
        lemma_listings_agree_at(vals, a, b, k);
    }
    if a.len() > 0 {
        lemma_listings_agree_at(vals, a, b, a.len() - 1);
    }
    if b.len() > 0 {
        lemma_listings_agree_at(vals, b, a, b.len() - 1);
    }
    assert(a =~= b);
}

/// No two positions of a listing hold the same value.
pub proof fn lemma_distinct_listing_has_no_repeat(vals: Seq<CsvValue>, heads: Seq<usize>, a: int, b: int)
    requires
        lists_distinct_values(vals, heads),
        0 <= a < heads.len(),
        0 <= b < heads.len(),
        a != b,
    ensures
        !vals[heads[a] as int].same_as(vals[heads[b] as int]),
{
    lemma_order_total(vals[heads[a] as int], vals[heads[b] as int]);
    if a < b {
        assert(vals[heads[a] as int].below(vals[heads[b] as int]));
    } else {
        assert(vals[heads[b] as int].below(vals[heads[a] as int]));
    }
}

/// Whether the cells at positions `i` and `j` of `col` hold the same value.
pub fn same_cell(col: &Vec<CsvAny>, i: usize, j: usize) -> (r: bool)
    requires
        i < col.len(),
        j < col.len(),
    ensures
        r == col.deep_view()[i as int].same_as(col.deep_view()[j as int]),
{
    col[i] == col[j]
}

/// `Itertools::dedup_by` on the positions `order`, two positions taken for
/// duplicates where `same_cell` says so. The adaptor hands on the first
/// position and then every position that is no duplicate of the one it
/// handed on last, which is what `run_heads` states.
#[verifier::external_body]
fn dedup_positions(col: &Vec<CsvAny>, order: Vec<usize>) -> (heads: Vec<usize>)
    requires
        forall|k: int| 0 <= k < order.len() ==> #[trigger] order[k] < col.len(),
    ensures
        heads@ == run_heads(col.deep_view(), order@),
{
    order.into_iter().dedup_by(|a, b| same_cell(col, *a, *b)).collect()
}

/// The positions at which the distinct values of `col` occur first, in the
/// listing order of the values.
pub fn distinct_positions(col: &Vec<CsvAny>) -> (heads: Vec<usize>)
    ensures
        lists_distinct_values(col.deep_view(), heads@),
{
    let order = sorted_positions(col);
    proof {
        lemma_run_heads_list_distinct_values(col.deep_view(), order@);
    }
    dedup_positions(col, order)
}

} // verus!
