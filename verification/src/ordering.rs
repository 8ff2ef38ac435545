//! The orders in which the store lists items and classifications, and an
//! insertion sort that produces them.

use vstd::prelude::*;
use crate::models::{Classification, ClassificationView, Item, ItemView, classification_views, item_views};
use crate::text::{chars_le, lemma_seq_le_total, lemma_seq_le_trans, seq_le, str_chars};

verus! {

broadcast use {vstd::seq_lib::to_multiset_build, vstd::seq_lib::to_multiset_insert};

/// The orders items are listed in.
#[derive(Clone, Copy, Debug, PartialEq, Eq)]
pub enum ItemOrder {
    /// By the `order` column, ascending.
    ByOrder,
    /// By name, ascending (binary collation).
    ByName,
    /// By open count, descending.
    ByOpenNumber,
    /// By last open time, descending.
    ByLastOpen,
    /// By open count descending, then by name ascending.
    ByOpenNumberThenName,
}

/// `a` may stand before `b` in the order `k`.
pub open spec fn item_le(k: ItemOrder, a: ItemView, b: ItemView) -> bool {
    match k {
        ItemOrder::ByOrder => a.order <= b.order,
        ItemOrder::ByName => seq_le(a.name, b.name),
        ItemOrder::ByOpenNumber => a.data.open_number >= b.data.open_number,
        ItemOrder::ByLastOpen => a.data.last_open >= b.data.last_open,
        ItemOrder::ByOpenNumberThenName => a.data.open_number > b.data.open_number || (
        a.data.open_number == b.data.open_number && seq_le(a.name, b.name)),
    }
}

/// `s` is sorted in the order `k`.
pub open spec fn items_sorted(k: ItemOrder, s: Seq<ItemView>) -> bool {
    forall|i: int, j: int| 0 <= i < j < s.len() ==> item_le(k, #[trigger] s[i], #[trigger] s[j])
}

/// `r` lists exactly the items of `s` (with multiplicity), sorted in the order `k`.
pub open spec fn is_sorted_listing(k: ItemOrder, r: Seq<ItemView>, s: Seq<ItemView>) -> bool {
    &&& items_sorted(k, r)
    &&& r.to_multiset() == s.to_multiset()
}

pub proof fn lemma_item_le_total(k: ItemOrder, a: ItemView, b: ItemView)
    ensures
        item_le(k, a, b) || item_le(k, b, a),
{
    lemma_seq_le_total(a.name, b.name);
}

pub proof fn lemma_item_le_trans(k: ItemOrder, a: ItemView, b: ItemView, c: ItemView)
    requires
        item_le(k, a, b),
        item_le(k, b, c),
    ensures
        item_le(k, a, c),
{
    match k {
        ItemOrder::ByName => lemma_seq_le_trans(a.name, b.name, c.name),
        ItemOrder::ByOpenNumberThenName => {
            if a.data.open_number == b.data.open_number && b.data.open_number
                == c.data.open_number {
                lemma_seq_le_trans(a.name, b.name, c.name);
            }
        },
        _ => {},
    }
}

/// Decides `item_le(k, a@, b@)`.
pub fn item_le_exec(k: ItemOrder, a: &Item, b: &Item) -> (r: bool)
    ensures
        r == item_le(k, a@, b@),
{
    match k {
        ItemOrder::ByOrder => a.order <= b.order,
        ItemOrder::ByName => chars_le(&str_chars(a.name.as_str()), &str_chars(b.name.as_str())),
        ItemOrder::ByOpenNumber => a.data.open_number >= b.data.open_number,
        ItemOrder::ByLastOpen => a.data.last_open >= b.data.last_open,
        ItemOrder::ByOpenNumberThenName => {
            if a.data.open_number != b.data.open_number {
                a.data.open_number > b.data.open_number
            } else {
                chars_le(&str_chars(a.name.as_str()), &str_chars(b.name.as_str()))
            }
        },
    }
}

proof fn lemma_views_insert(s: Seq<Item>, p: int, x: Item)
    requires
        0 <= p <= s.len(),
    ensures
        item_views(s.insert(p, x)) == item_views(s).insert(p, x@),
{
    assert(item_views(s.insert(p, x)) =~= item_views(s).insert(p, x@));
}

/// Sorts `v` in the order `k` (insertion sort).
pub fn sort_items(v: &Vec<Item>, k: ItemOrder) -> (r: Vec<Item>)
    ensures
        is_sorted_listing(k, item_views(r@), item_views(v@)),
{
    let mut out: Vec<Item> = Vec::new();
    let n = v.len();
    assert(item_views(out@) =~= item_views(v@.take(0)));
    for i in 0..n
        invariant
            n == v@.len(),
            items_sorted(k, item_views(out@)),
            item_views(out@).to_multiset() == item_views(v@.take(i as int)).to_multiset(),
    {
        let x = v[i].clone();
        let mut p: usize = 0;
        while p < out.len() && item_le_exec(k, &out[p], &x)
            invariant
                0 <= p <= out@.len(),
                forall|j: int| 0 <= j < p ==> item_le(k, #[trigger] item_views(out@)[j], x@),
            decreases out@.len() - p,
        {
            p = p + 1;
        }
        let ghost old_out = out@;
        proof {
            let ov = item_views(old_out);
            let nv = ov.insert(p as int, x@);
            assert forall|a: int, b: int| 0 <= a < b < nv.len() implies item_le(
                k,
                #[trigger] nv[a],
                #[trigger] nv[b],
            ) by {
                if b < p {
                    assert(nv[a] == ov[a] && nv[b] == ov[b]);
                } else if b == p {
                    assert(nv[a] == ov[a] && nv[b] == x@);
                } else if a == p {
                    assert(nv[b] == ov[b - 1]);
                    lemma_item_le_total(k, ov[p as int], x@);
                    if b - 1 > p {
                        lemma_item_le_trans(k, x@, ov[p as int], ov[b - 1]);
                    }
                } else if a < p {
                    assert(nv[a] == ov[a] && nv[b] == ov[b - 1]);
                } else {
                    assert(nv[a] == ov[a - 1] && nv[b] == ov[b - 1]);
                }
            }
            lemma_views_insert(old_out, p as int, x);
            assert(v@.take(i + 1) =~= v@.take(i as int).push(v@[i as int]));
            assert(item_views(v@.take(i + 1)) =~= item_views(v@.take(i as int)).push(x@));
        }
        out.insert(p, x);
    }
    assert(v@.take(n as int) =~= v@);
    out
}

/// `s` is sorted by the `order` column, ascending.
pub open spec fn classifications_sorted(s: Seq<ClassificationView>) -> bool {
    forall|i: int, j: int| 0 <= i < j < s.len() ==> (#[trigger] s[i]).order <= (#[trigger] s[j]).order
}

/// `r` lists exactly the classifications of `s` (with multiplicity), sorted by `order`.
pub open spec fn is_sorted_classification_listing(
    r: Seq<ClassificationView>,
    s: Seq<ClassificationView>,
) -> bool {
    &&& classifications_sorted(r)
    &&& r.to_multiset() == s.to_multiset()
}

/// Row copies (no children) of the classifications in `v`, sorted by
/// `order`; rows with equal `order` keep their relative order.
pub fn sort_classifications(v: &Vec<Classification>) -> (r: Vec<Classification>)
    ensures
        is_sorted_classification_listing(classification_views(r@), classification_views(v@)),
        forall|i: int| 0 <= i < r@.len() ==> (#[trigger] r@[i]).child_list@.len() == 0,
{
    let mut out: Vec<Classification> = Vec::new();
    let n = v.len();
    assert(classification_views(out@) =~= classification_views(v@.take(0)));
    for i in 0..n
        invariant
            n == v@.len(),
            classifications_sorted(classification_views(out@)),
            classification_views(out@).to_multiset() == classification_views(
                v@.take(i as int),
            ).to_multiset(),
            forall|j: int| 0 <= j < out@.len() ==> (#[trigger] out@[j]).child_list@.len() == 0,
    {
        let x = v[i].row_copy();
        let mut p: usize = 0;
        while p < out.len() && out[p].order <= x.order
            invariant
                0 <= p <= out@.len(),
                forall|j: int| 0 <= j < p ==> (#[trigger] out@[j]).order <= x.order,
            decreases out@.len() - p,
        {
            p = p + 1;
        }
        let ghost old_out = out@;
        proof {
            let ov = classification_views(old_out);
            let nv = ov.insert(p as int, x@);
            assert forall|a: int, b: int| 0 <= a < b < nv.len() implies (#[trigger] nv[a]).order
                <= (#[trigger] nv[b]).order by {
                if b < p {
                    assert(nv[a] == ov[a] && nv[b] == ov[b]);
                } else if b == p {
                    assert(nv[a] == ov[a] && nv[b] == x@);
                    assert(old_out[a].order <= x.order);
                } else if a == p {
                    assert(nv[b] == ov[b - 1]);
                    assert(ov[p as int] == old_out[p as int]@);
                } else if a < p {
                    assert(nv[a] == ov[a] && nv[b] == ov[b - 1]);
                } else {
                    assert(nv[a] == ov[a - 1] && nv[b] == ov[b - 1]);
                }
            }
            assert(classification_views(old_out.insert(p as int, x)) =~= nv);
            assert(v@.take(i + 1) =~= v@.take(i as int).push(v@[i as int]));
            assert(classification_views(v@.take(i + 1)) =~= classification_views(
                v@.take(i as int),
            ).push(x@));
        }
        out.insert(p, x);
    }
    assert(v@.take(n as int) =~= v@);
    out
}

/// One more element of `s` considered by `filter`.
pub proof fn lemma_filter_take_step<A>(s: Seq<A>, p: spec_fn(A) -> bool, i: int)
    requires
        0 <= i < s.len(),
    ensures
        s.take(i + 1).filter(p) == (if p(s[i]) {
            s.take(i).filter(p).push(s[i])
        } else {
            s.take(i).filter(p)
        }),
{
    reveal(Seq::filter);
    assert(s.take(i + 1).drop_last() =~= s.take(i));
}

} // verus!
