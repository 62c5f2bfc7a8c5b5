//! The fastest-varying axis order and the contiguity relation: a stable sort
//! of axis indices by ascending stride magnitude, and the test that the
//! strides enumerate a dense run of addresses in that order.

use vstd::prelude::*;
use crate::dimension::math::{
    abs_i,
    all_positive,
    col_major_strides,
    default_strides_spec,
    fortran_strides_spec,
    is_extents,
    lemma_prod_pos,
    lemma_prod_split,
    prod,
};

verus! {

/// The sort key of axis `i`: the magnitude of its stride.
pub open spec fn stride_key(s: Seq<int>, i: int) -> int {
    abs_i(s[i])
}

/// Insert axis `v` into an ordered list of axes, after every axis whose key
/// is at most the key of `v` (keeping equal keys in first-seen order).
pub open spec fn insert_sorted(ord: Seq<int>, s: Seq<int>, v: int) -> Seq<int>
    decreases ord.len(),
{
    if ord.len() == 0 {
        seq![v]
    } else if stride_key(s, ord[0]) <= stride_key(s, v) {
        seq![ord[0]] + insert_sorted(ord.drop_first(), s, v)
    } else {
        seq![v] + ord
    }
}

/// The stable sort of the axes `0 .. n` by ascending stride magnitude,
/// built by inserting each axis in turn.
pub open spec fn sort_prefix(s: Seq<int>, n: nat) -> Seq<int>
    decreases n,
{
    if n == 0 {
        Seq::empty()
    } else {
        insert_sorted(sort_prefix(s, (n - 1) as nat), s, n - 1)
    }
}

/// The fastest-varying axis order of a stride value: all its axes, stably
/// sorted by ascending stride magnitude.
pub open spec fn fastest_order_spec(s: Seq<int>) -> Seq<int> {
    sort_prefix(s, s.len())
}

/// The product of the extents of the first `k` axes in the given order: the
/// stride magnitude a dense layout would give the `k`-th axis of the order.
pub open spec fn cstride_at(d: Seq<int>, ord: Seq<int>, k: int) -> int
    decreases k,
{
    if k <= 0 {
        1
    } else {
        cstride_at(d, ord, k - 1) * d[ord[k - 1]]
    }
}

/// In the given axis order, every axis of extent other than one steps by
/// exactly the product of the extents of the axes before it.
pub open spec fn order_ok(d: Seq<int>, s: Seq<int>, ord: Seq<int>) -> bool {
    forall|k: int|
        0 <= k < ord.len() ==> (d[#[trigger] ord[k]] == 1 || abs_i(s[ord[k]]) == cstride_at(
            d,
            ord,
            k,
        ))
}

/// A dimension is contiguous under a stride when the stride is exactly the
/// default (row-major) stride, or the single axis of a rank-one value steps
/// by minus one, or traversing the axes by ascending stride magnitude finds
/// each axis of extent other than one stepping by the product of the extents
/// already traversed.
pub open spec fn is_contiguous_spec(d: Seq<int>, s: Seq<int>) -> bool {
    ||| s == default_strides_spec(d)
    ||| (d.len() == 1 && s[0] == -1)
    ||| order_ok(d, s, fastest_order_spec(s))
}

pub proof fn lemma_insert_sorted_len(ord: Seq<int>, s: Seq<int>, v: int)
    ensures
        insert_sorted(ord, s, v).len() == ord.len() + 1,
    decreases ord.len(),
{
    if ord.len() > 0 && stride_key(s, ord[0]) <= stride_key(s, v) {
        lemma_insert_sorted_len(ord.drop_first(), s, v);
    }
}

/// Inserting keeps every entry within a range that covers the old entries
/// and the new one.
pub proof fn lemma_insert_sorted_range(ord: Seq<int>, s: Seq<int>, v: int, m: int)
    requires
        forall|k: int| 0 <= k < ord.len() ==> 0 <= #[trigger] ord[k] < m,
        0 <= v < m,
    ensures
        forall|k: int|
            0 <= k < insert_sorted(ord, s, v).len() ==> 0 <= #[trigger] insert_sorted(ord, s, v)[k]
                < m,
    decreases ord.len(),
{
    let r = insert_sorted(ord, s, v);
    if ord.len() == 0 {
        assert(r =~= seq![v]);
    } else if stride_key(s, ord[0]) <= stride_key(s, v) {
        let t = ord.drop_first();
        assert(forall|k: int| 0 <= k < t.len() ==> 0 <= #[trigger] t[k] < m) by {
            assert(forall|k: int| 0 <= k < t.len() ==> t[k] == #[trigger] ord[k + 1]);
        }
        lemma_insert_sorted_range(t, s, v, m);
        assert forall|k: int| 0 <= k < r.len() implies 0 <= #[trigger] r[k] < m by {
            if k == 0 {
                assert(r[0] == ord[0]);
            } else {
                assert(r[k] == insert_sorted(t, s, v)[k - 1]);
            }
        }
    } else {
        assert forall|k: int| 0 <= k < r.len() implies 0 <= #[trigger] r[k] < m by {
            if k > 0 {
                assert(r[k] == ord[k - 1]);
            }
        }
    }
}

pub proof fn lemma_sort_prefix_len(s: Seq<int>, n: nat)
    ensures
        sort_prefix(s, n).len() == n,
    decreases n,
{
    if n > 0 {
        lemma_sort_prefix_len(s, (n - 1) as nat);
        lemma_insert_sorted_len(sort_prefix(s, (n - 1) as nat), s, n - 1);
    }
}

pub proof fn lemma_sort_prefix_range(s: Seq<int>, n: nat)
    ensures
        forall|k: int|
            0 <= k < sort_prefix(s, n).len() ==> 0 <= #[trigger] sort_prefix(s, n)[k] < n,
    decreases n,
{
    if n > 0 {
        let prev = sort_prefix(s, (n - 1) as nat);
        lemma_sort_prefix_range(s, (n - 1) as nat);
        assert(forall|k: int| 0 <= k < prev.len() ==> 0 <= #[trigger] prev[k] < n);
        lemma_insert_sorted_range(prev, s, n - 1, n as int);
    }
}

/// Inserting at the first position whose key exceeds the new key is the same
/// as the recursive insertion.
pub proof fn lemma_insert_sorted_at(ord: Seq<int>, s: Seq<int>, v: int, j: int)
    requires
        0 <= j <= ord.len(),
        forall|k: int| 0 <= k < j ==> stride_key(s, #[trigger] ord[k]) <= stride_key(s, v),
        j < ord.len() ==> stride_key(s, ord[j]) > stride_key(s, v),
    ensures
        insert_sorted(ord, s, v) =~= ord.insert(j, v),
    decreases ord.len(),
{
    if ord.len() == 0 {
    } else if j == 0 {
        assert(stride_key(s, ord[0]) > stride_key(s, v));
    } else {
        let t = ord.drop_first();
        assert(stride_key(s, ord[0]) <= stride_key(s, v));
        assert forall|k: int| 0 <= k < j - 1 implies stride_key(s, #[trigger] t[k]) <= stride_key(
            s,
            v,
        ) by {
            assert(t[k] == ord[k + 1]);
        }
        if j - 1 < t.len() {
            assert(t[j - 1] == ord[j]);
        }
        lemma_insert_sorted_at(t, s, v, j - 1);
        assert(insert_sorted(ord, s, v) =~= seq![ord[0]] + t.insert(j - 1, v));
        assert(seq![ord[0]] + t.insert(j - 1, v) =~= ord.insert(j, v));
    }
}

/// Inserting an axis whose key is at least every present key appends it.
pub proof fn lemma_insert_sorted_append(ord: Seq<int>, s: Seq<int>, v: int)
    requires
        forall|k: int| 0 <= k < ord.len() ==> stride_key(s, #[trigger] ord[k]) <= stride_key(s, v),
    ensures
        insert_sorted(ord, s, v) =~= ord.push(v),
{
    lemma_insert_sorted_at(ord, s, v, ord.len() as int);
    assert(ord.insert(ord.len() as int, v) =~= ord.push(v));
}

/// When stride magnitudes do not decrease from axis to axis, the stable sort
/// leaves the axes in their own order.
pub proof fn lemma_sort_identity(s: Seq<int>, n: nat)
    requires
        n <= s.len(),
        forall|i: int, j: int|
            0 <= i <= j < n ==> stride_key(s, i) <= stride_key(s, j),
    ensures
        sort_prefix(s, n) =~= Seq::new(n, |i: int| i),
    decreases n,
{
    if n > 0 {
        lemma_sort_identity(s, (n - 1) as nat);
        let prev = sort_prefix(s, (n - 1) as nat);
        assert forall|k: int| 0 <= k < prev.len() implies stride_key(s, #[trigger] prev[k])
            <= stride_key(s, n - 1) by {
            assert(prev[k] == k);
        }
        lemma_insert_sorted_append(prev, s, n - 1);
        assert(prev.push(n - 1) =~= Seq::new(n, |i: int| i));
    }
}

/// Every dimension is contiguous under its own default strides.
pub proof fn lemma_default_strides_contiguous(d: Seq<int>)
    ensures
        is_contiguous_spec(d, default_strides_spec(d)),
{
}

/// Every dimension is contiguous under its own column-major strides.
pub proof fn lemma_fortran_strides_contiguous(d: Seq<int>)
    requires
        is_extents(d),
    ensures
        is_contiguous_spec(d, fortran_strides_spec(d)),
{
    let s = fortran_strides_spec(d);
    let n = d.len() as int;
    if !all_positive(d) {
        assert(s == default_strides_spec(d));
    } else {
        assert(s == col_major_strides(d));
        assert forall|i: int, j: int| 0 <= i <= j < n implies stride_key(s, i) <= stride_key(
            s,
            j,
        ) by {
            lemma_prefix_prod_monotone(d, i, j);
            assert(s[i] == prod(d.subrange(0, i)));
            assert(s[j] == prod(d.subrange(0, j)));
        }
        lemma_sort_identity(s, s.len());
        let ident = Seq::new(d.len(), |i: int| i);
        assert(fastest_order_spec(s) =~= ident);
        assert forall|k: int| 0 <= k < ident.len() implies (d[#[trigger] ident[k]] == 1 || abs_i(
            s[ident[k]],
        ) == cstride_at(d, ident, k)) by {
            lemma_cstride_identity(d, k);
            assert(ident[k] == k);
            assert(s[k] == prod(d.subrange(0, k)));
            assert(all_positive(d.subrange(0, k)));
            lemma_prod_pos(d.subrange(0, k));
        }
        assert(order_ok(d, s, fastest_order_spec(s)));
    }
}

/// With all extents positive, prefix products of extents do not decrease,
/// and every prefix product is positive.
pub proof fn lemma_prefix_prod_monotone(d: Seq<int>, i: int, j: int)
    requires
        all_positive(d),
        0 <= i <= j <= d.len(),
    ensures
        1 <= prod(d.subrange(0, i)) <= prod(d.subrange(0, j)),
{
    let f = d.subrange(0, j);
    assert(all_positive(f));
    lemma_prod_split(f, i);
    assert(f.subrange(0, i) =~= d.subrange(0, i));
    let a = prod(d.subrange(0, i));
    let b = prod(f.subrange(i, j));
    assert(all_positive(d.subrange(0, i)));
    assert(all_positive(f.subrange(i, j)));
    lemma_prod_pos(d.subrange(0, i));
    lemma_prod_pos(f.subrange(i, j));
    assert(a <= a * b) by (nonlinear_arith)
        requires a >= 1 && b >= 1;
}

/// Along the identity order the cumulative extent product is the prefix
/// product.
pub proof fn lemma_cstride_identity(d: Seq<int>, k: int)
    requires
        0 <= k <= d.len(),
    ensures
        cstride_at(d, Seq::new(d.len(), |i: int| i), k) == prod(d.subrange(0, k)),
    decreases k,
{
    let ident = Seq::new(d.len(), |i: int| i);
    if k == 0 {
        assert(d.subrange(0, 0) =~= Seq::<int>::empty());
    } else {
        lemma_cstride_identity(d, k - 1);
        crate::dimension::math::lemma_prod_drop_last(d.subrange(0, k));
        assert(d.subrange(0, k).drop_last() =~= d.subrange(0, k - 1));
        assert(d.subrange(0, k).last() == d[k - 1]);
        assert(ident[k - 1] == k - 1);
    }
}

} // verus!
