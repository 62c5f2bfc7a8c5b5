//! The mathematical model of shapes and strides: extents and strides as
//! sequences of integers, products, the row-major and column-major stride
//! formulas, the low-address offset, and the contiguity relation.

use vstd::prelude::*;

verus! {

/// A dimension or stride value as a sequence of mathematical integers.
pub open spec fn sv(s: Seq<isize>) -> Seq<int> {
    Seq::new(s.len(), |i: int| s[i] as int)
}

/// Every entry is a legal extent (non-negative).
pub open spec fn is_extents(d: Seq<int>) -> bool {
    forall|i: int| 0 <= i < d.len() ==> d[i] >= 0
}

/// Every extent is at least one.
pub open spec fn all_positive(d: Seq<int>) -> bool {
    forall|i: int| 0 <= i < d.len() ==> d[i] >= 1
}

/// Product of all entries.
pub open spec fn prod(d: Seq<int>) -> int
    decreases d.len(),
{
    if d.len() == 0 {
        1
    } else {
        d[0] * prod(d.drop_first())
    }
}

/// Product of the non-zero entries.
pub open spec fn prod_nz(d: Seq<int>) -> int
    decreases d.len(),
{
    if d.len() == 0 {
        1
    } else {
        (if d[0] == 0 {
            1
        } else {
            d[0]
        }) * prod_nz(d.drop_first())
    }
}

/// A dimension value whose extents the machine can address: non-negative,
/// and with the product of the non-zero extents small enough that every
/// partial product of extents fits in a signed machine word.
pub open spec fn dims_ok(d: Seq<int>) -> bool {
    &&& is_extents(d)
    &&& prod_nz(d) <= isize::MAX as int
}

/// The row-major strides of a dimension with all extents positive:
/// each axis steps by the product of the extents to its right.
pub open spec fn row_major_strides(d: Seq<int>) -> Seq<int> {
    Seq::new(d.len(), |i: int| prod(d.subrange(i + 1, d.len() as int)))
}

/// The column-major strides of a dimension with all extents positive:
/// each axis steps by the product of the extents to its left.
pub open spec fn col_major_strides(d: Seq<int>) -> Seq<int> {
    Seq::new(d.len(), |i: int| prod(d.subrange(0, i)))
}

/// What `default_strides` returns: row-major strides, or all zeros when
/// some extent is zero.
pub open spec fn default_strides_spec(d: Seq<int>) -> Seq<int> {
    if all_positive(d) {
        row_major_strides(d)
    } else {
        Seq::new(d.len(), |i: int| 0)
    }
}

/// What `fortran_strides` returns: column-major strides, or all zeros when
/// some extent is zero.
pub open spec fn fortran_strides_spec(d: Seq<int>) -> Seq<int> {
    if all_positive(d) {
        col_major_strides(d)
    } else {
        Seq::new(d.len(), |i: int| 0)
    }
}

/// A sequence of machine indices as mathematical integers.
pub open spec fn uv(s: Seq<usize>) -> Seq<int> {
    Seq::new(s.len(), |i: int| s[i] as int)
}

/// Two dimension values with the same integer entries are the same value.
pub proof fn lemma_sv_injective(a: Seq<isize>, b: Seq<isize>)
    requires
        sv(a) == sv(b),
    ensures
        a == b,
{
    assert(sv(a).len() == a.len());
    assert(sv(b).len() == b.len());
    assert(a.len() == b.len());
    assert forall|i: int| 0 <= i < a.len() implies a[i] == b[i] by {
        assert(sv(a)[i] == a[i] as int);
        assert(sv(b)[i] == b[i] as int);
    }
    assert(a =~= b);
}

/// Inserting into a sequence of machine indices matches inserting into its
/// integer image.
pub proof fn lemma_uv_insert(o: Seq<usize>, p: int, v: usize)
    requires
        0 <= p <= o.len(),
    ensures
        uv(o.insert(p, v)) == uv(o).insert(p, v as int),
{
    let a = uv(o.insert(p, v));
    let b = uv(o).insert(p, v as int);
    assert forall|i: int| 0 <= i < a.len() implies a[i] == b[i] by {
        if i < p {
            assert(o.insert(p, v)[i] == o[i]);
        } else if i == p {
            assert(o.insert(p, v)[i] == v);
        } else {
            assert(o.insert(p, v)[i] == o[i - 1]);
        }
    }
    assert(a =~= b);
}

/// The stride magnitude, as a machine word; total also at the most negative
/// stride.
pub fn abs_usize(x: isize) -> (r: usize)
    ensures
        r as int == abs_i(x as int),
{
    if x >= 0 {
        x as usize
    } else {
        let y = -(x + 1);
        (y as usize) + 1
    }
}

pub open spec fn abs_i(x: int) -> int {
    if x < 0 {
        -x
    } else {
        x
    }
}

/// The distance from the lowest address a tensor reaches up to its logical
/// base: the sum, over the axes with negative stride and extent above one,
/// of `(-stride) * (extent - 1)`.
pub open spec fn low_offset(d: Seq<int>, s: Seq<int>) -> int
    decreases d.len(),
{
    if d.len() == 0 {
        0
    } else {
        (if s[0] < 0 && d[0] > 1 {
            (-s[0]) * (d[0] - 1)
        } else {
            0
        }) + low_offset(d.drop_first(), s.drop_first())
    }
}

/// The span of a dimension/stride pair: the sum over all axes of
/// `|stride| * (extent - 1)`, the distance from the lowest to the highest
/// reachable address.
pub open spec fn span_sum(d: Seq<int>, s: Seq<int>) -> int
    decreases d.len(),
{
    if d.len() == 0 {
        0
    } else {
        abs_i(s[0]) * (d[0] - 1) + span_sum(d.drop_first(), s.drop_first())
    }
}

/// The dot product of a multi-index with a stride vector: the offset of the
/// indexed element from the logical base.
pub open spec fn dot(idx: Seq<int>, s: Seq<int>) -> int
    decreases idx.len(),
{
    if idx.len() == 0 {
        0
    } else {
        idx[0] * s[0] + dot(idx.drop_first(), s.drop_first())
    }
}

/// A legal multi-index for a dimension value.
pub open spec fn valid_idx(idx: Seq<int>, d: Seq<int>) -> bool {
    &&& idx.len() == d.len()
    &&& forall|i: int| 0 <= i < idx.len() ==> 0 <= #[trigger] idx[i] < d[i]
}

/// With every extent positive, the default strides end in one and give each
/// earlier axis the product of the extents to its right.
pub proof fn lemma_default_strides_values(d: Seq<int>)
    requires
        all_positive(d),
        d.len() > 0,
    ensures
        default_strides_spec(d)[d.len() - 1] == 1,
        forall|i: int|
            0 <= i < d.len() ==> #[trigger] default_strides_spec(d)[i] == prod(
                d.subrange(i + 1, d.len() as int),
            ),
{
    assert(d.subrange(d.len() as int, d.len() as int) =~= Seq::<int>::empty());
}

/// With every extent positive, the column-major strides start at one and give
/// each later axis the product of the extents to its left.
pub proof fn lemma_fortran_strides_values(d: Seq<int>)
    requires
        all_positive(d),
        d.len() > 0,
    ensures
        fortran_strides_spec(d)[0] == 1,
        forall|i: int|
            0 <= i < d.len() ==> #[trigger] fortran_strides_spec(d)[i] == prod(d.subrange(0, i)),
{
    assert(d.subrange(0, 0) =~= Seq::<int>::empty());
}

pub proof fn lemma_prod_nonneg(d: Seq<int>)
    requires
        is_extents(d),
    ensures
        prod(d) >= 0,
    decreases d.len(),
{
    if d.len() > 0 {
        assert(is_extents(d.drop_first()));
        lemma_prod_nonneg(d.drop_first());
        assert(d[0] * prod(d.drop_first()) >= 0) by (nonlinear_arith)
            requires d[0] >= 0 && prod(d.drop_first()) >= 0;
    }
}

pub proof fn lemma_prod_pos(d: Seq<int>)
    requires
        all_positive(d),
    ensures
        prod(d) >= 1,
    decreases d.len(),
{
    if d.len() > 0 {
        assert(all_positive(d.drop_first()));
        lemma_prod_pos(d.drop_first());
        assert(d[0] * prod(d.drop_first()) >= 1) by (nonlinear_arith)
            requires d[0] >= 1 && prod(d.drop_first()) >= 1;
    }
}

pub proof fn lemma_prod_nz_pos(d: Seq<int>)
    requires
        is_extents(d),
    ensures
        prod_nz(d) >= 1,
    decreases d.len(),
{
    if d.len() > 0 {
        assert(is_extents(d.drop_first()));
        lemma_prod_nz_pos(d.drop_first());
        let h: int = if d[0] == 0 { 1 } else { d[0] };
        assert(h * prod_nz(d.drop_first()) >= 1) by (nonlinear_arith)
            requires h >= 1 && prod_nz(d.drop_first()) >= 1;
    }
}

pub proof fn lemma_prod_eq_prod_nz(d: Seq<int>)
    requires
        all_positive(d),
    ensures
        prod(d) == prod_nz(d),
    decreases d.len(),
{
    if d.len() > 0 {
        assert(all_positive(d.drop_first()));
        lemma_prod_eq_prod_nz(d.drop_first());
    }
}

/// A product splits at any cut point.
pub proof fn lemma_prod_split(d: Seq<int>, i: int)
    requires
        0 <= i <= d.len(),
    ensures
        prod(d) == prod(d.subrange(0, i)) * prod(d.subrange(i, d.len() as int)),
    decreases i,
{
    if i == 0 {
        assert(d.subrange(0, 0) =~= Seq::<int>::empty());
        assert(d.subrange(0, d.len() as int) =~= d);
    } else {
        let f = d.subrange(0, i);
        let tail = d.drop_first();
        lemma_prod_split(tail, i - 1);
        assert(tail.subrange(0, i - 1) =~= f.drop_first());
        assert(tail.subrange(i - 1, tail.len() as int) =~= d.subrange(i, d.len() as int));
        assert(prod(d) == d[0] * (prod(f.drop_first()) * prod(d.subrange(i, d.len() as int))));
        assert(d[0] * (prod(f.drop_first()) * prod(d.subrange(i, d.len() as int)))
            == (d[0] * prod(f.drop_first())) * prod(d.subrange(i, d.len() as int)))
            by (nonlinear_arith);
        assert(f[0] == d[0]);
    }
}

pub proof fn lemma_prod_nz_split(d: Seq<int>, i: int)
    requires
        0 <= i <= d.len(),
    ensures
        prod_nz(d) == prod_nz(d.subrange(0, i)) * prod_nz(d.subrange(i, d.len() as int)),
    decreases i,
{
    if i == 0 {
        assert(d.subrange(0, 0) =~= Seq::<int>::empty());
        assert(d.subrange(0, d.len() as int) =~= d);
    } else {
        let f = d.subrange(0, i);
        let tail = d.drop_first();
        let h: int = if d[0] == 0 { 1 } else { d[0] };
        lemma_prod_nz_split(tail, i - 1);
        assert(tail.subrange(0, i - 1) =~= f.drop_first());
        assert(tail.subrange(i - 1, tail.len() as int) =~= d.subrange(i, d.len() as int));
        assert(h * (prod_nz(f.drop_first()) * prod_nz(d.subrange(i, d.len() as int)))
            == (h * prod_nz(f.drop_first())) * prod_nz(d.subrange(i, d.len() as int)))
            by (nonlinear_arith);
        assert(f[0] == d[0]);
    }
}

/// Any prefix product of extents is bounded by the product of the non-zero
/// extents.
pub proof fn lemma_prefix_prod_le(d: Seq<int>, i: int)
    requires
        is_extents(d),
        0 <= i <= d.len(),
    ensures
        0 <= prod(d.subrange(0, i)) <= prod_nz(d),
{
    let f = d.subrange(0, i);
    assert(is_extents(f));
    lemma_prod_nonneg(f);
    lemma_prod_nz_pos(f);
    lemma_prod_le_prod_nz(f);
    lemma_prod_nz_split(d, i);
    assert(is_extents(d.subrange(i, d.len() as int)));
    lemma_prod_nz_pos(d.subrange(i, d.len() as int));
    let a = prod_nz(f);
    let b = prod_nz(d.subrange(i, d.len() as int));
    assert(a >= 1 && b >= 1);
    assert(a * b >= a * 1) by (nonlinear_arith)
        requires a >= 1 && b >= 1;
}

pub proof fn lemma_prod_le_prod_nz(d: Seq<int>)
    requires
        is_extents(d),
    ensures
        prod(d) <= prod_nz(d),
    decreases d.len(),
{
    if d.len() > 0 {
        let t = d.drop_first();
        assert(is_extents(t));
        lemma_prod_le_prod_nz(t);
        lemma_prod_nonneg(t);
        lemma_prod_nz_pos(t);
        let h = d[0];
        if h == 0 {
            assert(prod(d) == 0);
        } else {
            assert(h * prod(t) <= h * prod_nz(t)) by (nonlinear_arith)
                requires h >= 1 && prod(t) <= prod_nz(t);
        }
    }
}

/// With non-negative extents, the product is positive exactly when every
/// extent is.
pub proof fn lemma_prod_pos_iff(d: Seq<int>)
    requires
        is_extents(d),
    ensures
        prod(d) > 0 <==> all_positive(d),
    decreases d.len(),
{
    if d.len() > 0 {
        let t = d.drop_first();
        assert(is_extents(t));
        lemma_prod_pos_iff(t);
        lemma_prod_nonneg(t);
        if d[0] > 0 && prod(t) > 0 {
            assert(prod(d) > 0) by (nonlinear_arith)
                requires d[0] > 0 && prod(t) > 0 && prod(d) == d[0] * prod(t);
            assert forall|i: int| 0 <= i < d.len() implies d[i] >= 1 by {
                if i > 0 {
                    assert(t[i - 1] == d[i]);
                }
            }
        } else {
            assert(d[0] * prod(t) <= 0) by (nonlinear_arith)
                requires d[0] >= 0 && prod(t) >= 0 && (d[0] == 0 || prod(t) == 0);
            if d[0] == 0 {
                assert(!all_positive(d));
            } else {
                assert(prod(t) <= 0);
                let j = choose|j: int| 0 <= j < t.len() && !(#[trigger] t[j] >= 1);
                assert(d[j + 1] == t[j]);
                assert(!all_positive(d));
            }
        }
    }
}

/// The tail of the row-major strides of `d` is the row-major strides of the
/// tail of `d`.
pub proof fn lemma_row_major_drop_first(d: Seq<int>)
    requires
        d.len() > 0,
    ensures
        row_major_strides(d).drop_first() =~= row_major_strides(d.drop_first()),
{
    let n = d.len() as int;
    assert forall|i: int| 0 <= i < n - 1 implies row_major_strides(d).drop_first()[i]
        == row_major_strides(d.drop_first())[i] by {
        assert(d.subrange(i + 2, n) =~= d.drop_first().subrange(i + 1, n - 1));
    }
}

/// The front of the column-major strides of `d` is the column-major strides
/// of the front of `d`.
pub proof fn lemma_col_major_drop_last(d: Seq<int>)
    requires
        d.len() > 0,
    ensures
        col_major_strides(d).drop_last() =~= col_major_strides(d.drop_last()),
{
    let n = d.len() as int;
    assert forall|i: int| 0 <= i < n - 1 implies col_major_strides(d).drop_last()[i]
        == col_major_strides(d.drop_last())[i] by {
        assert(d.subrange(0, i) =~= d.drop_last().subrange(0, i));
    }
}

/// The span of a row-major layout is one less than its size.
pub proof fn lemma_span_row_major(d: Seq<int>)
    requires
        all_positive(d),
    ensures
        span_sum(d, row_major_strides(d)) == prod(d) - 1,
    decreases d.len(),
{
    if d.len() == 0 {
    } else {
        let t = d.drop_first();
        assert(all_positive(t));
        lemma_span_row_major(t);
        lemma_row_major_drop_first(d);
        let s = row_major_strides(d);
        assert(s[0] == prod(d.subrange(1, d.len() as int)));
        assert(d.subrange(1, d.len() as int) =~= t);
        lemma_prod_pos(t);
        assert(s.drop_first() == row_major_strides(t));
        assert(s[0] == prod(t));
        assert(abs_i(s[0]) == prod(t));
        assert(span_sum(d, s) == abs_i(s[0]) * (d[0] - 1) + span_sum(t, s.drop_first()));
        assert(span_sum(t, s.drop_first()) == prod(t) - 1);
        assert(span_sum(d, s) == prod(t) * (d[0] - 1) + (prod(t) - 1));
        assert(prod(t) * (d[0] - 1) + prod(t) == prod(t) * d[0]) by (nonlinear_arith);
        assert(prod(d) == d[0] * prod(t));
    }
}

pub proof fn lemma_span_dot_drop_last(idx: Seq<int>, s: Seq<int>)
    requires
        idx.len() == s.len(),
        idx.len() > 0,
    ensures
        dot(idx, s) == dot(idx.drop_last(), s.drop_last()) + idx.last() * s.last(),
        span_sum(idx, s) == span_sum(idx.drop_last(), s.drop_last()) + abs_i(s.last()) * (
        idx.last() - 1),
    decreases idx.len(),
{
    if idx.len() == 1 {
        assert(idx.drop_last() =~= Seq::<int>::empty());
        assert(s.drop_last() =~= Seq::<int>::empty());
        assert(idx.drop_first() =~= Seq::<int>::empty());
        assert(s.drop_first() =~= Seq::<int>::empty());
        assert(dot(idx, s) == idx[0] * s[0] + dot(idx.drop_first(), s.drop_first()));
        assert(dot(idx.drop_first(), s.drop_first()) == 0);
        assert(span_sum(idx.drop_first(), s.drop_first()) == 0);
        assert(span_sum(idx, s) == abs_i(s[0]) * (idx[0] - 1) + span_sum(
            idx.drop_first(),
            s.drop_first(),
        ));
        assert(idx.last() == idx[0] && s.last() == s[0]);
    } else {
        let it = idx.drop_first();
        let st = s.drop_first();
        lemma_span_dot_drop_last(it, st);
        assert(it.drop_last() =~= idx.drop_last().drop_first());
        assert(st.drop_last() =~= s.drop_last().drop_first());
        assert(it.last() == idx.last());
        assert(st.last() == s.last());
        assert(idx.drop_last()[0] == idx[0]);
        assert(s.drop_last()[0] == s[0]);
        assert(idx.drop_last().len() > 0);
        assert(dot(idx.drop_last(), s.drop_last()) == idx[0] * s[0] + dot(
            idx.drop_last().drop_first(),
            s.drop_last().drop_first(),
        ));
        assert(span_sum(idx.drop_last(), s.drop_last()) == abs_i(s[0]) * (idx[0] - 1) + span_sum(
            idx.drop_last().drop_first(),
            s.drop_last().drop_first(),
        ));
        assert(dot(idx, s) == idx[0] * s[0] + dot(it, st));
        assert(span_sum(idx, s) == abs_i(s[0]) * (idx[0] - 1) + span_sum(it, st));
    }
}

/// The span of a column-major layout is one less than its size.
pub proof fn lemma_span_col_major(d: Seq<int>)
    requires
        all_positive(d),
    ensures
        span_sum(d, col_major_strides(d)) == prod(d) - 1,
    decreases d.len(),
{
    if d.len() == 0 {
    } else {
        let f = d.drop_last();
        assert(all_positive(f));
        lemma_span_col_major(f);
        lemma_col_major_drop_last(d);
        let s = col_major_strides(d);
        lemma_span_dot_drop_last(d, s);
        assert(s.last() == prod(d.subrange(0, d.len() - 1)));
        assert(d.subrange(0, d.len() - 1) =~= f);
        lemma_prod_pos(f);
        lemma_prod_drop_last(d);
        assert(s.drop_last() == col_major_strides(f));
        assert(abs_i(s.last()) == prod(f));
        assert(span_sum(d, s) == span_sum(f, s.drop_last()) + prod(f) * (d.last() - 1));
        assert(span_sum(f, s.drop_last()) == prod(f) - 1);
        assert(prod(f) - 1 + prod(f) * (d.last() - 1) == prod(f) * d.last() - 1)
            by (nonlinear_arith);
        assert(prod(d) == prod(f) * d.last());
    }
}

pub proof fn lemma_prod_drop_last(d: Seq<int>)
    requires
        d.len() > 0,
    ensures
        prod(d) == prod(d.drop_last()) * d.last(),
{
    lemma_prod_split(d, d.len() - 1);
    assert(d.subrange(0, d.len() - 1) =~= d.drop_last());
    let t = d.subrange(d.len() - 1, d.len() as int);
    assert(t.len() == 1 && t[0] == d.last());
    assert(t.drop_first() =~= Seq::<int>::empty());
    assert(prod(t.drop_first()) == 1);
    assert(prod(t) == t[0] * prod(t.drop_first()));
    assert(prod(t) == d.last());
}

/// With non-negative strides the low-address offset vanishes.
pub proof fn lemma_low_offset_nonneg(d: Seq<int>, s: Seq<int>)
    requires
        d.len() == s.len(),
        forall|i: int| 0 <= i < s.len() ==> #[trigger] s[i] >= 0,
    ensures
        low_offset(d, s) == 0,
    decreases d.len(),
{
    if d.len() > 0 {
        assert(s[0] >= 0);
        lemma_low_offset_nonneg(d.drop_first(), s.drop_first());
    }
}

/// Default strides are never negative.
pub proof fn lemma_default_strides_nonneg(d: Seq<int>)
    requires
        is_extents(d),
    ensures
        forall|i: int|
            0 <= i < d.len() ==> #[trigger] default_strides_spec(d)[i] >= 0,
{
    if all_positive(d) {
        assert forall|i: int| 0 <= i < d.len() implies #[trigger] default_strides_spec(d)[i]
            >= 0 by {
            assert(all_positive(d.subrange(i + 1, d.len() as int)));
            lemma_prod_pos(d.subrange(i + 1, d.len() as int));
        }
    }
}

/// Column-major strides are never negative.
pub proof fn lemma_fortran_strides_nonneg(d: Seq<int>)
    requires
        is_extents(d),
    ensures
        forall|i: int|
            0 <= i < d.len() ==> #[trigger] fortran_strides_spec(d)[i] >= 0,
{
    if all_positive(d) {
        assert forall|i: int| 0 <= i < d.len() implies #[trigger] fortran_strides_spec(d)[i]
            >= 0 by {
            assert(all_positive(d.subrange(0, i)));
            lemma_prod_pos(d.subrange(0, i));
        }
    }
}

/// With every extent at least one, the low-address offset is at most the
/// span.
pub proof fn lemma_low_offset_le_span(d: Seq<int>, s: Seq<int>)
    requires
        d.len() == s.len(),
        all_positive(d),
    ensures
        0 <= low_offset(d, s) <= span_sum(d, s),
    decreases d.len(),
{
    if d.len() > 0 {
        assert(all_positive(d.drop_first()));
        lemma_low_offset_le_span(d.drop_first(), s.drop_first());
        let lo: int = if s[0] < 0 && d[0] > 1 {
            (-s[0]) * (d[0] - 1)
        } else {
            0
        };
        assert(0 <= lo && lo <= abs_i(s[0]) * (d[0] - 1)) by (nonlinear_arith)
            requires
                d[0] >= 1,
                lo == (if s[0] < 0 && d[0] > 1 { (-s[0]) * (d[0] - 1) } else { 0int }),
                abs_i(s[0]) == (if s[0] < 0 { -s[0] } else { s[0] }),
        ;
    }
}

/// The low-address offset decomposes at the last axis.
pub proof fn lemma_low_offset_drop_last(d: Seq<int>, s: Seq<int>)
    requires
        d.len() == s.len(),
        d.len() > 0,
    ensures
        low_offset(d, s) == low_offset(d.drop_last(), s.drop_last()) + (if s.last() < 0
            && d.last() > 1 {
            (-s.last()) * (d.last() - 1)
        } else {
            0
        }),
    decreases d.len(),
{
    if d.len() == 1 {
        assert(d.drop_last() =~= Seq::<int>::empty());
        assert(s.drop_last() =~= Seq::<int>::empty());
        assert(low_offset(d.drop_first(), s.drop_first()) == 0) by {
            assert(d.drop_first() =~= Seq::<int>::empty());
        }
    } else {
        let dt = d.drop_first();
        let st = s.drop_first();
        lemma_low_offset_drop_last(dt, st);
        assert(dt.drop_last() =~= d.drop_last().drop_first());
        assert(st.drop_last() =~= s.drop_last().drop_first());
        assert(dt.last() == d.last());
        assert(st.last() == s.last());
        assert(d.drop_last()[0] == d[0]);
        assert(s.drop_last()[0] == s[0]);
        assert(d.drop_last().len() > 0);
        assert(low_offset(d.drop_last(), s.drop_last()) == (if s[0] < 0 && d[0] > 1 {
            (-s[0]) * (d[0] - 1)
        } else {
            0
        }) + low_offset(d.drop_last().drop_first(), s.drop_last().drop_first()));
    }
}

/// A prefix of the axes contributes at most the whole low-address offset.
pub proof fn lemma_low_offset_prefix_le(d: Seq<int>, s: Seq<int>, i: int)
    requires
        d.len() == s.len(),
        0 <= i <= d.len(),
    ensures
        0 <= low_offset(d.subrange(0, i), s.subrange(0, i)) <= low_offset(d, s),
    decreases d.len() - i,
{
    lemma_low_offset_nonneg_front(d.subrange(0, i), s.subrange(0, i));
    if i == d.len() {
        assert(d.subrange(0, i) =~= d);
        assert(s.subrange(0, i) =~= s);
    } else {
        lemma_low_offset_prefix_le(d, s, i + 1);
        lemma_low_offset_drop_last(d.subrange(0, i + 1), s.subrange(0, i + 1));
        assert(d.subrange(0, i + 1).drop_last() =~= d.subrange(0, i));
        assert(s.subrange(0, i + 1).drop_last() =~= s.subrange(0, i));
        assert(d.subrange(0, i + 1).last() == d[i]);
        assert(s.subrange(0, i + 1).last() == s[i]);
        let t: int = if s[i] < 0 && d[i] > 1 {
            (-s[i]) * (d[i] - 1)
        } else {
            0
        };
        assert(t >= 0) by (nonlinear_arith)
            requires t == (if s[i] < 0 && d[i] > 1 { (-s[i]) * (d[i] - 1) } else { 0int });
    }
}

/// The low-address offset is never negative, whatever the entries hold.
pub proof fn lemma_low_offset_nonneg_front(d: Seq<int>, s: Seq<int>)
    requires
        d.len() == s.len(),
    ensures
        low_offset(d, s) >= 0,
    decreases d.len(),
{
    if d.len() > 0 {
        lemma_low_offset_nonneg_front(d.drop_first(), s.drop_first());
        if s[0] < 0 && d[0] > 1 {
            assert((-s[0]) * (d[0] - 1) >= 0) by (nonlinear_arith)
                requires s[0] < 0 && d[0] > 1;
        }
    }
}

/// Every reachable offset sits between the lowest and the highest address:
/// `0 <= dot(idx, s) + low_offset(d, s) <= span_sum(d, s)`.
pub proof fn lemma_dot_bounds(idx: Seq<int>, d: Seq<int>, s: Seq<int>)
    requires
        valid_idx(idx, d),
        d.len() == s.len(),
    ensures
        0 <= dot(idx, s) + low_offset(d, s),
        dot(idx, s) + low_offset(d, s) <= span_sum(d, s),
    decreases idx.len(),
{
    if idx.len() > 0 {
        assert(valid_idx(idx.drop_first(), d.drop_first())) by {
            assert(forall|i: int|
                0 <= i < idx.len() - 1 ==> idx.drop_first()[i] == #[trigger] idx[i + 1]);
        }
        lemma_dot_bounds(idx.drop_first(), d.drop_first(), s.drop_first());
        let x = idx[0];
        let e = d[0];
        let st = s[0];
        assert(0 <= x < e);
        let lo: int = if st < 0 && e > 1 {
            (-st) * (e - 1)
        } else {
            0
        };
        assert(0 <= x * st + lo && x * st + lo <= abs_i(st) * (e - 1)) by (nonlinear_arith)
            requires
                0 <= x < e,
                lo == (if st < 0 && e > 1 { (-st) * (e - 1) } else { 0 }),
                abs_i(st) == (if st < 0 { -st } else { st }),
        ;
    }
}

} // verus!
