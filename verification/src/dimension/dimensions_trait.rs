//! The dimension trait: uniform access to the extents (or strides) of a
//! shape value of any rank, and the stride algorithms shared by all ranks.

use vstd::prelude::*;
use crate::dimension::math::{
    abs_i,
    abs_usize,
    all_positive,
    dims_ok,
    default_strides_spec,
    fortran_strides_spec,
    is_extents,
    lemma_prefix_prod_le,
    lemma_prod_drop_last,
    lemma_prod_nonneg,
    lemma_prod_split,
    lemma_prod_eq_prod_nz,
    lemma_prod_pos,
    lemma_sv_injective,
    lemma_uv_insert,
    prod,
    row_major_strides,
    col_major_strides,
    sv,
    uv,
};
use crate::dimension::order::{
    cstride_at,
    fastest_order_spec,
    insert_sorted,
    is_contiguous_spec,
    lemma_insert_sorted_at,
    lemma_sort_prefix_len,
    lemma_sort_prefix_range,
    order_ok,
    sort_prefix,
    stride_key,
};

verus! {

/// A dimension descriptor: an ordered sequence of machine integers that can
/// be read, written, and created at a rank the type allows. Extents use the
/// non-negative range; the same types carry (possibly negative) strides.
pub trait Dimensions: Sized {
    /// The entries of the value, in axis order.
    spec fn entries(&self) -> Seq<isize>;

    /// The ranks a value of this type can have.
    spec fn rank_ok(n: int) -> bool;

    /// Every value of the type has an allowed rank.
    proof fn lemma_rank(&self)
        ensures
            Self::rank_ok(self.entries().len() as int),
    ;

    fn ndim(&self) -> (n: usize)
        ensures
            n as int == self.entries().len(),
    ;

    fn get(&self, i: usize) -> (x: isize)
        requires
            i < self.entries().len(),
        ensures
            x == self.entries()[i as int],
    ;

    fn set(&mut self, i: usize, x: isize)
        requires
            i < old(self).entries().len(),
        ensures
            final(self).entries() == old(self).entries().update(i as int, x),
    ;

    /// An all-zero value of the requested rank.
    fn zeros(n: usize) -> (r: Self)
        requires
            Self::rank_ok(n as int),
        ensures
            r.entries() == Seq::new(n as nat, |i: int| 0isize),
    ;

    /// A copy with the same entries.
    fn clone_dims(&self) -> (r: Self)
        ensures
            r.entries() == self.entries(),
    ;

    /// A value of this type holding the given entries.
    fn from_values(v: &Vec<isize>) -> (r: Self)
        requires
            Self::rank_ok(v@.len() as int),
        ensures
            r.entries() == v@,
    ;

    fn as_slice(&self) -> (r: &[isize])
        ensures
            r@ == self.entries(),
    ;

    /// The number of elements a shape with these extents addresses: the
    /// product of the extents.
    fn size(&self) -> (r: usize)
        requires
            dims_ok(sv(self.entries())),
        ensures
            r as int == prod(sv(self.entries())),
    {
        let ghost d = sv(self.entries());
        let n = self.ndim();
        let mut r: usize = 1;
        let mut i: usize = 0;
        proof {
            assert(d.subrange(0, 0) =~= Seq::<int>::empty());
        }
        while i < n
            invariant
                i <= n,
                n as int == d.len(),
                d == sv(self.entries()),
                dims_ok(d),
                r as int == prod(d.subrange(0, i as int)),
            decreases n - i,
        {
            let e = self.get(i);
            proof {
                assert(e as int == d[i as int]);
                assert(e >= 0);
                lemma_prefix_prod_le(d, i as int + 1);
                lemma_prod_drop_last(d.subrange(0, i as int + 1));
                assert(d.subrange(0, i as int + 1).drop_last() =~= d.subrange(0, i as int));
                assert(d.subrange(0, i as int + 1).last() == d[i as int]);
                assert(is_extents(d.subrange(0, i as int)));
                lemma_prod_nonneg(d.subrange(0, i as int));
            }
            r = r * (e as usize);
            i = i + 1;
        }
        proof {
            assert(d.subrange(0, n as int) =~= d);
        }
        r
    }

    /// The row-major strides: the last axis steps by one, each earlier axis
    /// by the product of the extents to its right; all zero when some extent
    /// is zero.
    fn default_strides(&self) -> (r: Self)
        requires
            dims_ok(sv(self.entries())),
        ensures
            sv(r.entries()) == default_strides_spec(sv(self.entries())),
            r.entries().len() == self.entries().len(),
    {
        let ghost d = sv(self.entries());
        let n = self.ndim();
        proof {
            self.lemma_rank();
        }
        let mut r = Self::zeros(n);
        let all_pos = self.all_entries_positive();
        if !all_pos || n == 0 {
            proof {
                assert(sv(r.entries()) =~= default_strides_spec(d));
            }
            return r;
        }
        r.set(n - 1, 1);
        let mut cum: isize = 1;
        let mut i: usize = n - 1;
        proof {
            assert(d.subrange(n as int, n as int) =~= Seq::<int>::empty());
            lemma_prod_eq_prod_nz(d);
        }
        while i > 0
            invariant
                0 < n,
                i < n,
                n as int == d.len(),
                d == sv(self.entries()),
                dims_ok(d),
                all_positive(d),
                prod(d) <= isize::MAX as int,
                r.entries().len() == n,
                cum as int == prod(d.subrange(i as int + 1, n as int)),
                forall|j: int|
                    i <= j < n ==> #[trigger] r.entries()[j] as int == row_major_strides(d)[j],
            decreases i,
        {
            let e = self.get(i);
            proof {
                assert(e as int == d[i as int]);
                let tail = d.subrange(i as int, n as int);
                assert(tail.drop_first() =~= d.subrange(i as int + 1, n as int));
                assert(prod(tail) == d[i as int] * prod(tail.drop_first()));
                assert(all_positive(tail));
                lemma_prod_pos(tail);
                assert(all_positive(d.subrange(i as int + 1, n as int)));
                lemma_prod_pos(d.subrange(i as int + 1, n as int));
                lemma_prod_split(d, i as int);
                assert(all_positive(d.subrange(0, i as int)));
                lemma_prod_pos(d.subrange(0, i as int));
                assert(prod(tail) <= prod(d)) by (nonlinear_arith)
                    requires
                        prod(d) == prod(d.subrange(0, i as int)) * prod(tail),
                        prod(d.subrange(0, i as int)) >= 1,
                        prod(tail) >= 1,
                ;
                assert(cum as int * e as int == prod(tail));
            }
            cum = cum * e;
            r.set(i - 1, cum);
            i = i - 1;
        }
        proof {
            assert(sv(r.entries()).len() == d.len());
            assert forall|j: int| 0 <= j < d.len() implies sv(r.entries())[j] == default_strides_spec(d)[j]
                by {
                assert(r.entries()[j] as int == row_major_strides(d)[j]);
            }
            assert(sv(r.entries()) =~= default_strides_spec(d));
        }
        r
    }

    /// The column-major strides: the first axis steps by one, each later axis
    /// by the product of the extents to its left; all zero when some extent
    /// is zero.
    fn fortran_strides(&self) -> (r: Self)
        requires
            dims_ok(sv(self.entries())),
        ensures
            sv(r.entries()) == fortran_strides_spec(sv(self.entries())),
            r.entries().len() == self.entries().len(),
    {
        let ghost d = sv(self.entries());
        let n = self.ndim();
        proof {
            self.lemma_rank();
        }
        let mut r = Self::zeros(n);
        let all_pos = self.all_entries_positive();
        if !all_pos || n == 0 {
            proof {
                assert(sv(r.entries()) =~= fortran_strides_spec(d));
            }
            return r;
        }
        r.set(0, 1);
        let mut cum: isize = 1;
        let mut i: usize = 1;
        proof {
            assert(d.subrange(0, 0) =~= Seq::<int>::empty());
            lemma_prod_eq_prod_nz(d);
            assert(col_major_strides(d)[0] == 1);
        }
        while i < n
            invariant
                0 < n,
                1 <= i <= n,
                n as int == d.len(),
                d == sv(self.entries()),
                dims_ok(d),
                all_positive(d),
                prod(d) <= isize::MAX as int,
                r.entries().len() == n,
                cum as int == prod(d.subrange(0, i as int - 1)),
                forall|j: int|
                    0 <= j < i ==> #[trigger] r.entries()[j] as int == col_major_strides(d)[j],
            decreases n - i,
        {
            let e = self.get(i - 1);
            proof {
                assert(e as int == d[i as int - 1]);
                lemma_prod_drop_last(d.subrange(0, i as int));
                assert(d.subrange(0, i as int).drop_last() =~= d.subrange(0, i as int - 1));
                assert(d.subrange(0, i as int).last() == d[i as int - 1]);
                assert(all_positive(d.subrange(0, i as int)));
                lemma_prod_pos(d.subrange(0, i as int));
                lemma_prod_split(d, i as int);
                assert(all_positive(d.subrange(i as int, n as int)));
                lemma_prod_pos(d.subrange(i as int, n as int));
                assert(prod(d.subrange(0, i as int)) <= prod(d)) by (nonlinear_arith)
                    requires
                        prod(d) == prod(d.subrange(0, i as int)) * prod(
                            d.subrange(i as int, n as int),
                        ),
                        prod(d.subrange(i as int, n as int)) >= 1,
                        prod(d.subrange(0, i as int)) >= 1,
                ;
                assert(cum as int * e as int == prod(d.subrange(0, i as int)));
            }
            cum = cum * e;
            r.set(i, cum);
            proof {
                assert(r.entries()[i as int] as int == col_major_strides(d)[i as int]);
            }
            i = i + 1;
        }
        proof {
            assert forall|j: int| 0 <= j < d.len() implies sv(r.entries())[j] == fortran_strides_spec(d)[j]
                by {
                assert(r.entries()[j] as int == col_major_strides(d)[j]);
            }
            assert(sv(r.entries()) =~= fortran_strides_spec(d));
        }
        r
    }

    /// The axes of a stride value, stably sorted by ascending stride
    /// magnitude: the order in which a dense layout varies fastest.
    fn _fastest_varying_stride_order(&self) -> (r: Self)
        requires
            self.entries().len() <= isize::MAX as int,
        ensures
            sv(r.entries()) == fastest_order_spec(sv(self.entries())),
            r.entries().len() == self.entries().len(),
    {
        let ghost s = sv(self.entries());
        let n = self.ndim();
        let mut ord: Vec<usize> = Vec::new();
        let mut i: usize = 0;
        proof {
            assert(uv(ord@) =~= sort_prefix(s, 0));
        }
        while i < n
            invariant
                i <= n,
                n as int == s.len(),
                s == sv(self.entries()),
                ord@.len() == i,
                uv(ord@) == sort_prefix(s, i as nat),
                forall|k: int| 0 <= k < ord@.len() ==> #[trigger] ord@[k] < n,
            decreases n - i,
        {
            let key_i = abs_usize(self.get(i));
            proof {
                assert(key_i as int == stride_key(s, i as int));
            }
            let mut pos: usize = i;
            let mut found = false;
            let mut j: usize = 0;
            while j < i
                invariant
                    j <= i,
                    i <= n,
                    n as int == s.len(),
                    s == sv(self.entries()),
                    ord@.len() == i,
                    forall|k: int| 0 <= k < ord@.len() ==> #[trigger] ord@[k] < n,
                    key_i as int == stride_key(s, i as int),
                    !found ==> pos == i,
                    !found ==> forall|k: int|
                        0 <= k < j ==> stride_key(s, #[trigger] uv(ord@)[k]) <= key_i as int,
                    found ==> pos < j && stride_key(s, uv(ord@)[pos as int]) > key_i as int,
                    found ==> forall|k: int|
                        0 <= k < pos ==> stride_key(s, #[trigger] uv(ord@)[k]) <= key_i as int,
                decreases i - j,
            {
                if !found {
                    let a = ord[j];
                    let key_j = abs_usize(self.get(a));
                    proof {
                        assert(uv(ord@)[j as int] == a as int);
                        assert(key_j as int == stride_key(s, a as int));
                    }
                    if key_j > key_i {
                        pos = j;
                        found = true;
                    }
                }
                j = j + 1;
            }
            proof {
                let oq = uv(ord@);
                if found {
                    lemma_insert_sorted_at(oq, s, i as int, pos as int);
                } else {
                    lemma_insert_sorted_at(oq, s, i as int, i as int);
                }
                lemma_uv_insert(ord@, pos as int, i);
            }
            ord.insert(pos, i);
            i = i + 1;
        }
        proof {
            self.lemma_rank();
            lemma_sort_prefix_len(s, s.len());
            lemma_sort_prefix_range(s, s.len());
        }
        let mut r = Self::zeros(n);
        let mut t: usize = 0;
        while t < n
            invariant
                t <= n,
                n as int == s.len(),
                s == sv(self.entries()),
                ord@.len() == n,
                uv(ord@) == fastest_order_spec(s),
                forall|k: int| 0 <= k < ord@.len() ==> #[trigger] ord@[k] < n,
                n as int <= isize::MAX as int,
                r.entries().len() == n,
                forall|k: int| 0 <= k < t ==> #[trigger] r.entries()[k] as int == uv(ord@)[k],
            decreases n - t,
        {
            let a = ord[t];
            proof {
                assert(uv(ord@)[t as int] == a as int);
            }
            r.set(t, a as isize);
            t = t + 1;
        }
        proof {
            assert(sv(r.entries()) =~= fastest_order_spec(s));
        }
        r
    }

    /// Whether the dimension is contiguous under the stride: the stride is
    /// the default stride, or a single axis steps by minus one, or walking
    /// the axes by ascending stride magnitude finds each axis of extent other
    /// than one stepping by the product of the extents already walked.
    fn is_contiguous(dims: &Self, strides: &Self) -> (r: bool)
        requires
            dims_ok(sv(dims.entries())),
            dims.entries().len() == strides.entries().len(),
            dims.entries().len() <= isize::MAX as int,
        ensures
            r == is_contiguous_spec(sv(dims.entries()), sv(strides.entries())),
    {
        let ghost d = sv(dims.entries());
        let ghost s = sv(strides.entries());
        let defaults = dims.default_strides();
        if strides.equal(&defaults) {
            return true;
        }
        proof {
            if s == default_strides_spec(d) {
                lemma_sv_injective(strides.entries(), defaults.entries());
            }
            assert(s != default_strides_spec(d));
        }
        let n = dims.ndim();
        if n == 1 && strides.get(0) == -1isize {
            return true;
        }
        proof {
            assert(!(d.len() == 1 && s[0] == -1));
        }
        let order = strides._fastest_varying_stride_order();
        let ghost oq = fastest_order_spec(s);
        proof {
            lemma_sort_prefix_len(s, s.len());
            lemma_sort_prefix_range(s, s.len());
        }
        let mut cstride: usize = 1;
        let mut over = false;
        let mut k: usize = 0;
        while k < n
            invariant
                k <= n,
                n as int == d.len(),
                d.len() == s.len(),
                d == sv(dims.entries()),
                s == sv(strides.entries()),
                is_extents(d),
                sv(order.entries()) == oq,
                order.entries().len() == n,
                oq == fastest_order_spec(s),
                oq.len() == n,
                s != default_strides_spec(d),
                !(d.len() == 1 && s[0] == -1),
                forall|t: int| 0 <= t < oq.len() ==> 0 <= #[trigger] oq[t] < n,
                !over ==> cstride as int == cstride_at(d, oq, k as int),
                over ==> cstride_at(d, oq, k as int) > usize::MAX as int,
                forall|t: int|
                    0 <= t < k ==> (d[#[trigger] oq[t]] == 1 || abs_i(s[oq[t]]) == cstride_at(
                        d,
                        oq,
                        t,
                    )),
            decreases n - k,
        {
            let axi = order.get(k);
            proof {
                assert(axi as int == oq[k as int]);
            }
            let ax = axi as usize;
            let dk = dims.get(ax);
            proof {
                assert(dk as int == d[oq[k as int]]);
                assert(dk >= 0);
            }
            if dk != 1 {
                if over {
                    proof {
                        assert(abs_i(s[oq[k as int]]) <= usize::MAX as int);
                        assert(!(d[oq[k as int]] == 1 || abs_i(s[oq[k as int]]) == cstride_at(
                            d,
                            oq,
                            k as int,
                        )));
                        assert(!order_ok(d, s, oq));
                    }
                    return false;
                }
                let sk = abs_usize(strides.get(ax));
                if sk != cstride {
                    proof {
                        assert(abs_i(s[oq[k as int]]) != cstride_at(d, oq, k as int));
                        assert(!order_ok(d, s, oq));
                    }
                    return false;
                }
            }
            let ghost c_next = cstride_at(d, oq, k as int + 1);
            proof {
                assert(c_next == cstride_at(d, oq, k as int) * d[oq[k as int]]);
            }
            match cstride.checked_mul(dk as usize) {
                Some(c) => {
                    proof {
                        if over {
                            assert(dk == 1);
                            assert(c_next == cstride_at(d, oq, k as int) * 1);
                        }
                    }
                    cstride = c;
                },
                None => {
                    proof {
                        if over {
                            assert(dk == 1);
                            assert(c_next == cstride_at(d, oq, k as int) * 1);
                        }
                    }
                    over = true;
                },
            }
            k = k + 1;
        }
        proof {
            assert(order_ok(d, s, oq));
        }
        true
    }

    /// Whether every entry is at least one.
    fn all_entries_positive(&self) -> (r: bool)
        ensures
            r == all_positive(sv(self.entries())),
    {
        let ghost d = sv(self.entries());
        let n = self.ndim();
        let mut i: usize = 0;
        while i < n
            invariant
                i <= n,
                n as int == d.len(),
                d == sv(self.entries()),
                forall|j: int| 0 <= j < i ==> #[trigger] d[j] >= 1,
            decreases n - i,
        {
            if self.get(i) <= 0 {
                proof {
                    assert(d[i as int] < 1);
                }
                return false;
            }
            i = i + 1;
        }
        true
    }

    /// Whether the two values hold the same entries.
    fn equal(&self, rhs: &Self) -> (r: bool)
        ensures
            r == (self.entries() == rhs.entries()),
    {
        let n = self.ndim();
        if rhs.ndim() != n {
            return false;
        }
        let mut i: usize = 0;
        while i < n
            invariant
                i <= n,
                n as int == self.entries().len(),
                self.entries().len() == rhs.entries().len(),
                forall|j: int| 0 <= j < i ==> #[trigger] self.entries()[j] == rhs.entries()[j],
            decreases n - i,
        {
            if self.get(i) != rhs.get(i) {
                return false;
            }
            i = i + 1;
        }
        proof {
            assert(self.entries() =~= rhs.entries());
        }
        true
    }
}

/// Whether two dimension values, possibly of different families, hold the
/// same entries.
pub fn dims_entries_equal<D1: Dimensions, D2: Dimensions>(a: &D1, b: &D2) -> (r: bool)
    ensures
        r == (a.entries() == b.entries()),
{
    let n = a.ndim();
    if b.ndim() != n {
        return false;
    }
    let mut i: usize = 0;
    while i < n
        invariant
            i <= n,
            n as int == a.entries().len(),
            a.entries().len() == b.entries().len(),
            forall|j: int| 0 <= j < i ==> #[trigger] a.entries()[j] == b.entries()[j],
        decreases n - i,
    {
        if a.get(i) != b.get(i) {
            return false;
        }
        i = i + 1;
    }
    proof {
        assert(a.entries() =~= b.entries());
    }
    true
}

/// Conversion of a plain shape literal (an integer, an array or a tuple of
/// integers) into a dimension value.
pub trait IntoDimension: Sized {
    type Dims: Dimensions;

    /// The entries the literal denotes.
    spec fn dims_spec(&self) -> Seq<isize>;

    fn into_dimension(self) -> (r: Self::Dims)
        ensures
            r.entries() == self.dims_spec(),
    ;
}

impl<D: Dimensions> IntoDimension for D {
    type Dims = D;

    open spec fn dims_spec(&self) -> Seq<isize> {
        self.entries()
    }

    fn into_dimension(self) -> (r: Self::Dims) {
        self
    }
}

} // verus!
