//! The dynamically-ranked dimension: extents held inline up to rank four,
//! spilled to the heap above, with rank-changing `unsqueeze` and `squeeze`.

use vstd::prelude::*;
use vstd::array::array_fill_for_copy_types;
use vstd::slice::slice_subrange;
use crate::index::Ix;
use crate::dimension::dims::Dims;
use crate::dimension::dimensions_trait::Dimensions;

verus! {

broadcast use vstd::array::group_array_axioms;

#[derive(Debug)]
enum DynDimsRepr {
    Inline(u32, [Ix; 4]),
    Alloc(Vec<Ix>),
}

impl DynDimsRepr {
    fn from_vec(v: Vec<Ix>) -> (r: Self)
        ensures
            r == DynDimsRepr::Alloc(v),
    {
        DynDimsRepr::Alloc(v)
    }
}

/// A dimension value of any rank: inline storage for low ranks, a heap
/// buffer above.
#[derive(Debug)]
pub struct DynDimsImpl(DynDimsRepr);

impl DynDimsImpl {
    #[verifier::type_invariant]
    spec fn inv(self) -> bool {
        match self.0 {
            DynDimsRepr::Inline(len, _) => len <= 4,
            DynDimsRepr::Alloc(_) => true,
        }
    }

    /// The extents, in axis order.
    pub closed spec fn view_spec(&self) -> Seq<isize> {
        match self.0 {
            DynDimsRepr::Inline(len, a) => a@.take(len as int),
            DynDimsRepr::Alloc(v) => v@,
        }
    }

    /// Whether the extents sit in the inline buffer.
    pub closed spec fn is_inline_spec(&self) -> bool {
        self.0 is Inline
    }

    pub fn is_inline(&self) -> (r: bool)
        ensures
            r == self.is_inline_spec(),
    {
        match &self.0 {
            DynDimsRepr::Inline(..) => true,
            DynDimsRepr::Alloc(..) => false,
        }
    }

    pub fn len(&self) -> (n: usize)
        ensures
            n as int == self.view_spec().len(),
    {
        proof {
            use_type_invariant(self);
        }
        match &self.0 {
            DynDimsRepr::Inline(len, _) => *len as usize,
            DynDimsRepr::Alloc(v) => v.len(),
        }
    }

    pub fn get_at(&self, i: usize) -> (x: isize)
        requires
            i < self.view_spec().len(),
        ensures
            x == self.view_spec()[i as int],
    {
        proof {
            use_type_invariant(self);
        }
        match &self.0 {
            DynDimsRepr::Inline(_, a) => a[i],
            DynDimsRepr::Alloc(v) => v[i],
        }
    }

    pub fn set_at(&mut self, i: usize, x: isize)
        requires
            i < old(self).view_spec().len(),
        ensures
            final(self).view_spec() == old(self).view_spec().update(i as int, x),
    {
        proof {
            use_type_invariant(&*self);
        }
        let n = self.len();
        let mut v: Vec<Ix> = Vec::new();
        let mut j: usize = 0;
        while j < n
            invariant
                j <= n,
                i < n,
                n as int == self.view_spec().len(),
                self == old(self),
                v@.len() == j,
                forall|k: int|
                    0 <= k < j ==> #[trigger] v@[k] == (if k == i as int {
                        x
                    } else {
                        self.view_spec()[k]
                    }),
            decreases n - j,
        {
            if j == i {
                v.push(x);
            } else {
                v.push(self.get_at(j));
            }
            j = j + 1;
        }
        proof {
            assert(v@ =~= old(self).view_spec().update(i as int, x));
        }
        let inline = self.is_inline();
        if inline {
            *self = Self::pack(v, 4);
        } else {
            *self = Self::from_vec(v);
        }
    }

    /// A dynamic dimension holding the given extents, on the heap.
    pub fn from_vec(v: Vec<Ix>) -> (r: Self)
        ensures
            r.view_spec() == v@,
            !r.is_inline_spec(),
    {
        DynDimsImpl(DynDimsRepr::from_vec(v))
    }

    /// Pack entries into the inline buffer when they fit within `limit`,
    /// else keep them on the heap.
    fn pack(v: Vec<Ix>, limit: usize) -> (r: Self)
        requires
            limit <= 4,
        ensures
            r.view_spec() == v@,
            r.is_inline_spec() == (v@.len() <= limit),
    {
        if v.len() <= limit {
            let mut a: [isize; 4] = array_fill_for_copy_types(0isize);
            proof {
                assert(a@.len() == 4);
            }
            let n = v.len();
            let mut i: usize = 0;
            while i < n
                invariant
                    i <= n,
                    n == v@.len(),
                    n <= 4,
                    a@.len() == 4,
                    forall|j: int| 0 <= j < i ==> #[trigger] a@[j] == v@[j],
                decreases n - i,
            {
                a[i] = v[i];
                i = i + 1;
            }
            let r = DynDimsImpl(DynDimsRepr::Inline(n as u32, a));
            proof {
                assert(r.view_spec() =~= v@);
            }
            r
        } else {
            DynDimsImpl(DynDimsRepr::Alloc(v))
        }
    }

    /// Insert an extent of one at the given axis, shifting the tail right.
    /// The result stays inline whenever the new rank fits the inline buffer.
    pub fn unsqueeze(&self, axis: usize) -> (r: Self)
        requires
            axis as int <= self.view_spec().len(),
            self.view_spec().len() < usize::MAX,
        ensures
            r.view_spec() == self.view_spec().insert(axis as int, 1isize),
            r.is_inline_spec() == (self.view_spec().len() + 1 <= 4),
    {
        let n = self.len();
        let mut v: Vec<Ix> = Vec::new();
        let mut i: usize = 0;
        while i < axis
            invariant
                i <= axis,
                axis <= n,
                n as int == self.view_spec().len(),
                v@.len() == i,
                forall|j: int| 0 <= j < i ==> #[trigger] v@[j] == self.view_spec()[j],
            decreases axis - i,
        {
            v.push(self.get_at(i));
            i = i + 1;
        }
        v.push(1);
        let mut i: usize = axis;
        while i < n
            invariant
                axis <= i <= n,
                n as int == self.view_spec().len(),
                v@.len() == i + 1,
                forall|j: int| 0 <= j < axis ==> #[trigger] v@[j] == self.view_spec()[j],
                v@[axis as int] == 1isize,
                forall|j: int|
                    axis < j < i + 1 ==> #[trigger] v@[j] == self.view_spec()[j - 1],
            decreases n - i,
        {
            v.push(self.get_at(i));
            i = i + 1;
        }
        proof {
            assert(v@ =~= self.view_spec().insert(axis as int, 1isize));
        }
        Self::pack(v, 4)
    }

    /// Remove the extent at the given axis, shifting the tail left. The
    /// result is inline whenever the new rank is at most three.
    pub fn squeeze(&self, axis: usize) -> (r: Self)
        requires
            (axis as int) < self.view_spec().len(),
        ensures
            r.view_spec() == self.view_spec().remove(axis as int),
            r.is_inline_spec() == (self.view_spec().len() - 1 <= 3),
    {
        let n = self.len();
        let mut v: Vec<Ix> = Vec::new();
        let mut i: usize = 0;
        while i < axis
            invariant
                i <= axis,
                axis < n,
                n as int == self.view_spec().len(),
                v@.len() == i,
                forall|j: int| 0 <= j < i ==> #[trigger] v@[j] == self.view_spec()[j],
            decreases axis - i,
        {
            v.push(self.get_at(i));
            i = i + 1;
        }
        let mut i: usize = axis + 1;
        while i < n
            invariant
                axis + 1 <= i <= n,
                n as int == self.view_spec().len(),
                v@.len() == i - 1,
                forall|j: int| 0 <= j < axis ==> #[trigger] v@[j] == self.view_spec()[j],
                forall|j: int|
                    axis <= j < i - 1 ==> #[trigger] v@[j] == self.view_spec()[j + 1],
            decreases n - i,
        {
            v.push(self.get_at(i));
            i = i + 1;
        }
        proof {
            assert(v@ =~= self.view_spec().remove(axis as int));
        }
        Self::pack(v, 3)
    }
}

impl PartialEq for DynDimsImpl {
    fn eq(&self, other: &Self) -> (r: bool) {
        let n = self.len();
        if other.len() != n {
            proof {
                assert(self.view_spec().len() != other.view_spec().len());
            }
            return false;
        }
        let mut i: usize = 0;
        while i < n
            invariant
                i <= n,
                n as int == self.view_spec().len(),
                self.view_spec().len() == other.view_spec().len(),
                forall|j: int|
                    0 <= j < i ==> #[trigger] self.view_spec()[j] == other.view_spec()[j],
            decreases n - i,
        {
            if self.get_at(i) != other.get_at(i) {
                return false;
            }
            i = i + 1;
        }
        proof {
            assert(self.view_spec() =~= other.view_spec());
        }
        true
    }
}

impl vstd::std_specs::cmp::PartialEqSpecImpl for DynDimsImpl {
    open spec fn obeys_eq_spec() -> bool {
        true
    }

    open spec fn eq_spec(&self, other: &DynDimsImpl) -> bool {
        self.view_spec() == other.view_spec()
    }
}

/// The dynamically-ranked dimension value.
pub type DynDims = Dims<DynDimsImpl>;

impl Dims<DynDimsImpl> {
    /// Insert an extent of one at the given axis.
    pub fn unsqueeze(&self, axis: usize) -> (r: Self)
        requires
            axis as int <= self.entries().len(),
            self.entries().len() < usize::MAX,
        ensures
            r.entries() == self.entries().insert(axis as int, 1isize),
    {
        Dims(self.0.unsqueeze(axis))
    }

    /// Remove the extent at the given axis.
    pub fn squeeze(&self, axis: usize) -> (r: Self)
        requires
            (axis as int) < self.entries().len(),
        ensures
            r.entries() == self.entries().remove(axis as int),
    {
        Dims(self.0.squeeze(axis))
    }
}

impl Dimensions for Dims<DynDimsImpl> {
    closed spec fn entries(&self) -> Seq<isize> {
        self.0.view_spec()
    }

    open spec fn rank_ok(n: int) -> bool {
        n >= 0
    }

    proof fn lemma_rank(&self) {
        assert(Self::rank_ok(self.entries().len() as int));
    }

    fn ndim(&self) -> (n: usize) {
        self.0.len()
    }

    fn get(&self, i: usize) -> (x: isize) {
        self.0.get_at(i)
    }

    fn set(&mut self, i: usize, x: isize) {
        self.0.set_at(i, x);
    }

    fn zeros(n: usize) -> (r: Self) {
        let mut v: Vec<Ix> = Vec::new();
        let mut i: usize = 0;
        while i < n
            invariant
                i <= n,
                v@.len() == i,
                forall|j: int| 0 <= j < i ==> #[trigger] v@[j] == 0isize,
            decreases n - i,
        {
            v.push(0);
            i = i + 1;
        }
        let r = Dims(DynDimsImpl::pack(v, 4));
        proof {
            assert(r.entries() =~= Seq::new(n as nat, |i: int| 0isize));
        }
        r
    }

    fn clone_dims(&self) -> (r: Self) {
        let n = self.0.len();
        let mut v: Vec<Ix> = Vec::new();
        let mut i: usize = 0;
        while i < n
            invariant
                i <= n,
                n as int == self.entries().len(),
                v@.len() == i,
                forall|j: int| 0 <= j < i ==> #[trigger] v@[j] == self.entries()[j],
            decreases n - i,
        {
            v.push(self.0.get_at(i));
            i = i + 1;
        }
        let inline = self.0.is_inline();
        let r = if inline {
            Dims(DynDimsImpl::pack(v, 4))
        } else {
            Dims(DynDimsImpl::from_vec(v))
        };
        proof {
            assert(r.entries() =~= self.entries());
        }
        r
    }

    fn from_values(v: &Vec<isize>) -> (r: Self) {
        let n = v.len();
        let mut c: Vec<Ix> = Vec::new();
        let mut i: usize = 0;
        while i < n
            invariant
                i <= n,
                n == v@.len(),
                c@.len() == i,
                forall|j: int| 0 <= j < i ==> #[trigger] c@[j] == v@[j],
            decreases n - i,
        {
            c.push(v[i]);
            i = i + 1;
        }
        proof {
            assert(c@ =~= v@);
        }
        Dims(DynDimsImpl::pack(c, 4))
    }

    fn as_slice(&self) -> (r: &[isize]) {
        proof {
            use_type_invariant(&self.0);
        }
        match &self.0.0 {
            DynDimsRepr::Inline(len, a) => {
                let s = slice_subrange(a.as_slice(), 0, *len as usize);
                proof {
                    assert(s@ =~= self.entries());
                }
                s
            },
            DynDimsRepr::Alloc(v) => v.as_slice(),
        }
    }
}

/// Inserting a unit extent at an axis and removing the same axis gives back
/// the dimension it started from.
pub proof fn lemma_unsqueeze_then_squeeze(d: Seq<isize>, k: int)
    requires
        0 <= k <= d.len(),
    ensures
        d.insert(k, 1isize).remove(k) == d,
{
    assert(d.insert(k, 1isize).remove(k) =~= d);
}

} // verus!
