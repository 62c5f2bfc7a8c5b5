//! The fixed-rank dimension family: a tuple struct over an array of machine
//! integers, one `Dimensions` impl per rank from zero to eight.

use vstd::prelude::*;
use vstd::array::array_fill_for_copy_types;
use crate::index::Ix;
use crate::dimension::dimensions_trait::Dimensions;

verus! {

broadcast use vstd::array::group_array_axioms;

/// A dimension (or stride) value backed by a fixed-size or growable carrier.
#[derive(Copy, Clone, Debug, PartialEq, Eq, Hash)]
pub struct Dims<I>(pub I);

impl<I> Dims<I> {
    pub fn new(dims: I) -> (r: Self)
        ensures
            r.0 == dims,
    {
        Dims(dims)
    }
}

pub type Dims0 = Dims<[Ix; 0]>;

pub type Dims1 = Dims<[Ix; 1]>;

pub type Dims2 = Dims<[Ix; 2]>;

pub type Dims3 = Dims<[Ix; 3]>;

pub type Dims4 = Dims<[Ix; 4]>;

pub type Dims5 = Dims<[Ix; 5]>;

pub type Dims6 = Dims<[Ix; 6]>;

pub type Dims7 = Dims<[Ix; 7]>;

pub type Dims8 = Dims<[Ix; 8]>;


impl Dims<[Ix; 0]> {
    /// The extents as a plain value.
    pub fn into_pattern(self) {
    }
}

impl Dimensions for Dims<[Ix; 0]> {
    open spec fn entries(&self) -> Seq<isize> {
        self.0@
    }

    open spec fn rank_ok(n: int) -> bool {
        n == 0
    }

    proof fn lemma_rank(&self) {
        assert(self.0@.len() == 0);
        assert(self.entries().len() == 0);
        assert(Self::rank_ok(0));
        assert(Self::rank_ok(self.entries().len() as int));
    }

    fn ndim(&self) -> (n: usize) {
        proof {
            assert(self.0@.len() == 0);
            assert(self.entries().len() == 0);
        }
        0
    }

    fn get(&self, i: usize) -> (x: isize) {
        let x = self.0[i];
        proof {
            assert(x == self.entries()[i as int]);
        }
        x
    }

    fn set(&mut self, i: usize, x: isize) {
        self.0[i] = x;
        proof {
            assert(self.entries() =~= old(self).entries().update(i as int, x));
        }
    }

    fn zeros(n: usize) -> (r: Self) {
        let a: [isize; 0] = array_fill_for_copy_types(0isize);
        let r = Dims(a);
        proof {
            assert(r.0@.len() == 0);
            assert(r.entries().len() == 0);
            assert forall|i: int| 0 <= i < 0 implies r.entries()[i] == 0isize by {
                assert(r.0@[i] == 0isize);
            }
            assert(r.entries() =~= Seq::new(n as nat, |i: int| 0isize));
        }
        r
    }

    fn clone_dims(&self) -> (r: Self) {
        let r = Dims(self.0);
        proof {
            assert(r.entries() =~= self.entries());
        }
        r
    }

    fn from_values(v: &Vec<isize>) -> (r: Self) {
        let mut a: [isize; 0] = array_fill_for_copy_types(0isize);
        proof {
            assert(a@.len() == 0);
        }
        let mut i: usize = 0;
        while i < 0
            invariant
                i <= 0,
                v@.len() == 0,
                a@.len() == 0,
                forall|j: int| 0 <= j < i ==> #[trigger] a@[j] == v@[j],
            decreases 0 - i,
        {
            a[i] = v[i];
            i = i + 1;
        }
        let r = Dims(a);
        proof {
            assert(r.entries().len() == 0);
            assert(r.entries() =~= v@);
        }
        r
    }

    fn as_slice(&self) -> (r: &[isize]) {
        let s = self.0.as_slice();
        proof {
            assert(s@ == self.entries());
        }
        s
    }
}

impl Dims<[Ix; 1]> {
    /// The extents as a plain value.
    pub fn into_pattern(self) -> (p: Ix)
        ensures
            p == self.entries()[0],
    {
        self.0[0]
    }
}

impl Dimensions for Dims<[Ix; 1]> {
    open spec fn entries(&self) -> Seq<isize> {
        self.0@
    }

    open spec fn rank_ok(n: int) -> bool {
        n == 1
    }

    proof fn lemma_rank(&self) {
        assert(self.0@.len() == 1);
        assert(self.entries().len() == 1);
        assert(Self::rank_ok(1));
        assert(Self::rank_ok(self.entries().len() as int));
    }

    fn ndim(&self) -> (n: usize) {
        proof {
            assert(self.0@.len() == 1);
            assert(self.entries().len() == 1);
        }
        1
    }

    fn get(&self, i: usize) -> (x: isize) {
        let x = self.0[i];
        proof {
            assert(x == self.entries()[i as int]);
        }
        x
    }

    fn set(&mut self, i: usize, x: isize) {
        self.0[i] = x;
        proof {
            assert(self.entries() =~= old(self).entries().update(i as int, x));
        }
    }

    fn zeros(n: usize) -> (r: Self) {
        let a: [isize; 1] = array_fill_for_copy_types(0isize);
        let r = Dims(a);
        proof {
            assert(r.0@.len() == 1);
            assert(r.entries().len() == 1);
            assert forall|i: int| 0 <= i < 1 implies r.entries()[i] == 0isize by {
                assert(r.0@[i] == 0isize);
            }
            assert(r.entries() =~= Seq::new(n as nat, |i: int| 0isize));
        }
        r
    }

    fn clone_dims(&self) -> (r: Self) {
        let r = Dims(self.0);
        proof {
            assert(r.entries() =~= self.entries());
        }
        r
    }

    fn from_values(v: &Vec<isize>) -> (r: Self) {
        let mut a: [isize; 1] = array_fill_for_copy_types(0isize);
        proof {
            assert(a@.len() == 1);
        }
        let mut i: usize = 0;
        while i < 1
            invariant
                i <= 1,
                v@.len() == 1,
                a@.len() == 1,
                forall|j: int| 0 <= j < i ==> #[trigger] a@[j] == v@[j],
            decreases 1 - i,
        {
            a[i] = v[i];
            i = i + 1;
        }
        let r = Dims(a);
        proof {
            assert(r.entries().len() == 1);
            assert(r.entries() =~= v@);
        }
        r
    }

    fn as_slice(&self) -> (r: &[isize]) {
        let s = self.0.as_slice();
        proof {
            assert(s@ == self.entries());
        }
        s
    }
}

impl Dims<[Ix; 2]> {
    /// The extents as a plain value.
    pub fn into_pattern(self) -> (p: (Ix, Ix))
        ensures
            p.0 == self.entries()[0],
            p.1 == self.entries()[1],
    {
        (self.0[0], self.0[1])
    }
}

impl Dimensions for Dims<[Ix; 2]> {
    open spec fn entries(&self) -> Seq<isize> {
        self.0@
    }

    open spec fn rank_ok(n: int) -> bool {
        n == 2
    }

    proof fn lemma_rank(&self) {
        assert(self.0@.len() == 2);
        assert(self.entries().len() == 2);
        assert(Self::rank_ok(2));
        assert(Self::rank_ok(self.entries().len() as int));
    }

    fn ndim(&self) -> (n: usize) {
        proof {
            assert(self.0@.len() == 2);
            assert(self.entries().len() == 2);
        }
        2
    }

    fn get(&self, i: usize) -> (x: isize) {
        let x = self.0[i];
        proof {
            assert(x == self.entries()[i as int]);
        }
        x
    }

    fn set(&mut self, i: usize, x: isize) {
        self.0[i] = x;
        proof {
            assert(self.entries() =~= old(self).entries().update(i as int, x));
        }
    }

    fn zeros(n: usize) -> (r: Self) {
        let a: [isize; 2] = array_fill_for_copy_types(0isize);
        let r = Dims(a);
        proof {
            assert(r.0@.len() == 2);
            assert(r.entries().len() == 2);
            assert forall|i: int| 0 <= i < 2 implies r.entries()[i] == 0isize by {
                assert(r.0@[i] == 0isize);
            }
            assert(r.entries() =~= Seq::new(n as nat, |i: int| 0isize));
        }
        r
    }

    fn clone_dims(&self) -> (r: Self) {
        let r = Dims(self.0);
        proof {
            assert(r.entries() =~= self.entries());
        }
        r
    }

    fn from_values(v: &Vec<isize>) -> (r: Self) {
        let mut a: [isize; 2] = array_fill_for_copy_types(0isize);
        proof {
            assert(a@.len() == 2);
        }
        let mut i: usize = 0;
        while i < 2
            invariant
                i <= 2,
                v@.len() == 2,
                a@.len() == 2,
                forall|j: int| 0 <= j < i ==> #[trigger] a@[j] == v@[j],
            decreases 2 - i,
        {
            a[i] = v[i];
            i = i + 1;
        }
        let r = Dims(a);
        proof {
            assert(r.entries().len() == 2);
            assert(r.entries() =~= v@);
        }
        r
    }

    fn as_slice(&self) -> (r: &[isize]) {
        let s = self.0.as_slice();
        proof {
            assert(s@ == self.entries());
        }
        s
    }
}

impl Dims<[Ix; 3]> {
    /// The extents as a plain value.
    pub fn into_pattern(self) -> (p: (Ix, Ix, Ix))
        ensures
            p.0 == self.entries()[0],
            p.1 == self.entries()[1],
            p.2 == self.entries()[2],
    {
        (self.0[0], self.0[1], self.0[2])
    }
}

impl Dimensions for Dims<[Ix; 3]> {
    open spec fn entries(&self) -> Seq<isize> {
        self.0@
    }

    open spec fn rank_ok(n: int) -> bool {
        n == 3
    }

    proof fn lemma_rank(&self) {
        assert(self.0@.len() == 3);
        assert(self.entries().len() == 3);
        assert(Self::rank_ok(3));
        assert(Self::rank_ok(self.entries().len() as int));
    }

    fn ndim(&self) -> (n: usize) {
        proof {
            assert(self.0@.len() == 3);
            assert(self.entries().len() == 3);
        }
        3
    }

    fn get(&self, i: usize) -> (x: isize) {
        let x = self.0[i];
        proof {
            assert(x == self.entries()[i as int]);
        }
        x
    }

    fn set(&mut self, i: usize, x: isize) {
        self.0[i] = x;
        proof {
            assert(self.entries() =~= old(self).entries().update(i as int, x));
        }
    }

    fn zeros(n: usize) -> (r: Self) {
        let a: [isize; 3] = array_fill_for_copy_types(0isize);
        let r = Dims(a);
        proof {
            assert(r.0@.len() == 3);
            assert(r.entries().len() == 3);
            assert forall|i: int| 0 <= i < 3 implies r.entries()[i] == 0isize by {
                assert(r.0@[i] == 0isize);
            }
            assert(r.entries() =~= Seq::new(n as nat, |i: int| 0isize));
        }
        r
    }

    fn clone_dims(&self) -> (r: Self) {
        let r = Dims(self.0);
        proof {
            assert(r.entries() =~= self.entries());
        }
        r
    }

    fn from_values(v: &Vec<isize>) -> (r: Self) {
        let mut a: [isize; 3] = array_fill_for_copy_types(0isize);
        proof {
            assert(a@.len() == 3);
        }
        let mut i: usize = 0;
        while i < 3
            invariant
                i <= 3,
                v@.len() == 3,
                a@.len() == 3,
                forall|j: int| 0 <= j < i ==> #[trigger] a@[j] == v@[j],
            decreases 3 - i,
        {
            a[i] = v[i];
            i = i + 1;
        }
        let r = Dims(a);
        proof {
            assert(r.entries().len() == 3);
            assert(r.entries() =~= v@);
        }
        r
    }

    fn as_slice(&self) -> (r: &[isize]) {
        let s = self.0.as_slice();
        proof {
            assert(s@ == self.entries());
        }
        s
    }
}

impl Dims<[Ix; 4]> {
    /// The extents as a plain value.
    pub fn into_pattern(self) -> (p: (Ix, Ix, Ix, Ix))
        ensures
            p.0 == self.entries()[0],
            p.1 == self.entries()[1],
            p.2 == self.entries()[2],
            p.3 == self.entries()[3],
    {
        (self.0[0], self.0[1], self.0[2], self.0[3])
    }
}

impl Dimensions for Dims<[Ix; 4]> {
    open spec fn entries(&self) -> Seq<isize> {
        self.0@
    }

    open spec fn rank_ok(n: int) -> bool {
        n == 4
    }

    proof fn lemma_rank(&self) {
        assert(self.0@.len() == 4);
        assert(self.entries().len() == 4);
        assert(Self::rank_ok(4));
        assert(Self::rank_ok(self.entries().len() as int));
    }

    fn ndim(&self) -> (n: usize) {
        proof {
            assert(self.0@.len() == 4);
            assert(self.entries().len() == 4);
        }
        4
    }

    fn get(&self, i: usize) -> (x: isize) {
        let x = self.0[i];
        proof {
            assert(x == self.entries()[i as int]);
        }
        x
    }

    fn set(&mut self, i: usize, x: isize) {
        self.0[i] = x;
        proof {
            assert(self.entries() =~= old(self).entries().update(i as int, x));
        }
    }

    fn zeros(n: usize) -> (r: Self) {
        let a: [isize; 4] = array_fill_for_copy_types(0isize);
        let r = Dims(a);
        proof {
            assert(r.0@.len() == 4);
            assert(r.entries().len() == 4);
            assert forall|i: int| 0 <= i < 4 implies r.entries()[i] == 0isize by {
                assert(r.0@[i] == 0isize);
            }
            assert(r.entries() =~= Seq::new(n as nat, |i: int| 0isize));
        }
        r
    }

    fn clone_dims(&self) -> (r: Self) {
        let r = Dims(self.0);
        proof {
            assert(r.entries() =~= self.entries());
        }
        r
    }

    fn from_values(v: &Vec<isize>) -> (r: Self) {
        let mut a: [isize; 4] = array_fill_for_copy_types(0isize);
        proof {
            assert(a@.len() == 4);
        }
        let mut i: usize = 0;
        while i < 4
            invariant
                i <= 4,
                v@.len() == 4,
                a@.len() == 4,
                forall|j: int| 0 <= j < i ==> #[trigger] a@[j] == v@[j],
            decreases 4 - i,
        {
            a[i] = v[i];
            i = i + 1;
        }
        let r = Dims(a);
        proof {
            assert(r.entries().len() == 4);
            assert(r.entries() =~= v@);
        }
        r
    }

    fn as_slice(&self) -> (r: &[isize]) {
        let s = self.0.as_slice();
        proof {
            assert(s@ == self.entries());
        }
        s
    }
}

impl Dims<[Ix; 5]> {
    /// The extents as a plain value.
    pub fn into_pattern(self) -> (p: (Ix, Ix, Ix, Ix, Ix))
        ensures
            p.0 == self.entries()[0],
            p.1 == self.entries()[1],
            p.2 == self.entries()[2],
            p.3 == self.entries()[3],
            p.4 == self.entries()[4],
    {
        (self.0[0], self.0[1], self.0[2], self.0[3], self.0[4])
    }
}

impl Dimensions for Dims<[Ix; 5]> {
    open spec fn entries(&self) -> Seq<isize> {
        self.0@
    }

    open spec fn rank_ok(n: int) -> bool {
        n == 5
    }

    proof fn lemma_rank(&self) {
        assert(self.0@.len() == 5);
        assert(self.entries().len() == 5);
        assert(Self::rank_ok(5));
        assert(Self::rank_ok(self.entries().len() as int));
    }

    fn ndim(&self) -> (n: usize) {
        proof {
            assert(self.0@.len() == 5);
            assert(self.entries().len() == 5);
        }
        5
    }

    fn get(&self, i: usize) -> (x: isize) {
        let x = self.0[i];
        proof {
            assert(x == self.entries()[i as int]);
        }
        x
    }

    fn set(&mut self, i: usize, x: isize) {
        self.0[i] = x;
        proof {
            assert(self.entries() =~= old(self).entries().update(i as int, x));
        }
    }

    fn zeros(n: usize) -> (r: Self) {
        let a: [isize; 5] = array_fill_for_copy_types(0isize);
        let r = Dims(a);
        proof {
            assert(r.0@.len() == 5);
            assert(r.entries().len() == 5);
            assert forall|i: int| 0 <= i < 5 implies r.entries()[i] == 0isize by {
                assert(r.0@[i] == 0isize);
            }
            assert(r.entries() =~= Seq::new(n as nat, |i: int| 0isize));
        }
        r
    }

    fn clone_dims(&self) -> (r: Self) {
        let r = Dims(self.0);
        proof {
            assert(r.entries() =~= self.entries());
        }
        r
    }

    fn from_values(v: &Vec<isize>) -> (r: Self) {
        let mut a: [isize; 5] = array_fill_for_copy_types(0isize);
        proof {
            assert(a@.len() == 5);
        }
        let mut i: usize = 0;
        while i < 5
            invariant
                i <= 5,
                v@.len() == 5,
                a@.len() == 5,
                forall|j: int| 0 <= j < i ==> #[trigger] a@[j] == v@[j],
            decreases 5 - i,
        {
            a[i] = v[i];
            i = i + 1;
        }
        let r = Dims(a);
        proof {
            assert(r.entries().len() == 5);
            assert(r.entries() =~= v@);
        }
        r
    }

    fn as_slice(&self) -> (r: &[isize]) {
        let s = self.0.as_slice();
        proof {
            assert(s@ == self.entries());
        }
        s
    }
}

impl Dims<[Ix; 6]> {
    /// The extents as a plain value.
    pub fn into_pattern(self) -> (p: (Ix, Ix, Ix, Ix, Ix, Ix))
        ensures
            p.0 == self.entries()[0],
            p.1 == self.entries()[1],
            p.2 == self.entries()[2],
            p.3 == self.entries()[3],
            p.4 == self.entries()[4],
            p.5 == self.entries()[5],
    {
        (self.0[0], self.0[1], self.0[2], self.0[3], self.0[4], self.0[5])
    }
}

impl Dimensions for Dims<[Ix; 6]> {
    open spec fn entries(&self) -> Seq<isize> {
        self.0@
    }

    open spec fn rank_ok(n: int) -> bool {
        n == 6
    }

    proof fn lemma_rank(&self) {
        assert(self.0@.len() == 6);
        assert(self.entries().len() == 6);
        assert(Self::rank_ok(6));
        assert(Self::rank_ok(self.entries().len() as int));
    }

    fn ndim(&self) -> (n: usize) {
        proof {
            assert(self.0@.len() == 6);
            assert(self.entries().len() == 6);
        }
        6
    }

    fn get(&self, i: usize) -> (x: isize) {
        let x = self.0[i];
        proof {
            assert(x == self.entries()[i as int]);
        }
        x
    }

    fn set(&mut self, i: usize, x: isize) {
        self.0[i] = x;
        proof {
            assert(self.entries() =~= old(self).entries().update(i as int, x));
        }
    }

    fn zeros(n: usize) -> (r: Self) {
        let a: [isize; 6] = array_fill_for_copy_types(0isize);
        let r = Dims(a);
        proof {
            assert(r.0@.len() == 6);
            assert(r.entries().len() == 6);
            assert forall|i: int| 0 <= i < 6 implies r.entries()[i] == 0isize by {
                assert(r.0@[i] == 0isize);
            }
            assert(r.entries() =~= Seq::new(n as nat, |i: int| 0isize));
        }
        r
    }

    fn clone_dims(&self) -> (r: Self) {
        let r = Dims(self.0);
        proof {
            assert(r.entries() =~= self.entries());
        }
        r
    }

    fn from_values(v: &Vec<isize>) -> (r: Self) {
        let mut a: [isize; 6] = array_fill_for_copy_types(0isize);
        proof {
            assert(a@.len() == 6);
        }
        let mut i: usize = 0;
        while i < 6
            invariant
                i <= 6,
                v@.len() == 6,
                a@.len() == 6,
                forall|j: int| 0 <= j < i ==> #[trigger] a@[j] == v@[j],
            decreases 6 - i,
        {
            a[i] = v[i];
            i = i + 1;
        }
        let r = Dims(a);
        proof {
            assert(r.entries().len() == 6);
            assert(r.entries() =~= v@);
        }
        r
    }

    fn as_slice(&self) -> (r: &[isize]) {
        let s = self.0.as_slice();
        proof {
            assert(s@ == self.entries());
        }
        s
    }
}

impl Dims<[Ix; 7]> {
    /// The extents as a plain value.
    pub fn into_pattern(self) -> (p: (Ix, Ix, Ix, Ix, Ix, Ix, Ix))
        ensures
            p.0 == self.entries()[0],
            p.1 == self.entries()[1],
            p.2 == self.entries()[2],
            p.3 == self.entries()[3],
            p.4 == self.entries()[4],
            p.5 == self.entries()[5],
            p.6 == self.entries()[6],
    {
        (self.0[0], self.0[1], self.0[2], self.0[3], self.0[4], self.0[5], self.0[6])
    }
}

impl Dimensions for Dims<[Ix; 7]> {
    open spec fn entries(&self) -> Seq<isize> {
        self.0@
    }

    open spec fn rank_ok(n: int) -> bool {
        n == 7
    }

    proof fn lemma_rank(&self) {
        assert(self.0@.len() == 7);
        assert(self.entries().len() == 7);
        assert(Self::rank_ok(7));
        assert(Self::rank_ok(self.entries().len() as int));
    }

    fn ndim(&self) -> (n: usize) {
        proof {
            assert(self.0@.len() == 7);
            assert(self.entries().len() == 7);
        }
        7
    }

    fn get(&self, i: usize) -> (x: isize) {
        let x = self.0[i];
        proof {
            assert(x == self.entries()[i as int]);
        }
        x
    }

    fn set(&mut self, i: usize, x: isize) {
        self.0[i] = x;
        proof {
            assert(self.entries() =~= old(self).entries().update(i as int, x));
        }
    }

    fn zeros(n: usize) -> (r: Self) {
        let a: [isize; 7] = array_fill_for_copy_types(0isize);
        let r = Dims(a);
        proof {
            assert(r.0@.len() == 7);
            assert(r.entries().len() == 7);
            assert forall|i: int| 0 <= i < 7 implies r.entries()[i] == 0isize by {
                assert(r.0@[i] == 0isize);
            }
            assert(r.entries() =~= Seq::new(n as nat, |i: int| 0isize));
        }
        r
    }

    fn clone_dims(&self) -> (r: Self) {
        let r = Dims(self.0);
        proof {
            assert(r.entries() =~= self.entries());
        }
        r
    }

    fn from_values(v: &Vec<isize>) -> (r: Self) {
        let mut a: [isize; 7] = array_fill_for_copy_types(0isize);
        proof {
            assert(a@.len() == 7);
        }
        let mut i: usize = 0;
        while i < 7
            invariant
                i <= 7,
                v@.len() == 7,
                a@.len() == 7,
                forall|j: int| 0 <= j < i ==> #[trigger] a@[j] == v@[j],
            decreases 7 - i,
        {
            a[i] = v[i];
            i = i + 1;
        }
        let r = Dims(a);
        proof {
            assert(r.entries().len() == 7);
            assert(r.entries() =~= v@);
        }
        r
    }

    fn as_slice(&self) -> (r: &[isize]) {
        let s = self.0.as_slice();
        proof {
            assert(s@ == self.entries());
        }
        s
    }
}

impl Dims<[Ix; 8]> {
    /// The extents as a plain value.
    pub fn into_pattern(self) -> (p: (Ix, Ix, Ix, Ix, Ix, Ix, Ix, Ix))
        ensures
            p.0 == self.entries()[0],
            p.1 == self.entries()[1],
            p.2 == self.entries()[2],
            p.3 == self.entries()[3],
            p.4 == self.entries()[4],
            p.5 == self.entries()[5],
            p.6 == self.entries()[6],
            p.7 == self.entries()[7],
    {
        (self.0[0], self.0[1], self.0[2], self.0[3], self.0[4], self.0[5], self.0[6], self.0[7])
    }
}

impl Dimensions for Dims<[Ix; 8]> {
    open spec fn entries(&self) -> Seq<isize> {
        self.0@
    }

    open spec fn rank_ok(n: int) -> bool {
        n == 8
    }

    proof fn lemma_rank(&self) {
        assert(self.0@.len() == 8);
        assert(self.entries().len() == 8);
        assert(Self::rank_ok(8));
        assert(Self::rank_ok(self.entries().len() as int));
    }

    fn ndim(&self) -> (n: usize) {
        proof {
            assert(self.0@.len() == 8);
            assert(self.entries().len() == 8);
        }
        8
    }

    fn get(&self, i: usize) -> (x: isize) {
        let x = self.0[i];
        proof {
            assert(x == self.entries()[i as int]);
        }
        x
    }

    fn set(&mut self, i: usize, x: isize) {
        self.0[i] = x;
        proof {
            assert(self.entries() =~= old(self).entries().update(i as int, x));
        }
    }

    fn zeros(n: usize) -> (r: Self) {
        let a: [isize; 8] = array_fill_for_copy_types(0isize);
        let r = Dims(a);
        proof {
            assert(r.0@.len() == 8);
            assert(r.entries().len() == 8);
            assert forall|i: int| 0 <= i < 8 implies r.entries()[i] == 0isize by {
                assert(r.0@[i] == 0isize);
            }
            assert(r.entries() =~= Seq::new(n as nat, |i: int| 0isize));
        }
        r
    }

    fn clone_dims(&self) -> (r: Self) {
        let r = Dims(self.0);
        proof {
            assert(r.entries() =~= self.entries());
        }
        r
    }

    fn from_values(v: &Vec<isize>) -> (r: Self) {
        let mut a: [isize; 8] = array_fill_for_copy_types(0isize);
        proof {
            assert(a@.len() == 8);
        }
        let mut i: usize = 0;
        while i < 8
            invariant
                i <= 8,
                v@.len() == 8,
                a@.len() == 8,
                forall|j: int| 0 <= j < i ==> #[trigger] a@[j] == v@[j],
            decreases 8 - i,
        {
            a[i] = v[i];
            i = i + 1;
        }
        let r = Dims(a);
        proof {
            assert(r.entries().len() == 8);
            assert(r.entries() =~= v@);
        }
        r
    }

    fn as_slice(&self) -> (r: &[isize]) {
        let s = self.0.as_slice();
        proof {
            assert(s@ == self.entries());
        }
        s
    }
}

} // verus!
