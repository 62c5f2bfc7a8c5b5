//! Conversions of shape literals (arrays and tuples of machine integers)
//! into dimension values.

use vstd::prelude::*;
use crate::index::Ix;
use crate::dimension::dims::Dims;
use crate::dimension::dimensions_trait::{Dimensions, IntoDimension};

verus! {

broadcast use vstd::array::group_array_axioms;

impl IntoDimension for [Ix; 0] {
    type Dims = Dims<[Ix; 0]>;

    open spec fn dims_spec(&self) -> Seq<isize> {
        self@
    }

    fn into_dimension(self) -> (r: Self::Dims) {
        let r = Dims::new(self);
        proof {
            assert(r.entries() == self@);
        }
        r
    }
}

impl IntoDimension for [Ix; 1] {
    type Dims = Dims<[Ix; 1]>;

    open spec fn dims_spec(&self) -> Seq<isize> {
        self@
    }

    fn into_dimension(self) -> (r: Self::Dims) {
        let r = Dims::new(self);
        proof {
            assert(r.entries() == self@);
        }
        r
    }
}

impl IntoDimension for [Ix; 2] {
    type Dims = Dims<[Ix; 2]>;

    open spec fn dims_spec(&self) -> Seq<isize> {
        self@
    }

    fn into_dimension(self) -> (r: Self::Dims) {
        let r = Dims::new(self);
        proof {
            assert(r.entries() == self@);
        }
        r
    }
}

impl IntoDimension for [Ix; 3] {
    type Dims = Dims<[Ix; 3]>;

    open spec fn dims_spec(&self) -> Seq<isize> {
        self@
    }

    fn into_dimension(self) -> (r: Self::Dims) {
        let r = Dims::new(self);
        proof {
            assert(r.entries() == self@);
        }
        r
    }
}

impl IntoDimension for [Ix; 4] {
    type Dims = Dims<[Ix; 4]>;

    open spec fn dims_spec(&self) -> Seq<isize> {
        self@
    }

    fn into_dimension(self) -> (r: Self::Dims) {
        let r = Dims::new(self);
        proof {
            assert(r.entries() == self@);
        }
        r
    }
}

impl IntoDimension for [Ix; 5] {
    type Dims = Dims<[Ix; 5]>;

    open spec fn dims_spec(&self) -> Seq<isize> {
        self@
    }

    fn into_dimension(self) -> (r: Self::Dims) {
        let r = Dims::new(self);
        proof {
            assert(r.entries() == self@);
        }
        r
    }
}

impl IntoDimension for [Ix; 6] {
    type Dims = Dims<[Ix; 6]>;

    open spec fn dims_spec(&self) -> Seq<isize> {
        self@
    }

    fn into_dimension(self) -> (r: Self::Dims) {
        let r = Dims::new(self);
        proof {
            assert(r.entries() == self@);
        }
        r
    }
}

impl IntoDimension for [Ix; 7] {
    type Dims = Dims<[Ix; 7]>;

    open spec fn dims_spec(&self) -> Seq<isize> {
        self@
    }

    fn into_dimension(self) -> (r: Self::Dims) {
        let r = Dims::new(self);
        proof {
            assert(r.entries() == self@);
        }
        r
    }
}

impl IntoDimension for [Ix; 8] {
    type Dims = Dims<[Ix; 8]>;

    open spec fn dims_spec(&self) -> Seq<isize> {
        self@
    }

    fn into_dimension(self) -> (r: Self::Dims) {
        let r = Dims::new(self);
        proof {
            assert(r.entries() == self@);
        }
        r
    }
}

impl IntoDimension for () {
    type Dims = Dims<[Ix; 0]>;

    open spec fn dims_spec(&self) -> Seq<isize> {
        Seq::empty()
    }

    fn into_dimension(self) -> (r: Self::Dims) {
        let a: [isize; 0] = vstd::array::array_fill_for_copy_types(0isize);
        let r = Dims::new(a);
        proof {
            assert(r.entries() =~= Seq::<isize>::empty());
        }
        r
    }
}

impl IntoDimension for Ix {
    type Dims = Dims<[Ix; 1]>;

    open spec fn dims_spec(&self) -> Seq<isize> {
        seq![*self]
    }

    fn into_dimension(self) -> (r: Self::Dims) {
        let r = Dims::new([self]);
        proof {
            assert(r.entries() =~= seq![self]);
        }
        r
    }
}

impl IntoDimension for (Ix, Ix) {
    type Dims = Dims<[Ix; 2]>;

    open spec fn dims_spec(&self) -> Seq<isize> {
        seq![self.0, self.1]
    }

    fn into_dimension(self) -> (r: Self::Dims) {
        let r = Dims::new([self.0, self.1]);
        proof {
            assert(r.entries() =~= seq![self.0, self.1]);
        }
        r
    }
}

impl IntoDimension for (Ix, Ix, Ix) {
    type Dims = Dims<[Ix; 3]>;

    open spec fn dims_spec(&self) -> Seq<isize> {
        seq![self.0, self.1, self.2]
    }

    fn into_dimension(self) -> (r: Self::Dims) {
        let r = Dims::new([self.0, self.1, self.2]);
        proof {
            assert(r.entries() =~= seq![self.0, self.1, self.2]);
        }
        r
    }
}

impl IntoDimension for (Ix, Ix, Ix, Ix) {
    type Dims = Dims<[Ix; 4]>;

    open spec fn dims_spec(&self) -> Seq<isize> {
        seq![self.0, self.1, self.2, self.3]
    }

    fn into_dimension(self) -> (r: Self::Dims) {
        let r = Dims::new([self.0, self.1, self.2, self.3]);
        proof {
            assert(r.entries() =~= seq![self.0, self.1, self.2, self.3]);
        }
        r
    }
}

impl IntoDimension for (Ix, Ix, Ix, Ix, Ix) {
    type Dims = Dims<[Ix; 5]>;

    open spec fn dims_spec(&self) -> Seq<isize> {
        seq![self.0, self.1, self.2, self.3, self.4]
    }

    fn into_dimension(self) -> (r: Self::Dims) {
        let r = Dims::new([self.0, self.1, self.2, self.3, self.4]);
        proof {
            assert(r.entries() =~= seq![self.0, self.1, self.2, self.3, self.4]);
        }
        r
    }
}

impl IntoDimension for (Ix, Ix, Ix, Ix, Ix, Ix) {
    type Dims = Dims<[Ix; 6]>;

    open spec fn dims_spec(&self) -> Seq<isize> {
        seq![self.0, self.1, self.2, self.3, self.4, self.5]
    }

    fn into_dimension(self) -> (r: Self::Dims) {
        let r = Dims::new([self.0, self.1, self.2, self.3, self.4, self.5]);
        proof {
            assert(r.entries() =~= seq![self.0, self.1, self.2, self.3, self.4, self.5]);
        }
        r
    }
}

impl IntoDimension for (Ix, Ix, Ix, Ix, Ix, Ix, Ix) {
    type Dims = Dims<[Ix; 7]>;

    open spec fn dims_spec(&self) -> Seq<isize> {
        seq![self.0, self.1, self.2, self.3, self.4, self.5, self.6]
    }

    fn into_dimension(self) -> (r: Self::Dims) {
        let r = Dims::new([self.0, self.1, self.2, self.3, self.4, self.5, self.6]);
        proof {
            assert(r.entries() =~= seq![self.0, self.1, self.2, self.3, self.4, self.5, self.6]);
        }
        r
    }
}

impl IntoDimension for (Ix, Ix, Ix, Ix, Ix, Ix, Ix, Ix) {
    type Dims = Dims<[Ix; 8]>;

    open spec fn dims_spec(&self) -> Seq<isize> {
        seq![self.0, self.1, self.2, self.3, self.4, self.5, self.6, self.7]
    }

    fn into_dimension(self) -> (r: Self::Dims) {
        let r = Dims::new([self.0, self.1, self.2, self.3, self.4, self.5, self.6, self.7]);
        proof {
            assert(r.entries() =~= seq![self.0, self.1, self.2, self.3, self.4, self.5, self.6, self.7]);
        }
        r
    }
}

} // verus!
