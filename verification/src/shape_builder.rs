//! The shape builder: a dimension value paired with a stride policy
//! (row-major, column-major, or custom), resolved to concrete strides at
//! construction time.

use vstd::prelude::*;
use crate::dimension::dimensions_trait::{Dimensions, IntoDimension};
use crate::dimension::math::{
    default_strides_spec,
    dims_ok,
    fortran_strides_spec,
    sv,
};

verus! {

/// A stride policy: row-major, column-major, or explicitly given strides.
#[derive(Copy, Clone, Debug)]
pub enum Strides<D> {
    /// Row-major ("C" order).
    C,
    /// Column-major ("F" order).
    F,
    /// Explicitly given strides.
    Custom(D),
}

/// A shape with a row-major or column-major stride policy. A custom policy
/// is not representable here; it lives in `StridedShape`.
#[derive(Copy, Clone, Debug)]
pub struct Shape<D> {
    pub dims: D,
    pub f_order: bool,
}

/// A shape with explicitly given strides.
#[derive(Copy, Clone, Debug)]
pub struct StridedShape<D> {
    pub dims: D,
    pub strides: D,
}

impl<D: Dimensions> Shape<D> {
    /// The dimension value the shape carries.
    pub fn raw_dims(&self) -> (r: &D)
        ensures
            r == &self.dims,
    {
        &self.dims
    }

    /// The number of elements the shape addresses.
    pub fn size(&self) -> (r: usize)
        requires
            dims_ok(sv(self.dims.entries())),
        ensures
            r as int == crate::dimension::math::prod(sv(self.dims.entries())),
    {
        self.dims.size()
    }

    /// The stride policy the shape carries.
    pub fn policy(&self) -> (r: Strides<D>)
        ensures
            r is F <==> self.f_order,
            !(r is Custom),
    {
        if self.f_order {
            Strides::F
        } else {
            Strides::C
        }
    }
}

impl<D: Dimensions> Strides<D> {
    /// Resolve the policy against a dimension value: row-major or
    /// column-major strides are computed from it; custom strides must have
    /// its rank, and are taken as given.
    pub fn strides_for_dims(self, dims: &D) -> (r: D)
        requires
            dims_ok(sv(dims.entries())),
            self matches Strides::Custom(s) ==> s.entries().len() == dims.entries().len(),
        ensures
            self is C ==> sv(r.entries()) == default_strides_spec(sv(dims.entries())),
            self is F ==> sv(r.entries()) == fortran_strides_spec(sv(dims.entries())),
            self matches Strides::Custom(s) ==> r.entries() == s.entries(),
            r.entries().len() == dims.entries().len(),
    {
        match self {
            Strides::C => dims.default_strides(),
            Strides::F => dims.fortran_strides(),
            Strides::Custom(strides) => strides.clone_dims(),
        }
    }
}

/// A value that tensor constructors accept as a shape: it denotes a
/// dimension value and a row- or column-major order.
pub trait ShapeBuilder: Sized {
    type Dims: Dimensions;
    type Strides;

    /// The extents the builder denotes.
    spec fn dims_spec(&self) -> Seq<isize>;

    /// Whether the builder selects column-major order.
    spec fn f_spec(&self) -> bool;

    fn into_shape(self) -> (r: Shape<Self::Dims>)
        ensures
            r.dims.entries() == self.dims_spec(),
            r.f_order == self.f_spec(),
    ;

    /// Select column-major order.
    fn f(self) -> (r: Shape<Self::Dims>)
        ensures
            r.dims.entries() == self.dims_spec(),
            r.f_order,
    ;

    /// Select column-major order when the flag is set, else row-major.
    fn set_f(self, is_f: bool) -> (r: Shape<Self::Dims>)
        ensures
            r.dims.entries() == self.dims_spec(),
            r.f_order == is_f,
    ;

    /// Replace the policy with explicitly given strides.
    fn strides(self, strides: Self::Strides) -> (r: StridedShape<Self::Dims>);
}

impl<T: IntoDimension> ShapeBuilder for T {
    type Dims = T::Dims;

    type Strides = T;

    open spec fn dims_spec(&self) -> Seq<isize> {
        IntoDimension::dims_spec(self)
    }

    open spec fn f_spec(&self) -> bool {
        false
    }

    fn into_shape(self) -> (r: Shape<Self::Dims>) {
        Shape { dims: self.into_dimension(), f_order: false }
    }

    fn f(self) -> (r: Shape<Self::Dims>) {
        Shape { dims: self.into_dimension(), f_order: true }
    }

    fn set_f(self, is_f: bool) -> (r: Shape<Self::Dims>) {
        Shape { dims: self.into_dimension(), f_order: is_f }
    }

    fn strides(self, strides: Self::Strides) -> (r: StridedShape<Self::Dims>) {
        StridedShape { dims: self.into_dimension(), strides: strides.into_dimension() }
    }
}

impl<D: Dimensions> ShapeBuilder for Shape<D> {
    type Dims = D;

    type Strides = D;

    open spec fn dims_spec(&self) -> Seq<isize> {
        self.dims.entries()
    }

    open spec fn f_spec(&self) -> bool {
        self.f_order
    }

    fn into_shape(self) -> (r: Shape<Self::Dims>) {
        self
    }

    fn f(self) -> (r: Shape<Self::Dims>) {
        Shape { dims: self.dims, f_order: true }
    }

    fn set_f(self, is_f: bool) -> (r: Shape<Self::Dims>) {
        Shape { dims: self.dims, f_order: is_f }
    }

    fn strides(self, strides: Self::Strides) -> (r: StridedShape<Self::Dims>) {
        StridedShape { dims: self.dims, strides }
    }
}

} // verus!
