//! The tensor: a storage value, a base offset into it, and a shape and
//! stride pair of matching rank.

use vstd::prelude::*;
use crate::backend::{Allocator, Backend, MemOps};
use crate::dimension::dimensions_trait::Dimensions;
use crate::dimension::math::{
    all_positive,
    dims_ok,
    default_strides_spec,
    dot,
    fortran_strides_spec,
    is_extents,
    lemma_default_strides_nonneg,
    lemma_dot_bounds,
    lemma_fortran_strides_nonneg,
    lemma_low_offset_le_span,
    lemma_low_offset_nonneg,
    lemma_prod_le_prod_nz,
    lemma_prod_nonneg,
    lemma_prod_pos_iff,
    lemma_span_col_major,
    lemma_span_row_major,
    low_offset,
    prod,
    prod_nz,
    span_sum,
    sv,
    valid_idx,
};
use crate::dimension::order::{
    is_contiguous_spec,
    lemma_default_strides_contiguous,
    lemma_fortran_strides_contiguous,
};
use crate::dimension::dims_max::{DimsMax, DimsMaxOf};
use crate::dimension::dimensions_trait::dims_entries_equal;
use crate::dimension::math::{lemma_sv_injective, lemma_low_offset_nonneg as lemma_low_nonneg_strides, row_major_strides};
use crate::elem::Elem;
use crate::error::{OmniError, OmniResult, ShapeError};
use crate::ops::Ops;
use crate::offset_from_low_addr_ptr_to_logical_ptr;
use crate::shape_builder::ShapeBuilder;
use crate::storage::owned_storage::{OwnedStorage, OwnedArcStorage};
use crate::storage::traits::{RawStorage, RawStorageClone, StorageOwned};

verus! {

/// A tensor: storage, a base offset into it, and shape and strides of equal
/// rank. Strides may be negative; the base never lies below the start of the
/// buffer by more than the low-address offset.
pub struct TensorBase<S, D> {
    pub storage: S,
    pub ptr: usize,
    pub dims: D,
    pub strides: D,
}

/// A tensor over exclusively owned storage.
pub type Tensor<T, B, D> = TensorBase<OwnedStorage<T, B>, D>;

/// An owned tensor on the host CPU.
pub type HostTensor<T, D> = TensorBase<OwnedStorage<T, crate::backend::cpu::CpuBackend>, D>;

pub type HostTensor0D<T> = HostTensor<T, crate::dimension::dims::Dims0>;

pub type HostTensor1D<T> = HostTensor<T, crate::dimension::dims::Dims1>;

pub type HostTensor2D<T> = HostTensor<T, crate::dimension::dims::Dims2>;

pub type HostTensor3D<T> = HostTensor<T, crate::dimension::dims::Dims3>;

pub type HostTensor4D<T> = HostTensor<T, crate::dimension::dims::Dims4>;

pub type HostTensor5D<T> = HostTensor<T, crate::dimension::dims::Dims5>;

pub type HostTensor6D<T> = HostTensor<T, crate::dimension::dims::Dims6>;

pub type HostTensor7D<T> = HostTensor<T, crate::dimension::dims::Dims7>;

pub type HostTensor8D<T> = HostTensor<T, crate::dimension::dims::Dims8>;

/// A tensor over shared (reference-counted) storage.
pub type ArcTensor<T, B, D> = TensorBase<OwnedArcStorage<T, B>, D>;

impl<S: RawStorage, D: Dimensions> TensorBase<S, D> {
    /// The extents as integers.
    pub open spec fn dims_seq(&self) -> Seq<int> {
        sv(self.dims.entries())
    }

    /// The strides as integers.
    pub open spec fn strides_seq(&self) -> Seq<int> {
        sv(self.strides.entries())
    }

    /// The elements of the backing buffer.
    pub open spec fn contents(&self) -> Seq<S::Elem> {
        self.storage.contents()
    }

    /// The number of logical elements.
    pub open spec fn size_spec(&self) -> int {
        prod(self.dims_seq())
    }

    /// The lowest address the tensor reaches.
    pub open spec fn low_spec(&self) -> int {
        self.ptr - low_offset(self.dims_seq(), self.strides_seq())
    }

    /// The buffer position of a logical multi-index.
    pub open spec fn addr_of(&self, idx: Seq<int>) -> int {
        self.ptr + dot(idx, self.strides_seq())
    }

    /// The element at a logical multi-index.
    pub open spec fn elem_at(&self, idx: Seq<int>) -> S::Elem {
        self.contents()[self.addr_of(idx)]
    }

    /// Whether the dimension is contiguous under the strides.
    pub open spec fn is_contiguous_spec(&self) -> bool {
        is_contiguous_spec(self.dims_seq(), self.strides_seq())
    }

    /// The visible elements, from the lowest reachable address up: the run a
    /// contiguous tensor occupies.
    pub open spec fn mem_order_seq(&self) -> Seq<S::Elem> {
        if self.size_spec() == 0 {
            Seq::empty()
        } else {
            self.contents().subrange(self.low_spec(), self.low_spec() + self.size_spec())
        }
    }

    /// Well-formedness: extents are legal and addressable, ranks agree,
    /// every reachable address lies in the buffer, and a contiguous layout
    /// occupies a dense run that fits the buffer.
    pub open spec fn wf(&self) -> bool {
        let d = self.dims_seq();
        let s = self.strides_seq();
        &&& is_extents(d)
        &&& s.len() == d.len()
        &&& d.len() <= isize::MAX as int
        &&& prod_nz(d) <= isize::MAX as int
        &&& self.contents().len() <= isize::MAX as int
        &&& self.ptr as int <= self.contents().len()
        &&& (prod(d) > 0 ==> low_offset(d, s) <= self.ptr as int)
        &&& forall|idx: Seq<int>|
            valid_idx(idx, d) ==> 0 <= #[trigger] self.addr_of(idx) < self.contents().len()
        &&& (is_contiguous_spec(d, s) && prod(d) > 0 ==> {
            &&& self.low_spec() + prod(d) <= self.contents().len()
            &&& span_sum(d, s) == prod(d) - 1
        })
    }

    /// The shape.
    pub fn shape(&self) -> (r: &D)
        ensures
            r == &self.dims,
    {
        &self.dims
    }

    /// The strides.
    pub fn strides(&self) -> (r: &D)
        ensures
            r == &self.strides,
    {
        &self.strides
    }

    /// The rank.
    pub fn ndim(&self) -> (n: usize)
        ensures
            n as int == self.dims_seq().len(),
    {
        self.dims.ndim()
    }

    /// Bundle storage, base offset, shape and strides into a tensor.
    pub fn from_storage(storage: S, ptr: usize, dims: D, strides: D) -> (r: Self)
        ensures
            r.storage == storage,
            r.ptr == ptr,
            r.dims == dims,
            r.strides == strides,
    {
        TensorBase { storage, ptr, dims, strides }
    }

    /// Whether the tensor's elements occupy a dense run of the buffer.
    pub fn is_contiguous(&self) -> (r: bool)
        requires
            self.wf(),
        ensures
            r == self.is_contiguous_spec(),
    {
        D::is_contiguous(&self.dims, &self.strides)
    }

    /// The visible elements as one borrowed slice in memory order, when the
    /// layout is contiguous.
    pub fn as_slice_memory_order(&self) -> (r: Option<&[S::Elem]>)
        requires
            self.wf(),
        ensures
            r is Some <==> self.is_contiguous_spec(),
            r matches Some(s) ==> s@ == self.mem_order_seq(),
    {
        if !self.is_contiguous() {
            return None;
        }
        let size = self.dims.size();
        if size == 0 {
            let s = self.storage.subslice(0, 0);
            proof {
                assert(s@ =~= self.mem_order_seq());
            }
            return Some(s);
        }
        let off = offset_from_low_addr_ptr_to_logical_ptr(&self.dims, &self.strides);
        let low = self.ptr - off;
        let s = self.storage.subslice(low, low + size);
        Some(s)
    }
}


/// A tensor with the same components as a well-formed one is well-formed and
/// holds the same elements.
pub proof fn lemma_wf_like<S1: RawStorage, S2: RawStorage<Elem = S1::Elem>, D1: Dimensions, D2: Dimensions>(
    a: &TensorBase<S1, D1>,
    b: &TensorBase<S2, D2>,
)
    requires
        a.wf(),
        b.dims_seq() == a.dims_seq(),
        b.strides_seq() == a.strides_seq(),
        b.contents() == a.contents(),
        b.ptr == a.ptr,
    ensures
        b.wf(),
        forall|idx: Seq<int>|
            valid_idx(idx, a.dims_seq()) ==> #[trigger] b.elem_at(idx) == a.elem_at(idx),
{
    assert forall|idx: Seq<int>| valid_idx(idx, b.dims_seq()) implies 0 <= #[trigger] b.addr_of(
        idx,
    ) < b.contents().len() by {
        assert(b.addr_of(idx) == a.addr_of(idx));
        assert(0 <= a.addr_of(idx) < a.contents().len());
    }
    assert forall|idx: Seq<int>| valid_idx(idx, a.dims_seq()) implies #[trigger] b.elem_at(idx)
        == a.elem_at(idx) by {
        assert(b.addr_of(idx) == a.addr_of(idx));
    }
}

impl<T, B, S, D> TensorBase<S, D> where
    T: Copy,
    B: Backend,
    S: RawStorage<Elem = T, Backend = B>,
    D: Dimensions,
 {
    /// An immutable view sharing this tensor's buffer, shape and strides.
    pub fn view<'a>(&'a self) -> (r: crate::tensor_view::TensorView<'a, T, B, D>)
        requires
            self.wf(),
        ensures
            r.wf(),
            r.ptr == self.ptr,
            r.contents() == self.contents(),
            r.dims.entries() == self.dims.entries(),
            r.strides.entries() == self.strides.entries(),
            forall|idx: Seq<int>|
                valid_idx(idx, self.dims_seq()) ==> #[trigger] r.elem_at(idx) == self.elem_at(idx),
    {
        let n = self.storage.len();
        let data = self.storage.subslice(0, n);
        proof {
            assert(data@ =~= self.contents());
        }
        let r = TensorBase {
            storage: crate::storage::view_storage::ViewStorage::new(data, self.storage.backend()),
            ptr: self.ptr,
            dims: self.dims.clone_dims(),
            strides: self.strides.clone_dims(),
        };
        proof {
            lemma_wf_like(self, &r);
        }
        r
    }

    /// A fresh exclusively owned tensor holding the visible elements, with
    /// the same shape and strides, its buffer exactly the visible run.
    pub fn to_owned(&self) -> (r: TensorBase<OwnedStorage<T, B>, D>)
        requires
            self.wf(),
            self.is_contiguous_spec(),
        ensures
            r.wf(),
            r.dims.entries() == self.dims.entries(),
            r.strides.entries() == self.strides.entries(),
            r.contents() == self.mem_order_seq(),
            r.mem_order_seq() == self.mem_order_seq(),
            r.is_contiguous_spec(),
            forall|idx: Seq<int>|
                valid_idx(idx, self.dims_seq()) ==> #[trigger] r.elem_at(idx) == self.elem_at(idx),
    {
        let ghost d = self.dims_seq();
        let ghost s = self.strides_seq();
        let size = self.dims.size();
        let backend = self.storage.backend();
        if size == 0 {
            let buf: Vec<T> = Vec::new();
            let storage = OwnedStorage::from_buffer(buf, backend);
            let r = TensorBase {
                storage,
                ptr: 0usize,
                dims: self.dims.clone_dims(),
                strides: self.strides.clone_dims(),
            };
            proof {
                assert(r.mem_order_seq() =~= self.mem_order_seq());
                assert forall|idx: Seq<int>| valid_idx(idx, d) implies 0 <= #[trigger] r.addr_of(
                    idx,
                ) < r.contents().len() by {
                    lemma_prod_pos_iff(d);
                    assert forall|i: int| 0 <= i < d.len() implies #[trigger] d[i] >= 1 by {
                        assert(0 <= idx[i] < d[i]);
                    }
                }
            }
            return r;
        }
        let off = offset_from_low_addr_ptr_to_logical_ptr(&self.dims, &self.strides);
        let low = self.ptr - off;
        let src = self.storage.subslice(low, low + size);
        let first = src[0];
        let mut buf = backend.allocate(first, size);
        backend.copy(src, &mut buf);
        let storage = OwnedStorage::from_buffer(buf, backend);
        let r = TensorBase {
            storage,
            ptr: off,
            dims: self.dims.clone_dims(),
            strides: self.strides.clone_dims(),
        };
        proof {
            assert(r.contents() =~= self.mem_order_seq());
            lemma_prod_nonneg(d);
            lemma_prod_le_prod_nz(d);
            lemma_prod_pos_iff(d);
            assert(all_positive(d));
            lemma_low_offset_le_span(d, s);
            assert(span_sum(d, s) == prod(d) - 1);
            assert(r.low_spec() == 0);
            assert forall|idx: Seq<int>| valid_idx(idx, d) implies {
                &&& 0 <= #[trigger] r.addr_of(idx) < r.contents().len()
                &&& r.elem_at(idx) == self.elem_at(idx)
            } by {
                lemma_dot_bounds(idx, d, s);
                assert(r.addr_of(idx) == off + dot(idx, s));
                assert(0 <= dot(idx, s) + low_offset(d, s) <= span_sum(d, s));
                assert(span_sum(d, s) == prod(d) - 1);
                assert(r.contents()[off + dot(idx, s)] == self.contents()[low + off + dot(idx, s)]);
            }
            assert(r.mem_order_seq() =~= self.mem_order_seq());
        }
        r
    }
}

impl<T, B, S, D> TensorBase<S, D> where
    T: Copy,
    B: Backend,
    S: StorageOwned<Elem = T, Backend = B>,
    D: Dimensions,
 {
    /// Move the tensor onto shared (reference-counted) storage without
    /// copying; the base offset is preserved.
    pub fn into_shared(self) -> (r: TensorBase<OwnedArcStorage<T, B>, D>)
        requires
            self.wf(),
        ensures
            r.wf(),
            r.contents() == self.contents(),
            r.ptr == self.ptr,
            r.dims.entries() == self.dims.entries(),
            r.strides.entries() == self.strides.entries(),
            forall|idx: Seq<int>|
                valid_idx(idx, self.dims_seq()) ==> #[trigger] r.elem_at(idx) == self.elem_at(idx),
    {
        let TensorBase { storage, ptr, dims, strides } = self;
        let shared = storage.into_shared();
        let r = TensorBase { storage: shared, ptr, dims, strides };
        proof {
            lemma_wf_like(&self, &r);
        }
        r
    }


    /// A tensor of the given shape whose elements all hold `elem`, laid out
    /// by the shape's stride policy.
    pub fn from_elem<Sh: ShapeBuilder<Dims = D>>(shape: Sh, elem: T) -> (r: Self)
        requires
            dims_ok(sv(shape.dims_spec())),
            shape.dims_spec().len() <= isize::MAX as int,
        ensures
            r.wf(),
            r.dims.entries() == shape.dims_spec(),
            sv(r.strides.entries()) == (if shape.f_spec() {
                fortran_strides_spec(sv(shape.dims_spec()))
            } else {
                default_strides_spec(sv(shape.dims_spec()))
            }),
            r.ptr == 0usize,
            r.contents() == Seq::new(prod(sv(shape.dims_spec())) as nat, |i: int| elem),
            r.is_contiguous_spec(),
    {
        let ghost f_order = shape.f_spec();
        let shape = shape.into_shape();
        let policy = shape.policy();
        let dims = shape.dims;
        let ghost d = sv(dims.entries());
        let strides = policy.strides_for_dims(&dims);
        let ghost s = sv(strides.entries());
        let size = dims.size();
        let (mut storage, ptr) = S::empty(size, B::default(), elem);
        storage.fill(elem);
        let r = TensorBase { storage, ptr, dims, strides };
        proof {
            if f_order {
                lemma_fortran_strides_contiguous(d);
                lemma_fortran_strides_nonneg(d);
            } else {
                lemma_default_strides_contiguous(d);
                lemma_default_strides_nonneg(d);
            }
            assert forall|i: int| 0 <= i < s.len() implies #[trigger] s[i] >= 0 by {
                if f_order {
                    assert(s[i] == fortran_strides_spec(d)[i]);
                } else {
                    assert(s[i] == default_strides_spec(d)[i]);
                }
            }
            lemma_low_offset_nonneg(d, s);
            lemma_prod_nonneg(d);
            lemma_prod_le_prod_nz(d);
            assert forall|idx: Seq<int>| valid_idx(idx, d) implies 0 <= #[trigger] r.addr_of(idx)
                < r.contents().len() by {
                lemma_dot_bounds(idx, d, s);
                assert forall|i: int| 0 <= i < d.len() implies #[trigger] d[i] >= 1 by {
                    assert(0 <= idx[i] < d[i]);
                }
                assert(all_positive(d));
                if f_order {
                    lemma_span_col_major(d);
                } else {
                    lemma_span_row_major(d);
                }
            }
            if prod(d) > 0 {
                lemma_prod_pos_iff(d);
                if f_order {
                    lemma_span_col_major(d);
                } else {
                    lemma_span_row_major(d);
                }
            }
        }
        r
    }

    /// A tensor of the given shape over an unspecified buffer of the right
    /// size; the caller fills it.
    pub fn empty<Sh: ShapeBuilder<Dims = D>>(shape: Sh, fill: T) -> (r: Self)
        requires
            dims_ok(sv(shape.dims_spec())),
            shape.dims_spec().len() <= isize::MAX as int,
        ensures
            r.wf(),
            r.dims.entries() == shape.dims_spec(),
            sv(r.strides.entries()) == (if shape.f_spec() {
                fortran_strides_spec(sv(shape.dims_spec()))
            } else {
                default_strides_spec(sv(shape.dims_spec()))
            }),
            r.ptr == 0usize,
            r.contents().len() == prod(sv(shape.dims_spec())),
            r.is_contiguous_spec(),
    {
        let ghost pn = prod(sv(shape.dims_spec()));
        proof {
            lemma_prod_nonneg(sv(shape.dims_spec()));
        }
        let r = Self::from_elem(shape, fill);
        proof {
            assert(r.contents().len() == Seq::new(pn as nat, |i: int| fill).len());
        }
        r
    }
}

impl<T, B, S, D> TensorBase<S, D> where
    T: Elem,
    B: Backend,
    S: StorageOwned<Elem = T, Backend = B>,
    D: Dimensions,
 {
    /// A tensor of the given shape whose elements are all zero.
    pub fn zeros<Sh: ShapeBuilder<Dims = D>>(shape: Sh) -> (r: Self)
        requires
            dims_ok(sv(shape.dims_spec())),
            shape.dims_spec().len() <= isize::MAX as int,
        ensures
            r.wf(),
            r.dims.entries() == shape.dims_spec(),
            sv(r.strides.entries()) == (if shape.f_spec() {
                fortran_strides_spec(sv(shape.dims_spec()))
            } else {
                default_strides_spec(sv(shape.dims_spec()))
            }),
            r.ptr == 0usize,
            r.contents() == Seq::new(prod(sv(shape.dims_spec())) as nat, |i: int| T::zero_spec()),
            r.is_contiguous_spec(),
    {
        let ghost pn = prod(sv(shape.dims_spec())) as nat;
        let r = Self::from_elem(shape, T::zero());
        proof {
            assert(r.contents() =~= Seq::new(pn, |i: int| T::zero_spec()));
        }
        r
    }

    /// A tensor of the given shape whose elements are all one.
    pub fn ones<Sh: ShapeBuilder<Dims = D>>(shape: Sh) -> (r: Self)
        requires
            dims_ok(sv(shape.dims_spec())),
            shape.dims_spec().len() <= isize::MAX as int,
        ensures
            r.wf(),
            r.dims.entries() == shape.dims_spec(),
            sv(r.strides.entries()) == (if shape.f_spec() {
                fortran_strides_spec(sv(shape.dims_spec()))
            } else {
                default_strides_spec(sv(shape.dims_spec()))
            }),
            r.ptr == 0usize,
            r.contents() == Seq::new(prod(sv(shape.dims_spec())) as nat, |i: int| T::one_spec()),
            r.is_contiguous_spec(),
    {
        let ghost pn = prod(sv(shape.dims_spec())) as nat;
        let r = Self::from_elem(shape, T::one());
        proof {
            assert(r.contents() =~= Seq::new(pn, |i: int| T::one_spec()));
        }
        r
    }
}

impl<T, B, S, D> TensorBase<S, D> where
    T: Copy,
    B: Backend,
    S: StorageOwned<Elem = T, Backend = B> + crate::storage::traits::RawStorageMut,
    D: Dimensions,
 {
    /// Write one value to every slot of the backing buffer.
    pub fn fill(&mut self, value: T)
        requires
            old(self).wf(),
        ensures
            final(self).wf(),
            final(self).ptr == old(self).ptr,
            final(self).dims.entries() == old(self).dims.entries(),
            final(self).strides.entries() == old(self).strides.entries(),
            final(self).contents() == Seq::new(old(self).contents().len(), |i: int| value),
            forall|idx: Seq<int>|
                valid_idx(idx, old(self).dims_seq()) ==> #[trigger] final(self).elem_at(idx)
                    == value,
    {
        self.storage.fill(value);
        proof {
            assert forall|idx: Seq<int>| valid_idx(idx, self.dims_seq()) implies {
                &&& 0 <= #[trigger] self.addr_of(idx) < self.contents().len()
                &&& self.elem_at(idx) == value
            } by {
                assert(self.addr_of(idx) == old(self).addr_of(idx));
                assert(0 <= old(self).addr_of(idx) < old(self).contents().len());
            }
        }
    }
}

impl<S: RawStorageClone, D: Dimensions> TensorBase<S, D> {
    /// A tensor with the same shape, strides and elements; owned storage is
    /// copied, shared storage gains a handle, views stay shallow.
    pub fn clone(&self) -> (r: Self)
        requires
            self.wf(),
        ensures
            r.wf(),
            r.contents() == self.contents(),
            r.ptr == self.ptr,
            r.dims.entries() == self.dims.entries(),
            r.strides.entries() == self.strides.entries(),
            forall|idx: Seq<int>|
                valid_idx(idx, self.dims_seq()) ==> #[trigger] r.elem_at(idx) == self.elem_at(idx),
    {
        let (storage, ptr) = self.storage.clone_with_ptr(self.ptr);
        let r = TensorBase {
            storage,
            ptr,
            dims: self.dims.clone_dims(),
            strides: self.strides.clone_dims(),
        };
        proof {
            lemma_wf_like(self, &r);
        }
        r
    }

    /// Make this tensor a copy of `other`, reusing this tensor's allocation
    /// where the storage family allows.
    pub fn clone_from(&mut self, other: &Self)
        requires
            other.wf(),
        ensures
            final(self).wf(),
            final(self).contents() == other.contents(),
            final(self).ptr == other.ptr,
            final(self).dims.entries() == other.dims.entries(),
            final(self).strides.entries() == other.strides.entries(),
    {
        self.ptr = self.storage.clone_from_with_ptr(&other.storage, other.ptr);
        self.dims = other.dims.clone_dims();
        self.strides = other.strides.clone_dims();
        proof {
            lemma_wf_like(other, self);
        }
    }
}

impl<T, B, S, D> TensorBase<S, D> where
    T: Elem,
    B: Backend,
    S: RawStorage<Elem = T, Backend = B>,
    D: Dimensions,
 {
    /// Element-wise addition: defined when the operand shapes, strides and
    /// contiguity agree; the result is an owned tensor with the operands'
    /// shape and strides.
    pub fn add<S2, D2>(&self, rhs: &TensorBase<S2, D2>) -> (r: OmniResult<
        TensorBase<OwnedStorage<T, B>, DimsMaxOf<D, D2>>,
    >) where
        S2: RawStorage<Elem = T, Backend = B>,
        D2: Dimensions,
        D: DimsMax<D2>,

        requires
            self.wf(),
            rhs.wf(),
            (self.dims_seq() == rhs.dims_seq() && self.strides_seq() == rhs.strides_seq()
                && self.is_contiguous_spec()) ==> forall|i: int|
                0 <= i < self.size_spec() ==> (#[trigger] self.mem_order_seq()[i]).add_ok(
                    rhs.mem_order_seq()[i],
                ),
        ensures
            r is Ok <==> (self.dims_seq() == rhs.dims_seq() && self.strides_seq()
                == rhs.strides_seq() && self.is_contiguous_spec()),
            r matches Ok(o) ==> {
                &&& o.wf()
                &&& o.dims_seq() == self.dims_seq()
                &&& o.strides_seq() == self.strides_seq()
                &&& o.is_contiguous_spec()
                &&& o.contents().len() == self.size_spec()
                &&& forall|i: int|
                    0 <= i < self.size_spec() ==> #[trigger] o.contents()[i]
                        == self.mem_order_seq()[i].add_spec(rhs.mem_order_seq()[i])
                &&& forall|idx: Seq<int>|
                    valid_idx(idx, self.dims_seq()) ==> #[trigger] o.elem_at(idx)
                        == self.elem_at(idx).add_spec(rhs.elem_at(idx))
            },
            r matches Err(e) ==> e == OmniError::ShapeError(
                if self.dims_seq() != rhs.dims_seq() {
                    ShapeError::IncompatibleShape
                } else {
                    ShapeError::IncompatibleLayout
                },
            ),
    {
        let ghost d = self.dims_seq();
        let ghost s = self.strides_seq();
        if !dims_entries_equal(&self.dims, &rhs.dims) {
            proof {
                if d == rhs.dims_seq() {
                    lemma_sv_injective(self.dims.entries(), rhs.dims.entries());
                }
            }
            return Err(OmniError::ShapeError(ShapeError::IncompatibleShape));
        }
        if !dims_entries_equal(&self.strides, &rhs.strides) {
            proof {
                if s == rhs.strides_seq() {
                    lemma_sv_injective(self.strides.entries(), rhs.strides.entries());
                }
            }
            return Err(OmniError::ShapeError(ShapeError::IncompatibleLayout));
        }
        if !self.is_contiguous() {
            return Err(OmniError::ShapeError(ShapeError::IncompatibleLayout));
        }
        let lhs_s = match self.as_slice_memory_order() {
            Some(x) => x,
            None => {
                return Err(OmniError::ShapeError(ShapeError::IncompatibleLayout));
            },
        };
        let rhs_s = match rhs.as_slice_memory_order() {
            Some(x) => x,
            None => {
                return Err(OmniError::ShapeError(ShapeError::IncompatibleLayout));
            },
        };
        let mut out: Vec<T> = Vec::new();
        proof {
            lemma_prod_nonneg(d);
        }
        B::Kernels::_add(lhs_s, rhs_s, &mut out);
        let n = self.dims.ndim();
        let mut dv: Vec<isize> = Vec::new();
        let mut sv_: Vec<isize> = Vec::new();
        let mut i: usize = 0;
        while i < n
            invariant
                i <= n,
                n as int == self.dims.entries().len(),
                self.strides.entries().len() == self.dims.entries().len(),
                dv@.len() == i,
                sv_@.len() == i,
                forall|j: int| 0 <= j < i ==> #[trigger] dv@[j] == self.dims.entries()[j],
                forall|j: int| 0 <= j < i ==> #[trigger] sv_@[j] == self.strides.entries()[j],
            decreases n - i,
        {
            dv.push(self.dims.get(i));
            sv_.push(self.strides.get(i));
            i = i + 1;
        }
        proof {
            assert(dv@ =~= self.dims.entries());
            assert(sv_@ =~= self.strides.entries());
            self.dims.lemma_rank();
            rhs.dims.lemma_rank();
            <D as DimsMax<D2>>::lemma_output_rank(n as int);
        }
        let od = <DimsMaxOf<D, D2> as Dimensions>::from_values(&dv);
        let os = <DimsMaxOf<D, D2> as Dimensions>::from_values(&sv_);
        let size = self.dims.size();
        let ptr: usize = if size == 0 {
            0
        } else {
            offset_from_low_addr_ptr_to_logical_ptr(&self.dims, &self.strides)
        };
        let storage = OwnedStorage::from_buffer(out, self.storage.backend());
        let r = TensorBase { storage, ptr, dims: od, strides: os };
        proof {
            lemma_prod_le_prod_nz(d);
            if prod(d) > 0 {
                lemma_prod_pos_iff(d);
                lemma_low_offset_le_span(d, s);
            }
            assert forall|idx: Seq<int>| valid_idx(idx, d) implies {
                &&& 0 <= #[trigger] r.addr_of(idx) < r.contents().len()
                &&& r.elem_at(idx) == self.elem_at(idx).add_spec(rhs.elem_at(idx))
            } by {
                lemma_dot_bounds(idx, d, s);
                assert forall|k: int| 0 <= k < d.len() implies #[trigger] d[k] >= 1 by {
                    assert(0 <= idx[k] < d[k]);
                }
                assert(all_positive(d));
                lemma_prod_pos_iff(d);
                let j = low_offset(d, s) + dot(idx, s);
                assert(span_sum(d, s) == prod(d) - 1);
                assert(0 <= j < prod(d));
                assert(r.addr_of(idx) == j);
                assert(r.contents()[j] == self.mem_order_seq()[j].add_spec(rhs.mem_order_seq()[j]));
                assert(self.mem_order_seq()[j] == self.contents()[self.low_spec() + j]);
                assert(self.low_spec() + j == self.ptr + dot(idx, s));
                assert(rhs.mem_order_seq()[j] == rhs.contents()[rhs.low_spec() + j]);
                assert(rhs.low_spec() + j == rhs.ptr + dot(idx, s));
            }
        }
        Ok(r)
    }

    /// Element-wise subtraction: defined when the operand shapes, strides and
    /// contiguity agree; the result is an owned tensor with the operands'
    /// shape and strides.
    pub fn sub<S2, D2>(&self, rhs: &TensorBase<S2, D2>) -> (r: OmniResult<
        TensorBase<OwnedStorage<T, B>, DimsMaxOf<D, D2>>,
    >) where
        S2: RawStorage<Elem = T, Backend = B>,
        D2: Dimensions,
        D: DimsMax<D2>,

        requires
            self.wf(),
            rhs.wf(),
            (self.dims_seq() == rhs.dims_seq() && self.strides_seq() == rhs.strides_seq()
                && self.is_contiguous_spec()) ==> forall|i: int|
                0 <= i < self.size_spec() ==> (#[trigger] self.mem_order_seq()[i]).sub_ok(
                    rhs.mem_order_seq()[i],
                ),
        ensures
            r is Ok <==> (self.dims_seq() == rhs.dims_seq() && self.strides_seq()
                == rhs.strides_seq() && self.is_contiguous_spec()),
            r matches Ok(o) ==> {
                &&& o.wf()
                &&& o.dims_seq() == self.dims_seq()
                &&& o.strides_seq() == self.strides_seq()
                &&& o.is_contiguous_spec()
                &&& o.contents().len() == self.size_spec()
                &&& forall|i: int|
                    0 <= i < self.size_spec() ==> #[trigger] o.contents()[i]
                        == self.mem_order_seq()[i].sub_spec(rhs.mem_order_seq()[i])
                &&& forall|idx: Seq<int>|
                    valid_idx(idx, self.dims_seq()) ==> #[trigger] o.elem_at(idx)
                        == self.elem_at(idx).sub_spec(rhs.elem_at(idx))
            },
            r matches Err(e) ==> e == OmniError::ShapeError(
                if self.dims_seq() != rhs.dims_seq() {
                    ShapeError::IncompatibleShape
                } else {
                    ShapeError::IncompatibleLayout
                },
            ),
    {
        let ghost d = self.dims_seq();
        let ghost s = self.strides_seq();
        if !dims_entries_equal(&self.dims, &rhs.dims) {
            proof {
                if d == rhs.dims_seq() {
                    lemma_sv_injective(self.dims.entries(), rhs.dims.entries());
                }
            }
            return Err(OmniError::ShapeError(ShapeError::IncompatibleShape));
        }
        if !dims_entries_equal(&self.strides, &rhs.strides) {
            proof {
                if s == rhs.strides_seq() {
                    lemma_sv_injective(self.strides.entries(), rhs.strides.entries());
                }
            }
            return Err(OmniError::ShapeError(ShapeError::IncompatibleLayout));
        }
        if !self.is_contiguous() {
            return Err(OmniError::ShapeError(ShapeError::IncompatibleLayout));
        }
        let lhs_s = match self.as_slice_memory_order() {
            Some(x) => x,
            None => {
                return Err(OmniError::ShapeError(ShapeError::IncompatibleLayout));
            },
        };
        let rhs_s = match rhs.as_slice_memory_order() {
            Some(x) => x,
            None => {
                return Err(OmniError::ShapeError(ShapeError::IncompatibleLayout));
            },
        };
        let mut out: Vec<T> = Vec::new();
        proof {
            lemma_prod_nonneg(d);
        }
        B::Kernels::_sub(lhs_s, rhs_s, &mut out);
        let n = self.dims.ndim();
        let mut dv: Vec<isize> = Vec::new();
        let mut sv_: Vec<isize> = Vec::new();
        let mut i: usize = 0;
        while i < n
            invariant
                i <= n,
                n as int == self.dims.entries().len(),
                self.strides.entries().len() == self.dims.entries().len(),
                dv@.len() == i,
                sv_@.len() == i,
                forall|j: int| 0 <= j < i ==> #[trigger] dv@[j] == self.dims.entries()[j],
                forall|j: int| 0 <= j < i ==> #[trigger] sv_@[j] == self.strides.entries()[j],
            decreases n - i,
        {
            dv.push(self.dims.get(i));
            sv_.push(self.strides.get(i));
            i = i + 1;
        }
        proof {
            assert(dv@ =~= self.dims.entries());
            assert(sv_@ =~= self.strides.entries());
            self.dims.lemma_rank();
            rhs.dims.lemma_rank();
            <D as DimsMax<D2>>::lemma_output_rank(n as int);
        }
        let od = <DimsMaxOf<D, D2> as Dimensions>::from_values(&dv);
        let os = <DimsMaxOf<D, D2> as Dimensions>::from_values(&sv_);
        let size = self.dims.size();
        let ptr: usize = if size == 0 {
            0
        } else {
            offset_from_low_addr_ptr_to_logical_ptr(&self.dims, &self.strides)
        };
        let storage = OwnedStorage::from_buffer(out, self.storage.backend());
        let r = TensorBase { storage, ptr, dims: od, strides: os };
        proof {
            lemma_prod_le_prod_nz(d);
            if prod(d) > 0 {
                lemma_prod_pos_iff(d);
                lemma_low_offset_le_span(d, s);
            }
            assert forall|idx: Seq<int>| valid_idx(idx, d) implies {
                &&& 0 <= #[trigger] r.addr_of(idx) < r.contents().len()
                &&& r.elem_at(idx) == self.elem_at(idx).sub_spec(rhs.elem_at(idx))
            } by {
                lemma_dot_bounds(idx, d, s);
                assert forall|k: int| 0 <= k < d.len() implies #[trigger] d[k] >= 1 by {
                    assert(0 <= idx[k] < d[k]);
                }
                assert(all_positive(d));
                lemma_prod_pos_iff(d);
                let j = low_offset(d, s) + dot(idx, s);
                assert(span_sum(d, s) == prod(d) - 1);
                assert(0 <= j < prod(d));
                assert(r.addr_of(idx) == j);
                assert(r.contents()[j] == self.mem_order_seq()[j].sub_spec(rhs.mem_order_seq()[j]));
                assert(self.mem_order_seq()[j] == self.contents()[self.low_spec() + j]);
                assert(self.low_spec() + j == self.ptr + dot(idx, s));
                assert(rhs.mem_order_seq()[j] == rhs.contents()[rhs.low_spec() + j]);
                assert(rhs.low_spec() + j == rhs.ptr + dot(idx, s));
            }
        }
        Ok(r)
    }

    /// Element-wise multiplication: defined when the operand shapes, strides and
    /// contiguity agree; the result is an owned tensor with the operands'
    /// shape and strides.
    pub fn mul<S2, D2>(&self, rhs: &TensorBase<S2, D2>) -> (r: OmniResult<
        TensorBase<OwnedStorage<T, B>, DimsMaxOf<D, D2>>,
    >) where
        S2: RawStorage<Elem = T, Backend = B>,
        D2: Dimensions,
        D: DimsMax<D2>,

        requires
            self.wf(),
            rhs.wf(),
            (self.dims_seq() == rhs.dims_seq() && self.strides_seq() == rhs.strides_seq()
                && self.is_contiguous_spec()) ==> forall|i: int|
                0 <= i < self.size_spec() ==> (#[trigger] self.mem_order_seq()[i]).mul_ok(
                    rhs.mem_order_seq()[i],
                ),
        ensures
            r is Ok <==> (self.dims_seq() == rhs.dims_seq() && self.strides_seq()
                == rhs.strides_seq() && self.is_contiguous_spec()),
            r matches Ok(o) ==> {
                &&& o.wf()
                &&& o.dims_seq() == self.dims_seq()
                &&& o.strides_seq() == self.strides_seq()
                &&& o.is_contiguous_spec()
                &&& o.contents().len() == self.size_spec()
                &&& forall|i: int|
                    0 <= i < self.size_spec() ==> #[trigger] o.contents()[i]
                        == self.mem_order_seq()[i].mul_spec(rhs.mem_order_seq()[i])
                &&& forall|idx: Seq<int>|
                    valid_idx(idx, self.dims_seq()) ==> #[trigger] o.elem_at(idx)
                        == self.elem_at(idx).mul_spec(rhs.elem_at(idx))
            },
            r matches Err(e) ==> e == OmniError::ShapeError(
                if self.dims_seq() != rhs.dims_seq() {
                    ShapeError::IncompatibleShape
                } else {
                    ShapeError::IncompatibleLayout
                },
            ),
    {
        let ghost d = self.dims_seq();
        let ghost s = self.strides_seq();
        if !dims_entries_equal(&self.dims, &rhs.dims) {
            proof {
                if d == rhs.dims_seq() {
                    lemma_sv_injective(self.dims.entries(), rhs.dims.entries());
                }
            }
            return Err(OmniError::ShapeError(ShapeError::IncompatibleShape));
        }
        if !dims_entries_equal(&self.strides, &rhs.strides) {
            proof {
                if s == rhs.strides_seq() {
                    lemma_sv_injective(self.strides.entries(), rhs.strides.entries());
                }
            }
            return Err(OmniError::ShapeError(ShapeError::IncompatibleLayout));
        }
        if !self.is_contiguous() {
            return Err(OmniError::ShapeError(ShapeError::IncompatibleLayout));
        }
        let lhs_s = match self.as_slice_memory_order() {
            Some(x) => x,
            None => {
                return Err(OmniError::ShapeError(ShapeError::IncompatibleLayout));
            },
        };
        let rhs_s = match rhs.as_slice_memory_order() {
            Some(x) => x,
            None => {
                return Err(OmniError::ShapeError(ShapeError::IncompatibleLayout));
            },
        };
        let mut out: Vec<T> = Vec::new();
        proof {
            lemma_prod_nonneg(d);
        }
        B::Kernels::_mul(lhs_s, rhs_s, &mut out);
        let n = self.dims.ndim();
        let mut dv: Vec<isize> = Vec::new();
        let mut sv_: Vec<isize> = Vec::new();
        let mut i: usize = 0;
        while i < n
            invariant
                i <= n,
                n as int == self.dims.entries().len(),
                self.strides.entries().len() == self.dims.entries().len(),
                dv@.len() == i,
                sv_@.len() == i,
                forall|j: int| 0 <= j < i ==> #[trigger] dv@[j] == self.dims.entries()[j],
                forall|j: int| 0 <= j < i ==> #[trigger] sv_@[j] == self.strides.entries()[j],
            decreases n - i,
        {
            dv.push(self.dims.get(i));
            sv_.push(self.strides.get(i));
            i = i + 1;
        }
        proof {
            assert(dv@ =~= self.dims.entries());
            assert(sv_@ =~= self.strides.entries());
            self.dims.lemma_rank();
            rhs.dims.lemma_rank();
            <D as DimsMax<D2>>::lemma_output_rank(n as int);
        }
        let od = <DimsMaxOf<D, D2> as Dimensions>::from_values(&dv);
        let os = <DimsMaxOf<D, D2> as Dimensions>::from_values(&sv_);
        let size = self.dims.size();
        let ptr: usize = if size == 0 {
            0
        } else {
            offset_from_low_addr_ptr_to_logical_ptr(&self.dims, &self.strides)
        };
        let storage = OwnedStorage::from_buffer(out, self.storage.backend());
        let r = TensorBase { storage, ptr, dims: od, strides: os };
        proof {
            lemma_prod_le_prod_nz(d);
            if prod(d) > 0 {
                lemma_prod_pos_iff(d);
                lemma_low_offset_le_span(d, s);
            }
            assert forall|idx: Seq<int>| valid_idx(idx, d) implies {
                &&& 0 <= #[trigger] r.addr_of(idx) < r.contents().len()
                &&& r.elem_at(idx) == self.elem_at(idx).mul_spec(rhs.elem_at(idx))
            } by {
                lemma_dot_bounds(idx, d, s);
                assert forall|k: int| 0 <= k < d.len() implies #[trigger] d[k] >= 1 by {
                    assert(0 <= idx[k] < d[k]);
                }
                assert(all_positive(d));
                lemma_prod_pos_iff(d);
                let j = low_offset(d, s) + dot(idx, s);
                assert(span_sum(d, s) == prod(d) - 1);
                assert(0 <= j < prod(d));
                assert(r.addr_of(idx) == j);
                assert(r.contents()[j] == self.mem_order_seq()[j].mul_spec(rhs.mem_order_seq()[j]));
                assert(self.mem_order_seq()[j] == self.contents()[self.low_spec() + j]);
                assert(self.low_spec() + j == self.ptr + dot(idx, s));
                assert(rhs.mem_order_seq()[j] == rhs.contents()[rhs.low_spec() + j]);
                assert(rhs.low_spec() + j == rhs.ptr + dot(idx, s));
            }
        }
        Ok(r)
    }

    /// Element-wise division: defined when the operand shapes, strides and
    /// contiguity agree; the result is an owned tensor with the operands'
    /// shape and strides.
    pub fn div<S2, D2>(&self, rhs: &TensorBase<S2, D2>) -> (r: OmniResult<
        TensorBase<OwnedStorage<T, B>, DimsMaxOf<D, D2>>,
    >) where
        S2: RawStorage<Elem = T, Backend = B>,
        D2: Dimensions,
        D: DimsMax<D2>,

        requires
            self.wf(),
            rhs.wf(),
            (self.dims_seq() == rhs.dims_seq() && self.strides_seq() == rhs.strides_seq()
                && self.is_contiguous_spec()) ==> forall|i: int|
                0 <= i < self.size_spec() ==> (#[trigger] self.mem_order_seq()[i]).div_ok(
                    rhs.mem_order_seq()[i],
                ),
        ensures
            r is Ok <==> (self.dims_seq() == rhs.dims_seq() && self.strides_seq()
                == rhs.strides_seq() && self.is_contiguous_spec()),
            r matches Ok(o) ==> {
                &&& o.wf()
                &&& o.dims_seq() == self.dims_seq()
                &&& o.strides_seq() == self.strides_seq()
                &&& o.is_contiguous_spec()
                &&& o.contents().len() == self.size_spec()
                &&& forall|i: int|
                    0 <= i < self.size_spec() ==> #[trigger] o.contents()[i]
                        == self.mem_order_seq()[i].div_spec(rhs.mem_order_seq()[i])
                &&& forall|idx: Seq<int>|
                    valid_idx(idx, self.dims_seq()) ==> #[trigger] o.elem_at(idx)
                        == self.elem_at(idx).div_spec(rhs.elem_at(idx))
            },
            r matches Err(e) ==> e == OmniError::ShapeError(
                if self.dims_seq() != rhs.dims_seq() {
                    ShapeError::IncompatibleShape
                } else {
                    ShapeError::IncompatibleLayout
                },
            ),
    {
        let ghost d = self.dims_seq();
        let ghost s = self.strides_seq();
        if !dims_entries_equal(&self.dims, &rhs.dims) {
            proof {
                if d == rhs.dims_seq() {
                    lemma_sv_injective(self.dims.entries(), rhs.dims.entries());
                }
            }
            return Err(OmniError::ShapeError(ShapeError::IncompatibleShape));
        }
        if !dims_entries_equal(&self.strides, &rhs.strides) {
            proof {
                if s == rhs.strides_seq() {
                    lemma_sv_injective(self.strides.entries(), rhs.strides.entries());
                }
            }
            return Err(OmniError::ShapeError(ShapeError::IncompatibleLayout));
        }
        if !self.is_contiguous() {
            return Err(OmniError::ShapeError(ShapeError::IncompatibleLayout));
        }
        let lhs_s = match self.as_slice_memory_order() {
            Some(x) => x,
            None => {
                return Err(OmniError::ShapeError(ShapeError::IncompatibleLayout));
            },
        };
        let rhs_s = match rhs.as_slice_memory_order() {
            Some(x) => x,
            None => {
                return Err(OmniError::ShapeError(ShapeError::IncompatibleLayout));
            },
        };
        let mut out: Vec<T> = Vec::new();
        proof {
            lemma_prod_nonneg(d);
        }
        B::Kernels::_div(lhs_s, rhs_s, &mut out);
        let n = self.dims.ndim();
        let mut dv: Vec<isize> = Vec::new();
        let mut sv_: Vec<isize> = Vec::new();
        let mut i: usize = 0;
        while i < n
            invariant
                i <= n,
                n as int == self.dims.entries().len(),
                self.strides.entries().len() == self.dims.entries().len(),
                dv@.len() == i,
                sv_@.len() == i,
                forall|j: int| 0 <= j < i ==> #[trigger] dv@[j] == self.dims.entries()[j],
                forall|j: int| 0 <= j < i ==> #[trigger] sv_@[j] == self.strides.entries()[j],
            decreases n - i,
        {
            dv.push(self.dims.get(i));
            sv_.push(self.strides.get(i));
            i = i + 1;
        }
        proof {
            assert(dv@ =~= self.dims.entries());
            assert(sv_@ =~= self.strides.entries());
            self.dims.lemma_rank();
            rhs.dims.lemma_rank();
            <D as DimsMax<D2>>::lemma_output_rank(n as int);
        }
        let od = <DimsMaxOf<D, D2> as Dimensions>::from_values(&dv);
        let os = <DimsMaxOf<D, D2> as Dimensions>::from_values(&sv_);
        let size = self.dims.size();
        let ptr: usize = if size == 0 {
            0
        } else {
            offset_from_low_addr_ptr_to_logical_ptr(&self.dims, &self.strides)
        };
        let storage = OwnedStorage::from_buffer(out, self.storage.backend());
        let r = TensorBase { storage, ptr, dims: od, strides: os };
        proof {
            lemma_prod_le_prod_nz(d);
            if prod(d) > 0 {
                lemma_prod_pos_iff(d);
                lemma_low_offset_le_span(d, s);
            }
            assert forall|idx: Seq<int>| valid_idx(idx, d) implies {
                &&& 0 <= #[trigger] r.addr_of(idx) < r.contents().len()
                &&& r.elem_at(idx) == self.elem_at(idx).div_spec(rhs.elem_at(idx))
            } by {
                lemma_dot_bounds(idx, d, s);
                assert forall|k: int| 0 <= k < d.len() implies #[trigger] d[k] >= 1 by {
                    assert(0 <= idx[k] < d[k]);
                }
                assert(all_positive(d));
                lemma_prod_pos_iff(d);
                let j = low_offset(d, s) + dot(idx, s);
                assert(span_sum(d, s) == prod(d) - 1);
                assert(0 <= j < prod(d));
                assert(r.addr_of(idx) == j);
                assert(r.contents()[j] == self.mem_order_seq()[j].div_spec(rhs.mem_order_seq()[j]));
                assert(self.mem_order_seq()[j] == self.contents()[self.low_spec() + j]);
                assert(self.low_spec() + j == self.ptr + dot(idx, s));
                assert(rhs.mem_order_seq()[j] == rhs.contents()[rhs.low_spec() + j]);
                assert(rhs.low_spec() + j == rhs.ptr + dot(idx, s));
            }
        }
        Ok(r)
    }
}

/// A row-major (default-strided) tensor lists its elements in row-major
/// order: the element at a multi-index sits in the memory-order run at the
/// index's row-major rank, the dot product of the index with the row-major
/// strides. Together with the contract of `to_owned`, which preserves the
/// memory-order run, this gives the owned round trip.
pub proof fn lemma_mem_order_is_row_major<S: RawStorage, D: Dimensions>(
    t: &TensorBase<S, D>,
    idx: Seq<int>,
)
    requires
        t.wf(),
        t.strides_seq() == default_strides_spec(t.dims_seq()),
        valid_idx(idx, t.dims_seq()),
    ensures
        0 <= dot(idx, row_major_strides(t.dims_seq())) < t.size_spec(),
        t.mem_order_seq()[dot(idx, row_major_strides(t.dims_seq()))] == t.elem_at(idx),
{
    let d = t.dims_seq();
    let s = t.strides_seq();
    assert forall|i: int| 0 <= i < d.len() implies #[trigger] d[i] >= 1 by {
        assert(0 <= idx[i] < d[i]);
    }
    assert(all_positive(d));
    assert(s == row_major_strides(d));
    lemma_default_strides_nonneg(d);
    assert forall|i: int| 0 <= i < s.len() implies #[trigger] s[i] >= 0 by {
        assert(s[i] == default_strides_spec(d)[i]);
    }
    lemma_low_nonneg_strides(d, s);
    lemma_dot_bounds(idx, d, s);
    lemma_span_row_major(d);
    lemma_prod_pos_iff(d);
    crate::dimension::order::lemma_default_strides_contiguous(d);
    assert(t.low_spec() == t.ptr as int);
    assert(t.mem_order_seq()[dot(idx, s)] == t.contents()[t.ptr + dot(idx, s)]);
}

} // verus!
