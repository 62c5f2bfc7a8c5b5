//! The storage capability hierarchy: raw buffer access, clone with base
//! correction, in-place mutability with clone-on-write, conversion to owned
//! and shared storage, and allocation of fresh owned storage.

use vstd::prelude::*;
use crate::backend::Backend;
use crate::dimension::dimensions_trait::Dimensions;
use crate::dimension::math::valid_idx;
use crate::storage::owned_storage::{OwnedStorage, OwnedArcStorage};
use crate::tensor::TensorBase;

verus! {

/// Raw access to an element buffer: its contents, its length, and the
/// backend that allocated it.
pub trait RawStorage: Sized {
    type Elem: Copy;

    type Backend: Backend;

    /// The elements the storage holds.
    spec fn contents(&self) -> Seq<Self::Elem>;

    fn len(&self) -> (n: usize)
        ensures
            n as int == self.contents().len(),
    ;

    /// A borrowed run of the buffer.
    fn subslice(&self, from: usize, to: usize) -> (r: &[Self::Elem])
        requires
            from <= to,
            to as int <= self.contents().len(),
        ensures
            r@ == self.contents().subrange(from as int, to as int),
    ;

    /// Whether a base offset lies within the buffer, the one-past-the-end
    /// sentinel included.
    fn _is_pointer_inbounds(&self, ptr: usize) -> (r: bool)
        ensures
            r == (ptr as int <= self.contents().len()),
    ;

    fn backend(&self) -> Self::Backend;
}

/// Cloning a storage together with a base offset into it: the returned
/// offset addresses the same logical position inside the clone.
pub trait RawStorageClone: RawStorage {
    fn clone_with_ptr(&self, ptr: usize) -> (r: (Self, usize))
        requires
            ptr as int <= self.contents().len(),
        ensures
            r.0.contents() == self.contents(),
            r.1 == ptr,
    ;

    fn clone_from_with_ptr(&mut self, other: &Self, ptr: usize) -> (r: usize)
        requires
            ptr as int <= other.contents().len(),
        ensures
            final(self).contents() == other.contents(),
            r == ptr,
    {
        let (data, p) = other.clone_with_ptr(ptr);
        *self = data;
        p
    }
}

/// Storage that a tensor may write through, possibly after detaching from
/// co-owners (clone-on-write).
pub trait RawStorageMut: RawStorageClone {
    /// Whether `try_is_unique` can answer for this storage family.
    spec fn unique_observable() -> bool;

    /// Make the tensor's storage safe to write: a no-op where the tensor
    /// already owns its buffer exclusively, a copy where the buffer is
    /// shared. The visible elements, shape and strides are unchanged.
    fn try_ensure_unique<D: Dimensions>(t: &mut TensorBase<Self, D>)
        requires
            old(t).wf(),
        ensures
            final(t).wf(),
            final(t).dims.entries() == old(t).dims.entries(),
            final(t).strides.entries() == old(t).strides.entries(),
            forall|idx: Seq<int>|
                valid_idx(idx, old(t).dims_seq()) ==> #[trigger] final(t).elem_at(idx) == old(
                    t,
                ).elem_at(idx),
    ;

    /// Whether this handle is currently the only owner of the buffer, when
    /// the storage family can tell.
    fn try_is_unique(&mut self) -> (r: Option<bool>)
        ensures
            final(self).contents() == old(self).contents(),
            Self::unique_observable() ==> r is Some,
    ;
}

/// Storage whose tensor can be converted to exclusively owned or shared
/// storage.
pub trait Storage: RawStorageClone {
    /// Whether `into_owned` and `to_shared` must copy through the visible
    /// range and so need a contiguous layout.
    spec fn own_needs_contiguous() -> bool;

    /// An exclusively owned tensor with the same shape, strides and
    /// elements, copying where necessary.
    fn into_owned<D: Dimensions>(t: TensorBase<Self, D>) -> (r: TensorBase<
        OwnedStorage<Self::Elem, Self::Backend>,
        D,
    >)
        requires
            t.wf(),
            Self::own_needs_contiguous() ==> t.is_contiguous_spec(),
        ensures
            r.wf(),
            r.dims.entries() == t.dims.entries(),
            r.strides.entries() == t.strides.entries(),
            forall|idx: Seq<int>|
                valid_idx(idx, t.dims_seq()) ==> #[trigger] r.elem_at(idx) == t.elem_at(idx),
    ;

    /// The same tensor over exclusively owned storage when no copy is
    /// needed, else the tensor unchanged.
    fn try_into_owned_nocopy<D: Dimensions>(t: TensorBase<Self, D>) -> (r: Result<
        TensorBase<OwnedStorage<Self::Elem, Self::Backend>, D>,
        TensorBase<Self, D>,
    >)
        requires
            t.wf(),
        ensures
            match r {
                Ok(o) => {
                    &&& o.wf()
                    &&& o.contents() == t.contents()
                    &&& o.ptr == t.ptr
                    &&& o.dims.entries() == t.dims.entries()
                    &&& o.strides.entries() == t.strides.entries()
                },
                Err(e) => e == t,
            },
    ;

    /// A shared (reference-counted) tensor with the same shape, strides and
    /// elements.
    fn to_shared<D: Dimensions>(t: &TensorBase<Self, D>) -> (r: TensorBase<
        OwnedArcStorage<Self::Elem, Self::Backend>,
        D,
    >)
        requires
            t.wf(),
            t.is_contiguous_spec(),
        ensures
            r.wf(),
            r.dims.entries() == t.dims.entries(),
            r.strides.entries() == t.strides.entries(),
            forall|idx: Seq<int>|
                valid_idx(idx, t.dims_seq()) ==> #[trigger] r.elem_at(idx) == t.elem_at(idx),
    ;
}

/// Storage that is both convertible and writable.
pub trait StorageMut: Storage + RawStorageMut {
    /// Make the tensor's storage safe to write (see `try_ensure_unique`).
    fn ensure_unique<D: Dimensions>(t: &mut TensorBase<Self, D>)
        requires
            old(t).wf(),
        ensures
            final(t).wf(),
            final(t).dims.entries() == old(t).dims.entries(),
            final(t).strides.entries() == old(t).strides.entries(),
            forall|idx: Seq<int>|
                valid_idx(idx, old(t).dims_seq()) ==> #[trigger] final(t).elem_at(idx) == old(
                    t,
                ).elem_at(idx),
    {
        Self::try_ensure_unique(t);
    }

    /// Whether this handle is currently the only owner of the buffer.
    fn is_unique(&mut self) -> (r: bool)
        requires
            Self::unique_observable(),
        ensures
            final(self).contents() == old(self).contents(),
    {
        match self.try_is_unique() {
            Some(b) => b,
            None => false,
        }
    }
}

/// Exclusively owned storage: allocation, whole-buffer fill, and conversion
/// into shared storage.
pub trait StorageOwned: Storage {
    /// A fresh buffer of `size` elements and the base offset of its start.
    /// The contents are unspecified; callers fill them.
    fn empty(size: usize, backend: Self::Backend, fill: Self::Elem) -> (r: (Self, usize))
        ensures
            r.0.contents().len() == size,
            r.1 == 0usize,
    ;

    /// Write one value to the whole buffer.
    fn fill(&mut self, value: Self::Elem)
        ensures
            final(self).contents() == Seq::new(old(self).contents().len(), |i: int| value),
    ;

    /// Move the buffer behind a reference-counted wrapper without copying.
    fn into_shared(self) -> (r: OwnedArcStorage<Self::Elem, Self::Backend>)
        ensures
            r.contents() == self.contents(),
    ;
}

/// Reference-counted storage: cloning shares the buffer.
pub trait StorageShared: Storage + Clone {
}

} // verus!
