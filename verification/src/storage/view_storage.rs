//! Borrowed view storage: a shallow handle onto another tensor's buffer.

use vstd::prelude::*;
use crate::backend::Backend;
use crate::dimension::dimensions_trait::Dimensions;
use crate::storage::owned_storage::OwnedStorage;
use crate::storage::traits::{RawStorage, RawStorageClone, Storage};
use crate::tensor::TensorBase;
use vstd::slice::slice_subrange;

verus! {

/// Borrowed immutable storage: the viewed buffer and the backend it came
/// from. Cloning is shallow.
pub struct ViewStorage<'a, T, B> {
    pub data: &'a [T],
    pub backend: B,
}

impl<'a, T: Copy, B: Backend> ViewStorage<'a, T, B> {
    /// View storage over a borrowed buffer.
    pub fn new(data: &'a [T], backend: B) -> (r: Self)
        ensures
            r.data == data,
            r.backend == backend,
    {
        ViewStorage { data, backend }
    }
}

impl<'a, T: Copy, B: Backend> RawStorage for ViewStorage<'a, T, B> {
    type Elem = T;

    type Backend = B;

    open spec fn contents(&self) -> Seq<T> {
        self.data@
    }

    fn len(&self) -> (n: usize) {
        self.data.len()
    }

    fn subslice(&self, from: usize, to: usize) -> (r: &[T]) {
        slice_subrange(self.data, from, to)
    }

    fn _is_pointer_inbounds(&self, ptr: usize) -> (r: bool) {
        ptr <= self.data.len()
    }

    fn backend(&self) -> Self::Backend {
        self.backend
    }
}

impl<'a, T: Copy, B: Backend> RawStorageClone for ViewStorage<'a, T, B> {
    fn clone_with_ptr(&self, ptr: usize) -> (r: (Self, usize)) {
        (ViewStorage { data: self.data, backend: self.backend }, ptr)
    }
}

impl<'a, T: Copy, B: Backend> Storage for ViewStorage<'a, T, B> {
    open spec fn own_needs_contiguous() -> bool {
        true
    }

    fn into_owned<D: Dimensions>(t: TensorBase<Self, D>) -> (r: TensorBase<
        OwnedStorage<T, B>,
        D,
    >) {
        t.to_owned()
    }

    fn try_into_owned_nocopy<D: Dimensions>(t: TensorBase<Self, D>) -> (r: Result<
        TensorBase<OwnedStorage<T, B>, D>,
        TensorBase<Self, D>,
    >) {
        Err(t)
    }

    fn to_shared<D: Dimensions>(t: &TensorBase<Self, D>) -> (r: TensorBase<
        crate::storage::owned_storage::OwnedArcStorage<T, B>,
        D,
    >) {
        t.to_owned().into_shared()
    }
}

} // verus!
