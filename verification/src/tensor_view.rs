//! Borrowed tensors: immutable views that share another tensor's buffer.

use vstd::prelude::*;
use crate::backend::Backend;
use crate::dimension::dimensions_trait::Dimensions;
use crate::storage::view_storage::ViewStorage;
use crate::tensor::TensorBase;

verus! {

/// An immutable borrowed tensor.
pub type TensorView<'a, T, B, D> = TensorBase<ViewStorage<'a, T, B>, D>;

impl<'a, T: Copy, B: Backend, D: Dimensions> TensorBase<ViewStorage<'a, T, B>, D> {
    /// A view over a borrowed buffer with the given base offset, shape and
    /// strides.
    pub fn new(data: &'a [T], ptr: usize, dims: D, strides: D, backend: B) -> (r: Self)
        ensures
            r.storage.data == data,
            r.storage.backend == backend,
            r.ptr == ptr,
            r.dims == dims,
            r.strides == strides,
    {
        TensorBase { storage: ViewStorage::new(data, backend), ptr, dims, strides }
    }
}

} // verus!
