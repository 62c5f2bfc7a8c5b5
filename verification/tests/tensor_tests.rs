use omnitensor::backend::cpu::CpuBackend;
use omnitensor::backend::{Backend, BackendKind};
use omnitensor::dimension::dims::Dims;
use omnitensor::dimension::dimensions_trait::Dimensions;
use omnitensor::error::{OmniError, ShapeError};
use omnitensor::shape_builder::ShapeBuilder;
use omnitensor::storage::owned_storage::OwnedStorage;
use omnitensor::storage::traits::{RawStorage, Storage, StorageMut};
use omnitensor::tensor::{HostTensor1D, HostTensor2D, TensorBase};

#[test]
fn zeros_scenario_row_major() {
    // S1: zeros((2,3)) is row-major, contiguous, all zero
    let t = HostTensor2D::<i64>::zeros((2isize, 3isize));
    assert_eq!(t.shape().as_slice(), &[2isize, 3][..]);
    assert_eq!(t.strides().as_slice(), &[3isize, 1][..]);
    assert!(t.is_contiguous());
    assert_eq!(t.as_slice_memory_order().unwrap(), &[0i64; 6][..]);
    assert_eq!(t.ndim(), 2);
}

#[test]
fn from_elem_scenario_column_major() {
    // S2: from_elem((2,3).f(), 7) is column-major, contiguous, all seven
    let t = HostTensor2D::<i64>::from_elem((2isize, 3isize).f(), 7);
    assert_eq!(t.shape().as_slice(), &[2isize, 3][..]);
    assert_eq!(t.strides().as_slice(), &[1isize, 2][..]);
    assert!(t.is_contiguous());
    assert_eq!(t.as_slice_memory_order().unwrap(), &[7i64; 6][..]);
}

#[test]
fn ones_fills_with_one() {
    let t = HostTensor2D::<i64>::ones((2isize, 2isize));
    assert_eq!(t.as_slice_memory_order().unwrap(), &[1i64; 4][..]);
}

#[test]
fn empty_allocates_the_right_size() {
    let t = HostTensor2D::<i64>::empty((2isize, 3isize), 0);
    assert_eq!(t.storage.len(), 6);
}

#[test]
fn shared_clone_on_write_wide_window() {
    // S3: a shared, b = a.clone(); detaching a leaves both unique
    let mut a = HostTensor2D::<i64>::ones((2isize, 2isize)).into_shared();
    assert!(a.is_unique());
    let mut b = a.clone();
    assert!(!a.is_unique());
    assert!(!b.is_unique());
    // visible size equals backing size: the wide path detaches in place
    StorageMut::ensure_unique(&mut a);
    assert!(a.is_unique());
    assert!(b.is_unique());
    assert_eq!(a.storage.len(), 4);
    assert_eq!(a.as_slice_memory_order().unwrap(), &[1i64; 4][..]);
    assert_eq!(b.as_slice_memory_order().unwrap(), &[1i64; 4][..]);
}

#[test]
fn shared_mutation_leaves_other_handles_unchanged() {
    // sharing: mutating t2 materializes a fresh buffer; t3 sees old values
    let t = HostTensor1D::<i64>::from_elem(4isize, 1);
    let mut t2 = t.into_shared();
    let t3 = t2.clone();
    t2.fill(9);
    assert_eq!(t2.as_slice_memory_order().unwrap(), &[9i64; 4][..]);
    assert_eq!(t3.as_slice_memory_order().unwrap(), &[1i64; 4][..]);
}

#[test]
fn narrow_window_clone_on_write_shrinks_to_visible() {
    // a 2x2 window over an 8-element buffer: visible 4 <= 8/2, so the
    // post-mutation buffer holds exactly the visible range
    let buf: Vec<i64> = vec![0, 1, 2, 3, 4, 5, 6, 7];
    let storage = OwnedStorage::from_buffer(buf, CpuBackend);
    let t = TensorBase::from_storage(
        storage,
        0,
        Dims::new([2isize, 2]),
        Dims::new([2isize, 1]),
    );
    let mut shared = t.into_shared();
    let other = shared.clone();
    StorageMut::ensure_unique(&mut shared);
    assert_eq!(shared.storage.len(), 4);
    assert_eq!(shared.as_slice_memory_order().unwrap(), &[0i64, 1, 2, 3][..]);
    assert_eq!(other.storage.len(), 8);
}

#[test]
fn to_owned_keeps_memory_order() {
    let buf: Vec<i64> = vec![0, 1, 2, 3, 4, 5];
    let storage = OwnedStorage::from_buffer(buf, CpuBackend);
    let t = TensorBase::from_storage(
        storage,
        0,
        Dims::new([2isize, 3]),
        Dims::new([3isize, 1]),
    );
    let o = t.to_owned();
    assert_eq!(o.as_slice_memory_order().unwrap(), &[0i64, 1, 2, 3, 4, 5][..]);
    assert_eq!(o.shape().as_slice(), &[2isize, 3][..]);
    assert_eq!(o.strides().as_slice(), &[3isize, 1][..]);
}

#[test]
fn to_owned_rebases_negative_strides() {
    // reversed along axis 0: base sits 3 above the low address
    let buf: Vec<i64> = vec![10, 11, 12, 13, 14, 15];
    let storage = OwnedStorage::from_buffer(buf, CpuBackend);
    let t = TensorBase::from_storage(
        storage,
        3,
        Dims::new([2isize, 3]),
        Dims::new([-3isize, 1]),
    );
    assert!(t.is_contiguous());
    let o = t.to_owned();
    assert_eq!(o.ptr, 3);
    assert_eq!(o.as_slice_memory_order().unwrap(), &[10i64, 11, 12, 13, 14, 15][..]);
    assert_eq!(o.storage.len(), 6);
}

#[test]
fn non_contiguous_has_no_memory_order_slice() {
    let buf: Vec<i64> = vec![0, 1, 2, 3, 4, 5, 6, 7];
    let storage = OwnedStorage::from_buffer(buf, CpuBackend);
    let t = TensorBase::from_storage(
        storage,
        0,
        Dims::new([2isize, 2]),
        Dims::new([4isize, 1]),
    );
    assert!(!t.is_contiguous());
    assert!(t.as_slice_memory_order().is_none());
}

#[test]
fn view_shares_the_buffer() {
    let t = HostTensor2D::<i64>::from_elem((2isize, 3isize), 5);
    let v = t.view();
    assert_eq!(v.shape().as_slice(), &[2isize, 3][..]);
    assert_eq!(v.as_slice_memory_order().unwrap(), &[5i64; 6][..]);
    let v2 = v.clone();
    assert_eq!(v2.as_slice_memory_order().unwrap(), &[5i64; 6][..]);
}

#[test]
fn view_to_owned_copies() {
    let t = HostTensor2D::<i64>::from_elem((2isize, 3isize), 5);
    let v = t.view();
    let o = Storage::into_owned(v);
    assert_eq!(o.as_slice_memory_order().unwrap(), &[5i64; 6][..]);
}

#[test]
fn try_into_owned_nocopy_owned_is_ok() {
    let t = HostTensor2D::<i64>::zeros((2isize, 2isize));
    assert!(Storage::try_into_owned_nocopy(t).is_ok());
}

#[test]
fn try_into_owned_nocopy_view_is_err() {
    let t = HostTensor2D::<i64>::zeros((2isize, 2isize));
    let v = t.view();
    assert!(Storage::try_into_owned_nocopy(v).is_err());
}

#[test]
fn try_into_owned_nocopy_shared_depends_on_handles() {
    let t = HostTensor2D::<i64>::zeros((2isize, 2isize)).into_shared();
    let unique = Storage::try_into_owned_nocopy(t);
    assert!(unique.is_ok());
    let t2 = HostTensor2D::<i64>::zeros((2isize, 2isize)).into_shared();
    let keep = t2.clone();
    let still_shared = Storage::try_into_owned_nocopy(t2);
    assert!(still_shared.is_err());
    assert_eq!(keep.storage.len(), 4);
}

#[test]
fn clone_copies_owned_storage() {
    let mut t = HostTensor1D::<i64>::from_elem(3isize, 2);
    let c = t.clone();
    t.fill(8);
    assert_eq!(t.as_slice_memory_order().unwrap(), &[8i64; 3][..]);
    assert_eq!(c.as_slice_memory_order().unwrap(), &[2i64; 3][..]);
}

#[test]
fn clone_from_reuses_the_allocation() {
    let src = HostTensor1D::<i64>::from_elem(3isize, 4);
    let mut dst = HostTensor1D::<i64>::from_elem(3isize, 0);
    dst.clone_from(&src);
    assert_eq!(dst.as_slice_memory_order().unwrap(), &[4i64; 3][..]);
    assert_eq!(dst.shape().as_slice(), &[3isize][..]);
}

#[test]
fn add_elementwise() {
    let a = HostTensor2D::<i64>::from_elem((2isize, 2isize), 3);
    let b = HostTensor2D::<i64>::ones((2isize, 2isize));
    let r = a.add(&b).unwrap();
    assert_eq!(r.as_slice_memory_order().unwrap(), &[4i64; 4][..]);
    assert_eq!(r.shape().as_slice(), &[2isize, 2][..]);
}

#[test]
fn sub_mul_div_elementwise() {
    let a = HostTensor1D::<i64>::from_elem(3isize, 8);
    let b = HostTensor1D::<i64>::from_elem(3isize, 2);
    assert_eq!(a.sub(&b).unwrap().as_slice_memory_order().unwrap(), &[6i64; 3][..]);
    assert_eq!(a.mul(&b).unwrap().as_slice_memory_order().unwrap(), &[16i64; 3][..]);
    assert_eq!(a.div(&b).unwrap().as_slice_memory_order().unwrap(), &[4i64; 3][..]);
}

#[test]
fn add_rejects_shape_mismatch() {
    let a = HostTensor2D::<i64>::zeros((2isize, 2isize));
    let b = HostTensor2D::<i64>::zeros((2isize, 3isize));
    match a.add(&b) {
        Err(e) => assert_eq!(e, OmniError::ShapeError(ShapeError::IncompatibleShape)),
        Ok(_) => panic!("a shape mismatch must be rejected"),
    }
}

#[test]
fn add_rejects_layout_mismatch() {
    let a = HostTensor2D::<i64>::zeros((2isize, 3isize));
    let b = HostTensor2D::<i64>::zeros((2isize, 3isize).f());
    match a.add(&b) {
        Err(e) => assert_eq!(e, OmniError::ShapeError(ShapeError::IncompatibleLayout)),
        Ok(_) => panic!("a layout mismatch must be rejected"),
    }
}

#[test]
fn error_messages() {
    assert_eq!(ShapeError::IncompatibleShape.message(), "Incompatible shape");
    assert_eq!(ShapeError::IncompatibleLayout.message(), "Incompatible layout");
    let e = OmniError::from(ShapeError::IncompatibleShape);
    assert_eq!(e, OmniError::ShapeError(ShapeError::IncompatibleShape));
    assert_eq!(e.message(), "Incompatible shape");
}

#[test]
fn cpu_backend_kind() {
    assert_eq!(CpuBackend::kind(), BackendKind::Cpu);
}

#[test]
fn zero_extent_tensor_is_empty() {
    let t = omnitensor::tensor::HostTensor3D::<i64>::zeros((4isize, 0isize, 3isize));
    assert_eq!(t.storage.len(), 0);
    assert_eq!(t.strides().as_slice(), &[0isize, 0, 0][..]);
    assert!(t.is_contiguous());
    assert_eq!(t.as_slice_memory_order().unwrap().len(), 0);
}

#[test]
fn rank_zero_tensor_has_one_element() {
    let t = omnitensor::tensor::HostTensor0D::<i64>::from_elem((), 42);
    assert_eq!(t.ndim(), 0);
    assert_eq!(t.storage.len(), 1);
    assert_eq!(t.as_slice_memory_order().unwrap(), &[42i64][..]);
}

#[test]
fn storage_pointer_inbounds() {
    let t = HostTensor1D::<i64>::zeros(3isize);
    assert!(t.storage._is_pointer_inbounds(0));
    assert!(t.storage._is_pointer_inbounds(3));
    assert!(!t.storage._is_pointer_inbounds(4));
}
