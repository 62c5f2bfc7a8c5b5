use omnitensor::allocator::host::HostAllocator;
use omnitensor::elem::Elem;
use omnitensor::allocator::Allocator as HostAlloc;
use omnitensor::backend::cpu::CpuBackend;
use omnitensor::backend::{Allocator, MemOps};
use omnitensor::dimension::dims::Dims;
use omnitensor::dimension::dimensions_trait::Dimensions;
use omnitensor::ops::host::{zip_binary_op, HostOps};
use omnitensor::ops::Ops;
use omnitensor::shape_builder::{ShapeBuilder, Strides};

#[test]
fn into_shape_defaults_to_row_major() {
    let sh = (2isize, 3isize).into_shape();
    assert_eq!(sh.raw_dims().as_slice(), &[2isize, 3][..]);
    assert!(!sh.f_order);
    assert_eq!(sh.size(), 6);
}

#[test]
fn f_selects_column_major() {
    let sh = (2isize, 3isize).f();
    assert!(sh.f_order);
    let back = sh.set_f(false);
    assert!(!back.f_order);
}

#[test]
fn strides_policy_resolution() {
    let d = Dims::new([2isize, 3]);
    let c = Strides::C.strides_for_dims(&d);
    assert_eq!(c.as_slice(), &[3isize, 1][..]);
    let f = Strides::F.strides_for_dims(&d);
    assert_eq!(f.as_slice(), &[1isize, 2][..]);
    let custom = Strides::Custom(Dims::new([-3isize, 1])).strides_for_dims(&d);
    assert_eq!(custom.as_slice(), &[-3isize, 1][..]);
}

#[test]
fn custom_strides_builder() {
    let st = (2isize, 3isize).strides((3isize, 1isize));
    assert_eq!(st.dims.as_slice(), &[2isize, 3][..]);
}

#[test]
fn host_allocator_allocates_and_copies() {
    let a = HostAllocator;
    let v: Vec<i64> = a.allocate(7, 4);
    assert_eq!(v, vec![7i64; 4]);
    let src: Vec<i64> = vec![1, 2, 3, 4];
    let mut dst: Vec<i64> = a.allocate(0, 4);
    a.copy(src.as_slice(), &mut dst);
    assert_eq!(dst, src);
    a.dealloc(dst);
}

#[test]
fn cpu_backend_memory_operations() {
    let b = CpuBackend;
    let mut v: Vec<i64> = b.allocate(0, 3);
    b.fill(&mut v, 9);
    assert_eq!(v, vec![9i64; 3]);
    let src: Vec<i64> = vec![5, 6, 7];
    b.copy(src.as_slice(), &mut v);
    assert_eq!(v, src);
}

#[test]
fn host_ops_kernels() {
    let lhs: Vec<i64> = vec![1, 2, 3];
    let rhs: Vec<i64> = vec![10, 20, 30];
    let mut out: Vec<i64> = Vec::new();
    HostOps::_add(lhs.as_slice(), rhs.as_slice(), &mut out);
    assert_eq!(out, vec![11i64, 22, 33]);
    HostOps::_sub(rhs.as_slice(), lhs.as_slice(), &mut out);
    assert_eq!(out, vec![9i64, 18, 27]);
    HostOps::_mul(lhs.as_slice(), rhs.as_slice(), &mut out);
    assert_eq!(out, vec![10i64, 40, 90]);
    HostOps::_div(rhs.as_slice(), lhs.as_slice(), &mut out);
    assert_eq!(out, vec![10i64, 10, 10]);
    let mut f: Vec<i64> = vec![0, 0];
    HostOps::_fill(4, &mut f);
    assert_eq!(f, vec![4i64, 4]);
}

#[test]
fn truncating_division_on_negatives() {
    assert_eq!((-7i64).div(2), -3);
    assert_eq!(7i64.div(-2), -3);
    assert_eq!((-7i64).div(-2), 3);
    assert_eq!((-7i32).div(2), -3);
}

#[test]
fn zip_binary_op_applies_pairwise() {
    let lhs: Vec<i64> = vec![1, 2];
    let rhs: Vec<i64> = vec![3, 4];
    let mut out: Vec<i64> = Vec::new();
    zip_binary_op(lhs.as_slice(), rhs.as_slice(), &mut out, |x: i64, y: i64| x + y);
    assert_eq!(out, vec![4i64, 6]);
}

#[test]
fn dims_zeros_per_rank() {
    let z2: Dims<[isize; 2]> = Dimensions::zeros(2);
    assert_eq!(z2.as_slice(), &[0isize, 0][..]);
    let z0: Dims<[isize; 0]> = Dimensions::zeros(0);
    assert_eq!(z0.as_slice().len(), 0);
}

#[test]
fn dims_from_values_round_trip() {
    let v: Vec<isize> = vec![4, 5];
    let d: Dims<[isize; 2]> = Dimensions::from_values(&v);
    assert_eq!(d.as_slice(), &[4isize, 5][..]);
    let c = d.clone_dims();
    assert_eq!(c.as_slice(), d.as_slice());
}
