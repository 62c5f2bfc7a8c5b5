use omnitensor::dimension::dims::{Dims, Dims2, Dims3, Dims5};
use omnitensor::dimension::dims_max::DimsMaxOf;
use omnitensor::dimension::dimensions_trait::{Dimensions, IntoDimension};
use omnitensor::dimension::dyn_dims::{DynDims, DynDimsImpl};
use omnitensor::offset_from_low_addr_ptr_to_logical_ptr;

#[test]
fn default_strides_row_major() {
    let d = Dims::new([2isize, 3, 4]);
    let s = d.default_strides();
    assert_eq!(s.as_slice(), &[12isize, 4, 1][..]);
}

#[test]
fn default_strides_last_axis_unit() {
    let d = Dims::new([5isize, 7]);
    let s = d.default_strides();
    assert_eq!(s.as_slice(), &[7isize, 1][..]);
}

#[test]
fn default_strides_zero_extent_short_circuit() {
    // a zero extent anywhere gives all-zero strides
    let d = Dims::new([4isize, 0, 3]);
    let s = d.default_strides();
    assert_eq!(s.as_slice(), &[0isize, 0, 0][..]);
}

#[test]
fn fortran_strides_column_major() {
    let d = Dims::new([2isize, 3, 4]);
    let s = d.fortran_strides();
    assert_eq!(s.as_slice(), &[1isize, 2, 6][..]);
}

#[test]
fn fortran_strides_zero_extent() {
    let d = Dims::new([0isize, 3]);
    let s = d.fortran_strides();
    assert_eq!(s.as_slice(), &[0isize, 0][..]);
}

#[test]
fn default_strides_are_contiguous() {
    let d = Dims::new([2isize, 3, 4]);
    let s = d.default_strides();
    assert!(Dims3::is_contiguous(&d, &s));
}

#[test]
fn fortran_strides_are_contiguous() {
    let d = Dims::new([2isize, 3, 4]);
    let s = d.fortran_strides();
    assert!(Dims3::is_contiguous(&d, &s));
}

#[test]
fn rank_one_negative_unit_stride_is_contiguous() {
    let d = Dims::new([5isize]);
    let s = Dims::new([-1isize]);
    assert!(Dimensions::is_contiguous(&d, &s));
}

#[test]
fn reversed_axis_is_contiguous() {
    // reversed along axis 0: strides (-3, 1) over extents (2, 3)
    let d = Dims::new([2isize, 3]);
    let s = Dims::new([-3isize, 1]);
    assert!(Dims2::is_contiguous(&d, &s));
}

#[test]
fn gapped_strides_are_not_contiguous() {
    let d = Dims::new([2isize, 3]);
    let s = Dims::new([4isize, 1]);
    assert!(!Dims2::is_contiguous(&d, &s));
}

#[test]
fn size_is_extent_product() {
    assert_eq!(Dims::new([2isize, 3, 4]).size(), 24);
    assert_eq!(Dims::new([4isize, 0, 3]).size(), 0);
    let e: Dims<[isize; 0]> = Dims::new([]);
    assert_eq!(e.size(), 1);
}

#[test]
fn fastest_varying_stride_order_sorts_by_magnitude() {
    let s = Dims::new([3isize, 1]);
    assert_eq!(s._fastest_varying_stride_order().as_slice(), &[1isize, 0][..]);
    let f = Dims::new([1isize, 2, 6]);
    assert_eq!(f._fastest_varying_stride_order().as_slice(), &[0isize, 1, 2][..]);
    let neg = Dims::new([-3isize, 1]);
    assert_eq!(neg._fastest_varying_stride_order().as_slice(), &[1isize, 0][..]);
}

#[test]
fn dims_equal_compares_entries() {
    let a = Dims::new([2isize, 3]);
    let b = Dims::new([2isize, 3]);
    let c = Dims::new([3isize, 2]);
    assert!(a.equal(&b));
    assert!(!a.equal(&c));
}

#[test]
fn into_pattern_unpacks_extents() {
    assert_eq!(Dims::new([7isize]).into_pattern(), 7);
    assert_eq!(Dims::new([2isize, 3]).into_pattern(), (2, 3));
    assert_eq!(Dims::new([2isize, 3, 4]).into_pattern(), (2, 3, 4));
}

#[test]
fn into_dimension_from_tuples_and_arrays() {
    let d2 = (2isize, 3isize).into_dimension();
    assert_eq!(d2.as_slice(), &[2isize, 3][..]);
    let d1 = 5isize.into_dimension();
    assert_eq!(d1.as_slice(), &[5isize][..]);
    let d3 = [2isize, 3, 4].into_dimension();
    assert_eq!(d3.as_slice(), &[2isize, 3, 4][..]);
}

#[test]
fn dyn_dims_unsqueeze_inserts_unit_extent() {
    // S4: Dyn([1,2,3]).unsqueeze(1) == Dyn([1,1,2,3])
    let d: DynDims = Dims::new(DynDimsImpl::from_vec(vec![1isize, 2, 3]));
    let u = d.unsqueeze(1);
    assert_eq!(u.as_slice(), &[1isize, 1, 2, 3][..]);
}

#[test]
fn dyn_dims_unsqueeze_then_squeeze_is_identity() {
    // S4: d.unsqueeze(1).squeeze(1) == d
    let d: DynDims = Dims::new(DynDimsImpl::from_vec(vec![1isize, 2, 3]));
    let back = d.unsqueeze(1).squeeze(1);
    assert_eq!(back, d);
    for axis in 0..=3usize {
        let e: DynDims = Dims::new(DynDimsImpl::from_vec(vec![4isize, 5, 6]));
        let round = e.unsqueeze(axis.min(3)).squeeze(axis.min(3));
        assert_eq!(round, e);
    }
}

#[test]
fn dyn_dims_small_ranks_stay_inline() {
    let d: DynDims = Dims::new(DynDimsImpl::from_vec(vec![1isize, 2, 3]));
    assert!(!d.0.is_inline());
    let u = d.unsqueeze(0);
    // rank four still fits the inline buffer
    assert!(u.0.is_inline());
    let v = u.unsqueeze(0);
    // rank five spills to the heap
    assert!(!v.0.is_inline());
    let s = v.squeeze(0).squeeze(0);
    // rank three comes back inline
    assert!(s.0.is_inline());
}

#[test]
fn dyn_dims_squeeze_on_heap_ranks() {
    let d: DynDims = Dims::new(DynDimsImpl::from_vec(vec![2isize, 3, 4, 5, 6]));
    let s = d.squeeze(2);
    assert_eq!(s.as_slice(), &[2isize, 3, 5, 6][..]);
    // rank four after a squeeze stays on the heap
    assert!(!s.0.is_inline());
    let u = d.unsqueeze(5);
    assert_eq!(u.as_slice(), &[2isize, 3, 4, 5, 6, 1][..]);
    assert_eq!(u.squeeze(5), d);
}

#[test]
fn dyn_dims_zeros_and_set() {
    let mut d: DynDims = Dimensions::zeros(3);
    assert_eq!(d.as_slice(), &[0isize, 0, 0][..]);
    d.set(1, 7);
    assert_eq!(d.get(1), 7);
    assert_eq!(d.ndim(), 3);
}

#[test]
fn max_rank_is_symmetric() {
    // the broadcast rank operator picks the same type in both orders
    let a: DimsMaxOf<Dims2, Dims5> = Dims::new([1isize, 1, 1, 1, 1]);
    let b: DimsMaxOf<Dims5, Dims2> = a;
    assert_eq!(b.as_slice().len(), 5);
    let c: DimsMaxOf<Dims2, DynDims> = Dims::new(DynDimsImpl::from_vec(vec![2isize, 2]));
    let d: DimsMaxOf<DynDims, Dims2> = c;
    assert_eq!(d.ndim(), 2);
}

#[test]
fn low_addr_offset_reversed_axis() {
    // S6: strides (-3, 1) over extents (2, 3) put the base 3 above the low
    // address
    let d = Dims::new([2isize, 3]);
    let s = Dims::new([-3isize, 1]);
    assert_eq!(offset_from_low_addr_ptr_to_logical_ptr(&d, &s), 3);
}

#[test]
fn low_addr_offset_vanishes_without_negative_strides() {
    let d = Dims::new([2isize, 3]);
    let s = Dims::new([3isize, 1]);
    assert_eq!(offset_from_low_addr_ptr_to_logical_ptr(&d, &s), 0);
}

#[test]
fn low_addr_offset_sums_negative_axes() {
    // both axes reversed: 3*1 + 1*2 = 5
    let d = Dims::new([2isize, 3]);
    let s = Dims::new([-3isize, -1]);
    assert_eq!(offset_from_low_addr_ptr_to_logical_ptr(&d, &s), 5);
}

#[test]
fn unit_extent_axes_ignore_negative_strides() {
    let d = Dims::new([1isize, 3]);
    let s = Dims::new([-99isize, 1]);
    assert_eq!(offset_from_low_addr_ptr_to_logical_ptr(&d, &s), 0);
}
