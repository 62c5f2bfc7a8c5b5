//! An n-dimensional tensor library: shape/stride descriptors with verified
//! stride arithmetic, layered storage (owned, shared with clone-on-write,
//! borrowed views) over flat element buffers, and element-wise kernels.

pub mod allocator;
pub mod backend;
pub mod dimension;
pub mod elem;
pub mod error;
pub mod index;
pub mod ops;
pub mod shape_builder;
pub mod storage;
pub mod tensor;
pub mod tensor_view;

pub use dimension::dims_max::{DimsMax, DimsMaxOf};
pub use dimension::dimensions_trait::{Dimensions, IntoDimension};
pub use dimension::dims::{Dims, Dims0, Dims1, Dims2, Dims3, Dims4, Dims5, Dims6, Dims7, Dims8};
pub use dimension::dyn_dims::{DynDims, DynDimsImpl};

use vstd::prelude::*;
use crate::dimension::math::{
    abs_usize,
    is_extents,
    lemma_low_offset_drop_last,
    lemma_low_offset_prefix_le,
    low_offset,
    sv,
};

verus! {

/// How far the lowest address a layout reaches lies below its logical base:
/// the sum, over the axes with negative stride and extent above one, of
/// `(-stride) * (extent - 1)`.
pub fn offset_from_low_addr_ptr_to_logical_ptr<D: Dimensions>(dims: &D, strides: &D) -> (r: usize)
    requires
        dims.entries().len() == strides.entries().len(),
        is_extents(sv(dims.entries())),
        low_offset(sv(dims.entries()), sv(strides.entries())) <= isize::MAX as int,
    ensures
        r as int == low_offset(sv(dims.entries()), sv(strides.entries())),
{
    let ghost d = sv(dims.entries());
    let ghost s = sv(strides.entries());
    let n = dims.ndim();
    let mut off: usize = 0;
    let mut i: usize = 0;
    proof {
        assert(d.subrange(0, 0) =~= Seq::<int>::empty());
        assert(s.subrange(0, 0) =~= Seq::<int>::empty());
    }
    while i < n
        invariant
            i <= n,
            n as int == d.len(),
            d.len() == s.len(),
            d == sv(dims.entries()),
            s == sv(strides.entries()),
            is_extents(d),
            low_offset(d, s) <= isize::MAX as int,
            off as int == low_offset(d.subrange(0, i as int), s.subrange(0, i as int)),
        decreases n - i,
    {
        let dm = dims.get(i);
        let st = strides.get(i);
        proof {
            assert(dm as int == d[i as int]);
            assert(st as int == s[i as int]);
            lemma_low_offset_drop_last(d.subrange(0, i as int + 1), s.subrange(0, i as int + 1));
            assert(d.subrange(0, i as int + 1).drop_last() =~= d.subrange(0, i as int));
            assert(s.subrange(0, i as int + 1).drop_last() =~= s.subrange(0, i as int));
            assert(d.subrange(0, i as int + 1).last() == d[i as int]);
            assert(s.subrange(0, i as int + 1).last() == s[i as int]);
            lemma_low_offset_prefix_le(d, s, i as int + 1);
        }
        if st < 0 && dm > 1 {
            let mag = abs_usize(st);
            off = off + mag * ((dm as usize) - 1);
        }
        i = i + 1;
    }
    proof {
        assert(d.subrange(0, n as int) =~= d);
        assert(s.subrange(0, n as int) =~= s);
    }
    off
}

} // verus!
