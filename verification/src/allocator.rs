//! The allocator abstraction: element buffers come from and return to a
//! value-like allocator.

pub mod host;

use vstd::prelude::*;

verus! {

/// A source of element buffers. Allocation hands back an initialized buffer
/// of the requested length; release consumes the buffer.
pub trait Allocator: Sized {
    /// A fresh buffer of `count` elements, each holding `value`.
    fn allocate<T: Copy>(&self, value: T, count: usize) -> (v: Vec<T>)
        ensures
            v@ == Seq::new(count as nat, |i: int| value),
    ;

    /// Release a buffer.
    fn dealloc<T>(&self, buf: Vec<T>);

    /// Copy a whole buffer over an equally long destination, reusing the
    /// destination's allocation.
    fn copy<T: Copy>(&self, src: &[T], dst: &mut Vec<T>)
        requires
            old(dst)@.len() == src@.len(),
        ensures
            final(dst)@ == src@,
    ;
}

} // verus!
