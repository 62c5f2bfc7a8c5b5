//! The host-memory allocator: plain heap buffers.

use vstd::prelude::*;
use crate::allocator::Allocator;

verus! {

/// The host CPU's allocator.
#[derive(Copy, Clone, Debug)]
pub struct HostAllocator;

impl Default for HostAllocator {
    fn default() -> (r: Self)
        ensures
            r == HostAllocator,
    {
        HostAllocator
    }
}

impl Allocator for HostAllocator {
    fn allocate<T: Copy>(&self, value: T, count: usize) -> (v: Vec<T>) {
        let mut v: Vec<T> = Vec::new();
        let mut i: usize = 0;
        while i < count
            invariant
                i <= count,
                v@.len() == i,
                forall|j: int| 0 <= j < i ==> #[trigger] v@[j] == value,
            decreases count - i,
        {
            v.push(value);
            i = i + 1;
        }
        proof {
            assert(v@ =~= Seq::new(count as nat, |i: int| value));
        }
        v
    }

    fn dealloc<T>(&self, buf: Vec<T>) {
    }

    fn copy<T: Copy>(&self, src: &[T], dst: &mut Vec<T>) {
        let n = src.len();
        dst.clear();
        let mut i: usize = 0;
        while i < n
            invariant
                i <= n,
                n == src@.len(),
                dst@.len() == i,
                forall|j: int| 0 <= j < i ==> #[trigger] dst@[j] == src@[j],
            decreases n - i,
        {
            dst.push(src[i]);
            i = i + 1;
        }
        proof {
            assert(dst@ =~= src@);
        }
    }
}

} // verus!
