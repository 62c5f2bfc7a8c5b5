//! The compute backend: a value-like device that allocates, copies, and
//! fills element buffers, and names the kernels that run on it.

pub mod cpu;

use vstd::prelude::*;

verus! {

/// The kind of device a backend drives.
#[derive(Copy, Clone, Debug, PartialEq, Eq, Structural)]
pub enum BackendKind {
    Cpu,
    Cuda,
}

/// Buffer allocation on a backend's memory.
pub trait Allocator: Sized {
    /// A fresh buffer of `count` elements, each holding `value`.
    fn allocate<T: Copy>(&self, value: T, count: usize) -> (v: Vec<T>)
        ensures
            v@ == Seq::new(count as nat, |i: int| value),
    ;

    /// Release a buffer.
    fn dealloc<T>(&self, buf: Vec<T>);
}

/// Bulk memory operations on a backend's memory.
pub trait MemOps: Sized {
    /// Copy a whole buffer over an equally long destination.
    fn copy<T: Copy>(&self, src: &[T], dst: &mut Vec<T>)
        requires
            old(dst)@.len() == src@.len(),
        ensures
            final(dst)@ == src@,
    ;

    /// Write one value to every slot of a buffer.
    fn fill<T: Copy>(&self, dst: &mut Vec<T>, value: T)
        ensures
            final(dst)@ == Seq::new(old(dst)@.len(), |i: int| value),
    ;
}

/// A compute device: value-like, cheap to copy, with memory operations and a
/// kernel set.
pub trait Backend: Allocator + MemOps + Copy + Clone + Default + Sized {
    /// The kernels that run on this backend.
    type Kernels: crate::ops::Ops;

    spec fn kind_spec() -> BackendKind;

    fn kind() -> (k: BackendKind)
        ensures
            k == Self::kind_spec(),
    ;
}

} // verus!
