//! The host CPU backend.

use vstd::prelude::*;
use crate::backend::{Allocator, Backend, BackendKind, MemOps};
use crate::ops::host::HostOps;

verus! {

/// The host CPU device.
#[derive(Copy, Clone, Debug)]
pub struct CpuBackend;

impl Default for CpuBackend {
    fn default() -> (r: Self)
        ensures
            r == CpuBackend,
    {
        CpuBackend
    }
}

impl Allocator for CpuBackend {
    fn allocate<T: Copy>(&self, value: T, count: usize) -> (v: Vec<T>) {
        let mut v: Vec<T> = Vec::new();
        let mut i: usize = 0;
        while i < count
            invariant
                i <= count,
                v@.len() == i,
                forall|j: int| 0 <= j < i ==> #[trigger] v@[j] == value,
            decreases count - i,
        {
            v.push(value);
            i = i + 1;
        }
        proof {
            assert(v@ =~= Seq::new(count as nat, |i: int| value));
        }
        v
    }

    fn dealloc<T>(&self, buf: Vec<T>) {
    }
}

impl MemOps for CpuBackend {
    fn copy<T: Copy>(&self, src: &[T], dst: &mut Vec<T>) {
        let n = src.len();
        dst.clear();
        let mut i: usize = 0;
        while i < n
            invariant
                i <= n,
                n == src@.len(),
                dst@.len() == i,
                forall|j: int| 0 <= j < i ==> #[trigger] dst@[j] == src@[j],
            decreases n - i,
        {
            dst.push(src[i]);
            i = i + 1;
        }
        proof {
            assert(dst@ =~= src@);
        }
    }

    fn fill<T: Copy>(&self, dst: &mut Vec<T>, value: T) {
        let n = dst.len();
        dst.clear();
        let mut i: usize = 0;
        while i < n
            invariant
                i <= n,
                dst@.len() == i,
                forall|j: int| 0 <= j < i ==> #[trigger] dst@[j] == value,
            decreases n - i,
        {
            dst.push(value);
            i = i + 1;
        }
        proof {
            assert(dst@ =~= Seq::new(old(dst)@.len(), |i: int| value));
        }
    }
}

impl Backend for CpuBackend {
    type Kernels = HostOps;

    open spec fn kind_spec() -> BackendKind {
        BackendKind::Cpu
    }

    fn kind() -> (k: BackendKind) {
        BackendKind::Cpu
    }
}

} // verus!
