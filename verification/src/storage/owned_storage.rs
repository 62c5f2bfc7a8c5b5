//! Exclusively owned storage, and shared storage behind a reference count
//! with clone-on-write.

use vstd::prelude::*;
use std::sync::Arc;
use crate::backend::{Allocator, Backend, MemOps};
use crate::dimension::dimensions_trait::Dimensions;
use crate::dimension::math::{
    dot,
    lemma_dot_bounds,
    lemma_prod_nonneg,
    low_offset,
    prod,
    span_sum,
    valid_idx,
};
use crate::offset_from_low_addr_ptr_to_logical_ptr;
use crate::storage::traits::{
    RawStorage,
    RawStorageClone,
    RawStorageMut,
    Storage,
    StorageMut,
    StorageOwned,
    StorageShared,
};
use crate::tensor::{TensorBase, lemma_wf_like};
use vstd::slice::slice_subrange;

verus! {

/// An exclusively owned element buffer and the backend that allocated it.
pub struct OwnedStorage<T, B> {
    pub buf: Vec<T>,
    pub backend: B,
}

impl<T: Copy, B: Backend> OwnedStorage<T, B> {
    /// Wrap a buffer already allocated on the given backend.
    pub fn from_buffer(buf: Vec<T>, backend: B) -> (r: Self)
        ensures
            r.buf == buf,
            r.backend == backend,
    {
        OwnedStorage { buf, backend }
    }

    /// The whole buffer.
    pub fn as_slice(&self) -> (r: &[T])
        ensures
            r@ == self.buf@,
    {
        self.buf.as_slice()
    }

    /// Release the buffer.
    pub fn release_memory(&mut self)
        ensures
            final(self).buf@.len() == 0,
            final(self).backend == old(self).backend,
    {
        self.buf = Vec::new();
    }
}

impl<T: Copy, B: Backend> RawStorage for OwnedStorage<T, B> {
    type Elem = T;

    type Backend = B;

    open spec fn contents(&self) -> Seq<T> {
        self.buf@
    }

    fn len(&self) -> (n: usize) {
        self.buf.len()
    }

    fn subslice(&self, from: usize, to: usize) -> (r: &[T]) {
        slice_subrange(self.buf.as_slice(), from, to)
    }

    fn _is_pointer_inbounds(&self, ptr: usize) -> (r: bool) {
        ptr <= self.buf.len()
    }

    fn backend(&self) -> Self::Backend {
        self.backend
    }
}

impl<T: Copy, B: Backend> RawStorageClone for OwnedStorage<T, B> {
    fn clone_with_ptr(&self, ptr: usize) -> (r: (Self, usize)) {
        let n = self.buf.len();
        if n == 0 {
            let nb: Vec<T> = Vec::new();
            proof {
                assert(nb@ =~= self.buf@);
            }
            return (OwnedStorage { buf: nb, backend: self.backend }, ptr);
        }
        let first = *vstd::slice::slice_index_get(self.buf.as_slice(), 0);
        let mut nb = self.backend.allocate(first, n);
        self.backend.copy(self.buf.as_slice(), &mut nb);
        (OwnedStorage { buf: nb, backend: self.backend }, ptr)
    }

    fn clone_from_with_ptr(&mut self, other: &Self, ptr: usize) -> (r: usize) {
        let be = other.backend;
        if self.buf.len() == other.buf.len() {
            be.copy(other.buf.as_slice(), &mut self.buf);
            self.backend = be;
            ptr
        } else {
            let (data, p) = other.clone_with_ptr(ptr);
            *self = data;
            p
        }
    }
}

impl<T: Copy, B: Backend> RawStorageMut for OwnedStorage<T, B> {
    open spec fn unique_observable() -> bool {
        true
    }

    fn try_ensure_unique<D: Dimensions>(t: &mut TensorBase<Self, D>) {
    }

    fn try_is_unique(&mut self) -> (r: Option<bool>) {
        Some(true)
    }
}

impl<T: Copy, B: Backend> Storage for OwnedStorage<T, B> {
    open spec fn own_needs_contiguous() -> bool {
        false
    }

    fn into_owned<D: Dimensions>(t: TensorBase<Self, D>) -> (r: TensorBase<
        OwnedStorage<T, B>,
        D,
    >) {
        t
    }

    fn try_into_owned_nocopy<D: Dimensions>(t: TensorBase<Self, D>) -> (r: Result<
        TensorBase<OwnedStorage<T, B>, D>,
        TensorBase<Self, D>,
    >) {
        Ok(t)
    }

    fn to_shared<D: Dimensions>(t: &TensorBase<Self, D>) -> (r: TensorBase<
        OwnedArcStorage<T, B>,
        D,
    >) {
        let o = t.to_owned();
        let ghost og = o;
        let TensorBase { storage, ptr, dims, strides } = o;
        let OwnedStorage { buf, backend } = storage;
        let r = TensorBase {
            storage: OwnedArcStorage { arc: Arc::new(buf), backend },
            ptr,
            dims,
            strides,
        };
        proof {
            lemma_wf_like(&og, &r);
        }
        r
    }
}

impl<T: Copy, B: Backend> StorageMut for OwnedStorage<T, B> {
}

impl<T: Copy, B: Backend> StorageOwned for OwnedStorage<T, B> {
    fn empty(size: usize, backend: B, fill: T) -> (r: (Self, usize)) {
        let buf = backend.allocate(fill, size);
        (OwnedStorage { buf, backend }, 0usize)
    }

    fn fill(&mut self, value: T) {
        let be = self.backend;
        be.fill(&mut self.buf, value);
    }

    fn into_shared(self) -> (r: OwnedArcStorage<T, B>) {
        let OwnedStorage { buf, backend } = self;
        OwnedArcStorage { arc: Arc::new(buf), backend }
    }
}

/// A shared element buffer: a reference-counted handle and the backend that
/// allocated the buffer.
#[derive(Clone)]
pub struct OwnedArcStorage<T, B> {
    pub arc: Arc<Vec<T>>,
    pub backend: B,
}

/// Relies on Arc::try_unwrap: hands back the buffer when this handle is the
/// only one, else the same handle it was given.
#[verifier::external_body]
fn arc_try_unwrap<T>(a: Arc<Vec<T>>) -> (r: Result<Vec<T>, Arc<Vec<T>>>)
    ensures
        match r {
            Ok(v) => v@ == a@,
            Err(e) => e == a,
        },
{
    Arc::try_unwrap(a)
}

/// Relies on Arc::clone: a new handle to the same buffer.
#[verifier::external_body]
fn arc_clone<T>(a: &Arc<Vec<T>>) -> (r: Arc<Vec<T>>)
    ensures
        r@ == a@,
{
    Arc::clone(a)
}

/// Relies on Arc::strong_count: whether this handle is currently the only
/// one. The answer depends on what other handles are alive, so nothing is
/// promised of it.
#[verifier::external_body]
fn arc_is_unique<T>(a: &Arc<Vec<T>>) -> bool {
    Arc::strong_count(a) == 1
}

impl<T: Copy, B: Backend> RawStorage for OwnedArcStorage<T, B> {
    type Elem = T;

    type Backend = B;

    open spec fn contents(&self) -> Seq<T> {
        self.arc@
    }

    fn len(&self) -> (n: usize) {
        self.arc.len()
    }

    fn subslice(&self, from: usize, to: usize) -> (r: &[T]) {
        slice_subrange(self.arc.as_slice(), from, to)
    }

    fn _is_pointer_inbounds(&self, ptr: usize) -> (r: bool) {
        ptr <= self.arc.len()
    }

    fn backend(&self) -> Self::Backend {
        self.backend
    }
}

impl<T: Copy, B: Backend> RawStorageClone for OwnedArcStorage<T, B> {
    fn clone_with_ptr(&self, ptr: usize) -> (r: (Self, usize)) {
        (OwnedArcStorage { arc: arc_clone(&self.arc), backend: self.backend }, ptr)
    }
}

/// Detach a shared tensor from co-owners of its buffer, if any: a no-op
/// (up to rewrapping) when this handle is unique; otherwise, when the
/// visible range is at most half the backing buffer and the layout is
/// contiguous, a fresh buffer holding exactly the visible range; otherwise a
/// full copy of the backing buffer at the same base offset.
pub fn ensure_unique_cow<T: Copy, B: Backend, D: Dimensions>(
    t: &mut TensorBase<OwnedArcStorage<T, B>, D>,
)
    requires
        old(t).wf(),
    ensures
        final(t).wf(),
        final(t).dims.entries() == old(t).dims.entries(),
        final(t).strides.entries() == old(t).strides.entries(),
        forall|idx: Seq<int>|
            valid_idx(idx, old(t).dims_seq()) ==> #[trigger] final(t).elem_at(idx)
                == old(t).elem_at(idx),
        (final(t).contents() == old(t).contents() && final(t).ptr == old(t).ptr) || {
            &&& 2 * old(t).size_spec() <= old(t).contents().len()
            &&& old(t).is_contiguous_spec()
            &&& final(t).contents().len() == old(t).size_spec()
            &&& final(t).contents() == old(t).mem_order_seq()
        },
{
    let ghost d = old(t).dims_seq();
    let ghost s = old(t).strides_seq();
    let size = t.dims.size();
    let backing = t.storage.len();
    let contiguous = t.is_contiguous();
    let narrow = size <= backing / 2 && contiguous;
    let backend = t.storage.backend();
    let mut taken = OwnedArcStorage { arc: Arc::new(Vec::new()), backend };
    core::mem::swap(&mut taken, &mut t.storage);
    match arc_try_unwrap(taken.arc) {
        Ok(buf) => {
            // this handle was the only owner: keep the buffer as it is
            t.storage = OwnedArcStorage { arc: Arc::new(buf), backend };
            proof {
                assert(t.contents() =~= old(t).contents());
                lemma_wf_like(old(t), t);
            }
        },
        Err(arc) => {
            if narrow {
                // copy only the visible range and rebase onto it
                if size == 0 {
                    let nb: Vec<T> = Vec::new();
                    t.storage = OwnedArcStorage { arc: Arc::new(nb), backend };
                    t.ptr = 0;
                    proof {
                        assert(t.contents() =~= old(t).mem_order_seq());
                        assert forall|idx: Seq<int>| valid_idx(idx, d) implies 0 <= #[trigger] t
                            .addr_of(idx) < t.contents().len() by {
                            crate::dimension::math::lemma_prod_pos_iff(d);
                            assert forall|i: int| 0 <= i < d.len() implies #[trigger] d[i] >= 1 by {
                                assert(0 <= idx[i] < d[i]);
                            }
                            assert(crate::dimension::math::all_positive(d));
                        }
                    }
                } else {
                    let off = offset_from_low_addr_ptr_to_logical_ptr(&t.dims, &t.strides);
                    let low = t.ptr - off;
                    let src = slice_subrange(arc.as_slice(), low, low + size);
                    let first = *vstd::slice::slice_index_get(src, 0);
                    let mut nb = backend.allocate(first, size);
                    backend.copy(src, &mut nb);
                    t.storage = OwnedArcStorage { arc: Arc::new(nb), backend };
                    t.ptr = off;
                    proof {
                        assert(t.contents() =~= old(t).mem_order_seq());
                        lemma_prod_nonneg(d);
                        crate::dimension::math::lemma_prod_le_prod_nz(d);
                        crate::dimension::math::lemma_prod_pos_iff(d);
                        assert(crate::dimension::math::all_positive(d));
                        crate::dimension::math::lemma_low_offset_le_span(d, s);
                        assert(span_sum(d, s) == prod(d) - 1);
                        assert(t.low_spec() == 0);
                        assert forall|idx: Seq<int>| valid_idx(idx, d) implies {
                            &&& 0 <= #[trigger] t.addr_of(idx) < t.contents().len()
                            &&& t.elem_at(idx) == old(t).elem_at(idx)
                        } by {
                            lemma_dot_bounds(idx, d, s);
                            assert(span_sum(d, s) == prod(d) - 1);
                            assert(t.contents()[off + dot(idx, s)] == old(t).contents()[low + off
                                + dot(idx, s)]);
                        }
                        assert(t.mem_order_seq() =~= old(t).mem_order_seq());
                    }
                }
            } else {
                // copy the whole backing buffer; the base offset is kept
                let n = arc.len();
                let mut nb: Vec<T> = Vec::new();
                let mut i: usize = 0;
                while i < n
                    invariant
                        i <= n,
                        n == arc@.len(),
                        nb@.len() == i,
                        forall|j: int| 0 <= j < i ==> #[trigger] nb@[j] == arc@[j],
                    decreases n - i,
                {
                    nb.push(arc[i]);
                    i = i + 1;
                }
                proof {
                    assert(nb@ =~= arc@);
                }
                t.storage = OwnedArcStorage { arc: Arc::new(nb), backend };
                proof {
                    assert(t.contents() =~= old(t).contents());
                    lemma_wf_like(old(t), t);
                }
            }
        },
    }
}

impl<T: Copy, B: Backend> RawStorageMut for OwnedArcStorage<T, B> {
    open spec fn unique_observable() -> bool {
        true
    }

    fn try_ensure_unique<D: Dimensions>(t: &mut TensorBase<Self, D>) {
        ensure_unique_cow(t);
    }

    fn try_is_unique(&mut self) -> (r: Option<bool>) {
        Some(arc_is_unique(&self.arc))
    }
}

impl<T: Copy, B: Backend> Storage for OwnedArcStorage<T, B> {
    open spec fn own_needs_contiguous() -> bool {
        false
    }

    fn into_owned<D: Dimensions>(t: TensorBase<Self, D>) -> (r: TensorBase<
        OwnedStorage<T, B>,
        D,
    >) {
        let mut t = t;
        ensure_unique_cow(&mut t);
        let ghost tg = t;
        let TensorBase { storage, ptr, dims, strides } = t;
        let backend = storage.backend;
        let buf = match arc_try_unwrap(storage.arc) {
            Ok(buf) => buf,
            Err(arc) => {
                // another handle appeared; fall back to a full copy
                let n = arc.len();
                let mut nb: Vec<T> = Vec::new();
                let mut i: usize = 0;
                while i < n
                    invariant
                        i <= n,
                        n == arc@.len(),
                        nb@.len() == i,
                        forall|j: int| 0 <= j < i ==> #[trigger] nb@[j] == arc@[j],
                    decreases n - i,
                {
                    nb.push(arc[i]);
                    i = i + 1;
                }
                proof {
                    assert(nb@ =~= arc@);
                }
                nb
            },
        };
        let r = TensorBase { storage: OwnedStorage { buf, backend }, ptr, dims, strides };
        proof {
            lemma_wf_like(&tg, &r);
        }
        r
    }

    fn try_into_owned_nocopy<D: Dimensions>(t: TensorBase<Self, D>) -> (r: Result<
        TensorBase<OwnedStorage<T, B>, D>,
        TensorBase<Self, D>,
    >) {
        let ghost tg = t;
        let TensorBase { storage, ptr, dims, strides } = t;
        let backend = storage.backend;
        match arc_try_unwrap(storage.arc) {
            Ok(buf) => {
                let o = TensorBase { storage: OwnedStorage { buf, backend }, ptr, dims, strides };
                proof {
                    lemma_wf_like(&tg, &o);
                }
                Ok(o)
            },
            Err(arc) => {
                let e = TensorBase { storage: OwnedArcStorage { arc, backend }, ptr, dims, strides };
                Err(e)
            },
        }
    }

    fn to_shared<D: Dimensions>(t: &TensorBase<Self, D>) -> (r: TensorBase<
        OwnedArcStorage<T, B>,
        D,
    >) {
        // sharing shared storage never copies elements
        t.clone()
    }
}

impl<T: Copy, B: Backend> StorageMut for OwnedArcStorage<T, B> {
}

impl<T: Copy, B: Backend, D: Dimensions> TensorBase<OwnedArcStorage<T, B>, D> {
    /// Write one value to every slot, detaching from co-owners first: other
    /// handles to the old buffer keep their elements.
    pub fn fill(&mut self, value: T)
        requires
            old(self).wf(),
        ensures
            final(self).wf(),
            final(self).dims.entries() == old(self).dims.entries(),
            final(self).strides.entries() == old(self).strides.entries(),
            final(self).contents() == Seq::new(final(self).contents().len(), |i: int| value),
            forall|idx: Seq<int>|
                valid_idx(idx, old(self).dims_seq()) ==> #[trigger] final(self).elem_at(idx)
                    == value,
    {
        ensure_unique_cow(self);
        let ghost mid = *self;
        let backend = self.storage.backend;
        let mut taken = OwnedArcStorage { arc: Arc::new(Vec::new()), backend };
        core::mem::swap(&mut taken, &mut self.storage);
        let mut buf = match arc_try_unwrap(taken.arc) {
            Ok(b) => b,
            Err(arc) => {
                let n = arc.len();
                let mut nb: Vec<T> = Vec::new();
                let mut i: usize = 0;
                while i < n
                    invariant
                        i <= n,
                        n == arc@.len(),
                        nb@.len() == i,
                        forall|j: int| 0 <= j < i ==> #[trigger] nb@[j] == arc@[j],
                    decreases n - i,
                {
                    nb.push(arc[i]);
                    i = i + 1;
                }
                proof {
                    assert(nb@ =~= arc@);
                }
                nb
            },
        };
        backend.fill(&mut buf, value);
        self.storage = OwnedArcStorage { arc: Arc::new(buf), backend };
        proof {
            assert forall|idx: Seq<int>| valid_idx(idx, self.dims_seq()) implies {
                &&& 0 <= #[trigger] self.addr_of(idx) < self.contents().len()
                &&& self.elem_at(idx) == value
            } by {
                assert(self.addr_of(idx) == mid.addr_of(idx));
                assert(0 <= mid.addr_of(idx) < mid.contents().len());
            }
        }
    }

    /// Whether this tensor is currently the only owner of its buffer.
    pub fn is_unique(&mut self) -> (r: bool)
        ensures
            *final(self) == *old(self),
    {
        arc_is_unique(&self.storage.arc)
    }
}

impl<T: Copy, B: Backend> StorageShared for OwnedArcStorage<T, B> {
}

} // verus!
