//! The host CPU kernels: plain verified loops over flat buffers.

use vstd::prelude::*;
use crate::elem::Elem;
use crate::ops::Ops;

verus! {

/// The host CPU's compute kernels.
#[derive(Copy, Clone, Debug)]
pub struct HostOps;

impl Default for HostOps {
    fn default() -> (r: Self)
        ensures
            r == HostOps,
    {
        HostOps
    }
}

/// Apply a binary operation pair-wise over two equally long buffers,
/// rebuilding the output buffer in place.
pub fn zip_binary_op<T: Elem, F: Fn(T, T) -> T>(lhs: &[T], rhs: &[T], out: &mut Vec<T>, f: F)
    requires
        lhs@.len() == rhs@.len(),
        forall|i: int| 0 <= i < lhs@.len() ==> call_requires(f, (#[trigger] lhs@[i], rhs@[i])),
    ensures
        final(out)@.len() == lhs@.len(),
        forall|i: int|
            0 <= i < lhs@.len() ==> call_ensures(f, (#[trigger] lhs@[i], rhs@[i]), final(out)@[i]),
{
    let n = lhs.len();
    out.clear();
    let mut i: usize = 0;
    while i < n
        invariant
            i <= n,
            n == lhs@.len(),
            lhs@.len() == rhs@.len(),
            out@.len() == i,
            forall|j: int| 0 <= j < lhs@.len() ==> call_requires(f, (#[trigger] lhs@[j], rhs@[j])),
            forall|j: int| 0 <= j < i ==> call_ensures(f, (#[trigger] lhs@[j], rhs@[j]), out@[j]),
        decreases n - i,
    {
        let z = f(lhs[i], rhs[i]);
        out.push(z);
        i = i + 1;
    }
}

impl Ops for HostOps {
    fn _fill<T: Elem>(value: T, out: &mut Vec<T>) {
        let n = out.len();
        out.clear();
        let mut i: usize = 0;
        while i < n
            invariant
                i <= n,
                out@.len() == i,
                forall|j: int| 0 <= j < i ==> #[trigger] out@[j] == value,
            decreases n - i,
        {
            out.push(value);
            i = i + 1;
        }
        proof {
            assert(out@ =~= Seq::new(old(out)@.len(), |i: int| value));
        }
    }

    fn _add<T: Elem>(lhs: &[T], rhs: &[T], out: &mut Vec<T>) {
        let f = (|x: T, y: T| -> (r: T)
            requires
                x.add_ok(y),
            ensures
                r == x.add_spec(y),
            { x.add(y) });
        zip_binary_op(lhs, rhs, out, f);
    }

    fn _sub<T: Elem>(lhs: &[T], rhs: &[T], out: &mut Vec<T>) {
        let f = (|x: T, y: T| -> (r: T)
            requires
                x.sub_ok(y),
            ensures
                r == x.sub_spec(y),
            { x.sub(y) });
        zip_binary_op(lhs, rhs, out, f);
    }

    fn _mul<T: Elem>(lhs: &[T], rhs: &[T], out: &mut Vec<T>) {
        let f = (|x: T, y: T| -> (r: T)
            requires
                x.mul_ok(y),
            ensures
                r == x.mul_spec(y),
            { x.mul(y) });
        zip_binary_op(lhs, rhs, out, f);
    }

    fn _div<T: Elem>(lhs: &[T], rhs: &[T], out: &mut Vec<T>) {
        let f = (|x: T, y: T| -> (r: T)
            requires
                x.div_ok(y),
            ensures
                r == x.div_spec(y),
            { x.div(y) });
        zip_binary_op(lhs, rhs, out, f);
    }
}

} // verus!
