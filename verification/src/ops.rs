//! Per-backend compute kernels: fill and the element-wise binary operations
//! over flat buffers.

pub mod host;

use vstd::prelude::*;
use crate::elem::Elem;

verus! {

/// The compute kernels a backend provides: write one value everywhere, and
/// the four element-wise binary operations over equally long flat buffers.
pub trait Ops: Sized {
    fn _fill<T: Elem>(value: T, out: &mut Vec<T>)
        ensures
            final(out)@ == Seq::new(old(out)@.len(), |i: int| value),
    ;

    fn _add<T: Elem>(lhs: &[T], rhs: &[T], out: &mut Vec<T>)
        requires
            lhs@.len() == rhs@.len(),
            forall|i: int| 0 <= i < lhs@.len() ==> #[trigger] lhs@[i].add_ok(rhs@[i]),
        ensures
            final(out)@.len() == lhs@.len(),
            forall|i: int|
                0 <= i < lhs@.len() ==> #[trigger] final(out)@[i] == lhs@[i].add_spec(rhs@[i]),
    ;

    fn _sub<T: Elem>(lhs: &[T], rhs: &[T], out: &mut Vec<T>)
        requires
            lhs@.len() == rhs@.len(),
            forall|i: int| 0 <= i < lhs@.len() ==> #[trigger] lhs@[i].sub_ok(rhs@[i]),
        ensures
            final(out)@.len() == lhs@.len(),
            forall|i: int|
                0 <= i < lhs@.len() ==> #[trigger] final(out)@[i] == lhs@[i].sub_spec(rhs@[i]),
    ;

    fn _mul<T: Elem>(lhs: &[T], rhs: &[T], out: &mut Vec<T>)
        requires
            lhs@.len() == rhs@.len(),
            forall|i: int| 0 <= i < lhs@.len() ==> #[trigger] lhs@[i].mul_ok(rhs@[i]),
        ensures
            final(out)@.len() == lhs@.len(),
            forall|i: int|
                0 <= i < lhs@.len() ==> #[trigger] final(out)@[i] == lhs@[i].mul_spec(rhs@[i]),
    ;

    fn _div<T: Elem>(lhs: &[T], rhs: &[T], out: &mut Vec<T>)
        requires
            lhs@.len() == rhs@.len(),
            forall|i: int| 0 <= i < lhs@.len() ==> #[trigger] lhs@[i].div_ok(rhs@[i]),
        ensures
            final(out)@.len() == lhs@.len(),
            forall|i: int|
                0 <= i < lhs@.len() ==> #[trigger] final(out)@[i] == lhs@[i].div_spec(rhs@[i]),
    ;
}

} // verus!
