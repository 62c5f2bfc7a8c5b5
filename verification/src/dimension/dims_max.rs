//! The max-rank type operator: the dimension type that results from
//! broadcasting two operand dimension types, always the higher-ranked (or
//! dynamic) of the two.

use vstd::prelude::*;
use crate::dimension::dims::{Dims0, Dims1, Dims2, Dims3, Dims4, Dims5, Dims6, Dims7, Dims8};
use crate::dimension::dyn_dims::DynDims;
use crate::dimension::dimensions_trait::Dimensions;

verus! {

/// The resulting dimension type after broadcasting against `Rhs`.
pub trait DimsMax<Rhs: Dimensions>: Dimensions {
    type Output: Dimensions;

    /// A rank both operand types allow, the output type allows.
    proof fn lemma_output_rank(n: int)
        requires
            Self::rank_ok(n),
            Rhs::rank_ok(n),
        ensures
            Self::Output::rank_ok(n),
    ;
}

impl<D: Dimensions> DimsMax<D> for D {
    type Output = D;

    proof fn lemma_output_rank(n: int) {
    }
}

impl DimsMax<Dims1> for Dims0 {
    type Output = Dims1;

    proof fn lemma_output_rank(n: int) {
    }
}

impl DimsMax<Dims0> for Dims1 {
    type Output = Dims1;

    proof fn lemma_output_rank(n: int) {
    }
}

impl DimsMax<Dims2> for Dims0 {
    type Output = Dims2;

    proof fn lemma_output_rank(n: int) {
    }
}

impl DimsMax<Dims0> for Dims2 {
    type Output = Dims2;

    proof fn lemma_output_rank(n: int) {
    }
}

impl DimsMax<Dims3> for Dims0 {
    type Output = Dims3;

    proof fn lemma_output_rank(n: int) {
    }
}

impl DimsMax<Dims0> for Dims3 {
    type Output = Dims3;

    proof fn lemma_output_rank(n: int) {
    }
}

impl DimsMax<Dims4> for Dims0 {
    type Output = Dims4;

    proof fn lemma_output_rank(n: int) {
    }
}

impl DimsMax<Dims0> for Dims4 {
    type Output = Dims4;

    proof fn lemma_output_rank(n: int) {
    }
}

impl DimsMax<Dims5> for Dims0 {
    type Output = Dims5;

    proof fn lemma_output_rank(n: int) {
    }
}

impl DimsMax<Dims0> for Dims5 {
    type Output = Dims5;

    proof fn lemma_output_rank(n: int) {
    }
}

impl DimsMax<Dims6> for Dims0 {
    type Output = Dims6;

    proof fn lemma_output_rank(n: int) {
    }
}

impl DimsMax<Dims0> for Dims6 {
    type Output = Dims6;

    proof fn lemma_output_rank(n: int) {
    }
}

impl DimsMax<Dims7> for Dims0 {
    type Output = Dims7;

    proof fn lemma_output_rank(n: int) {
    }
}

impl DimsMax<Dims0> for Dims7 {
    type Output = Dims7;

    proof fn lemma_output_rank(n: int) {
    }
}

impl DimsMax<Dims8> for Dims0 {
    type Output = Dims8;

    proof fn lemma_output_rank(n: int) {
    }
}

impl DimsMax<Dims0> for Dims8 {
    type Output = Dims8;

    proof fn lemma_output_rank(n: int) {
    }
}

impl DimsMax<DynDims> for Dims0 {
    type Output = DynDims;

    proof fn lemma_output_rank(n: int) {
    }
}

impl DimsMax<Dims0> for DynDims {
    type Output = DynDims;

    proof fn lemma_output_rank(n: int) {
    }
}

impl DimsMax<Dims2> for Dims1 {
    type Output = Dims2;

    proof fn lemma_output_rank(n: int) {
    }
}

impl DimsMax<Dims1> for Dims2 {
    type Output = Dims2;

    proof fn lemma_output_rank(n: int) {
    }
}

impl DimsMax<Dims3> for Dims1 {
    type Output = Dims3;

    proof fn lemma_output_rank(n: int) {
    }
}

impl DimsMax<Dims1> for Dims3 {
    type Output = Dims3;

    proof fn lemma_output_rank(n: int) {
    }
}

impl DimsMax<Dims4> for Dims1 {
    type Output = Dims4;

    proof fn lemma_output_rank(n: int) {
    }
}

impl DimsMax<Dims1> for Dims4 {
    type Output = Dims4;

    proof fn lemma_output_rank(n: int) {
    }
}

impl DimsMax<Dims5> for Dims1 {
    type Output = Dims5;

    proof fn lemma_output_rank(n: int) {
    }
}

impl DimsMax<Dims1> for Dims5 {
    type Output = Dims5;

    proof fn lemma_output_rank(n: int) {
    }
}

impl DimsMax<Dims6> for Dims1 {
    type Output = Dims6;

    proof fn lemma_output_rank(n: int) {
    }
}

impl DimsMax<Dims1> for Dims6 {
    type Output = Dims6;

    proof fn lemma_output_rank(n: int) {
    }
}

impl DimsMax<Dims7> for Dims1 {
    type Output = Dims7;

    proof fn lemma_output_rank(n: int) {
    }
}

impl DimsMax<Dims1> for Dims7 {
    type Output = Dims7;

    proof fn lemma_output_rank(n: int) {
    }
}

impl DimsMax<Dims8> for Dims1 {
    type Output = Dims8;

    proof fn lemma_output_rank(n: int) {
    }
}

impl DimsMax<Dims1> for Dims8 {
    type Output = Dims8;

    proof fn lemma_output_rank(n: int) {
    }
}

impl DimsMax<DynDims> for Dims1 {
    type Output = DynDims;

    proof fn lemma_output_rank(n: int) {
    }
}

impl DimsMax<Dims1> for DynDims {
    type Output = DynDims;

    proof fn lemma_output_rank(n: int) {
    }
}

impl DimsMax<Dims3> for Dims2 {
    type Output = Dims3;

    proof fn lemma_output_rank(n: int) {
    }
}

impl DimsMax<Dims2> for Dims3 {
    type Output = Dims3;

    proof fn lemma_output_rank(n: int) {
    }
}

impl DimsMax<Dims4> for Dims2 {
    type Output = Dims4;

    proof fn lemma_output_rank(n: int) {
    }
}

impl DimsMax<Dims2> for Dims4 {
    type Output = Dims4;

    proof fn lemma_output_rank(n: int) {
    }
}

impl DimsMax<Dims5> for Dims2 {
    type Output = Dims5;

    proof fn lemma_output_rank(n: int) {
    }
}

impl DimsMax<Dims2> for Dims5 {
    type Output = Dims5;

    proof fn lemma_output_rank(n: int) {
    }
}

impl DimsMax<Dims6> for Dims2 {
    type Output = Dims6;

    proof fn lemma_output_rank(n: int) {
    }
}

impl DimsMax<Dims2> for Dims6 {
    type Output = Dims6;

    proof fn lemma_output_rank(n: int) {
    }
}

impl DimsMax<Dims7> for Dims2 {
    type Output = Dims7;

    proof fn lemma_output_rank(n: int) {
    }
}

impl DimsMax<Dims2> for Dims7 {
    type Output = Dims7;

    proof fn lemma_output_rank(n: int) {
    }
}

impl DimsMax<Dims8> for Dims2 {
    type Output = Dims8;

    proof fn lemma_output_rank(n: int) {
    }
}

impl DimsMax<Dims2> for Dims8 {
    type Output = Dims8;

    proof fn lemma_output_rank(n: int) {
    }
}

impl DimsMax<DynDims> for Dims2 {
    type Output = DynDims;

    proof fn lemma_output_rank(n: int) {
    }
}

impl DimsMax<Dims2> for DynDims {
    type Output = DynDims;

    proof fn lemma_output_rank(n: int) {
    }
}

impl DimsMax<Dims4> for Dims3 {
    type Output = Dims4;

    proof fn lemma_output_rank(n: int) {
    }
}

impl DimsMax<Dims3> for Dims4 {
    type Output = Dims4;

    proof fn lemma_output_rank(n: int) {
    }
}

impl DimsMax<Dims5> for Dims3 {
    type Output = Dims5;

    proof fn lemma_output_rank(n: int) {
    }
}

impl DimsMax<Dims3> for Dims5 {
    type Output = Dims5;

    proof fn lemma_output_rank(n: int) {
    }
}

impl DimsMax<Dims6> for Dims3 {
    type Output = Dims6;

    proof fn lemma_output_rank(n: int) {
    }
}

impl DimsMax<Dims3> for Dims6 {
    type Output = Dims6;

    proof fn lemma_output_rank(n: int) {
    }
}

impl DimsMax<Dims7> for Dims3 {
    type Output = Dims7;

    proof fn lemma_output_rank(n: int) {
    }
}

impl DimsMax<Dims3> for Dims7 {
    type Output = Dims7;

    proof fn lemma_output_rank(n: int) {
    }
}

impl DimsMax<Dims8> for Dims3 {
    type Output = Dims8;

    proof fn lemma_output_rank(n: int) {
    }
}

impl DimsMax<Dims3> for Dims8 {
    type Output = Dims8;

    proof fn lemma_output_rank(n: int) {
    }
}

impl DimsMax<DynDims> for Dims3 {
    type Output = DynDims;

    proof fn lemma_output_rank(n: int) {
    }
}

impl DimsMax<Dims3> for DynDims {
    type Output = DynDims;

    proof fn lemma_output_rank(n: int) {
    }
}

impl DimsMax<Dims5> for Dims4 {
    type Output = Dims5;

    proof fn lemma_output_rank(n: int) {
    }
}

impl DimsMax<Dims4> for Dims5 {
    type Output = Dims5;

    proof fn lemma_output_rank(n: int) {
    }
}

impl DimsMax<Dims6> for Dims4 {
    type Output = Dims6;

    proof fn lemma_output_rank(n: int) {
    }
}

impl DimsMax<Dims4> for Dims6 {
    type Output = Dims6;

    proof fn lemma_output_rank(n: int) {
    }
}

impl DimsMax<Dims7> for Dims4 {
    type Output = Dims7;

    proof fn lemma_output_rank(n: int) {
    }
}

impl DimsMax<Dims4> for Dims7 {
    type Output = Dims7;

    proof fn lemma_output_rank(n: int) {
    }
}

impl DimsMax<Dims8> for Dims4 {
    type Output = Dims8;

    proof fn lemma_output_rank(n: int) {
    }
}

impl DimsMax<Dims4> for Dims8 {
    type Output = Dims8;

    proof fn lemma_output_rank(n: int) {
    }
}

impl DimsMax<DynDims> for Dims4 {
    type Output = DynDims;

    proof fn lemma_output_rank(n: int) {
    }
}

impl DimsMax<Dims4> for DynDims {
    type Output = DynDims;

    proof fn lemma_output_rank(n: int) {
    }
}

impl DimsMax<Dims6> for Dims5 {
    type Output = Dims6;

    proof fn lemma_output_rank(n: int) {
    }
}

impl DimsMax<Dims5> for Dims6 {
    type Output = Dims6;

    proof fn lemma_output_rank(n: int) {
    }
}

impl DimsMax<Dims7> for Dims5 {
    type Output = Dims7;

    proof fn lemma_output_rank(n: int) {
    }
}

impl DimsMax<Dims5> for Dims7 {
    type Output = Dims7;

    proof fn lemma_output_rank(n: int) {
    }
}

impl DimsMax<Dims8> for Dims5 {
    type Output = Dims8;

    proof fn lemma_output_rank(n: int) {
    }
}

impl DimsMax<Dims5> for Dims8 {
    type Output = Dims8;

    proof fn lemma_output_rank(n: int) {
    }
}

impl DimsMax<DynDims> for Dims5 {
    type Output = DynDims;

    proof fn lemma_output_rank(n: int) {
    }
}

impl DimsMax<Dims5> for DynDims {
    type Output = DynDims;

    proof fn lemma_output_rank(n: int) {
    }
}

impl DimsMax<Dims7> for Dims6 {
    type Output = Dims7;

    proof fn lemma_output_rank(n: int) {
    }
}

impl DimsMax<Dims6> for Dims7 {
    type Output = Dims7;

    proof fn lemma_output_rank(n: int) {
    }
}

impl DimsMax<Dims8> for Dims6 {
    type Output = Dims8;

    proof fn lemma_output_rank(n: int) {
    }
}

impl DimsMax<Dims6> for Dims8 {
    type Output = Dims8;

    proof fn lemma_output_rank(n: int) {
    }
}

impl DimsMax<DynDims> for Dims6 {
    type Output = DynDims;

    proof fn lemma_output_rank(n: int) {
    }
}

impl DimsMax<Dims6> for DynDims {
    type Output = DynDims;

    proof fn lemma_output_rank(n: int) {
    }
}

impl DimsMax<Dims8> for Dims7 {
    type Output = Dims8;

    proof fn lemma_output_rank(n: int) {
    }
}

impl DimsMax<Dims7> for Dims8 {
    type Output = Dims8;

    proof fn lemma_output_rank(n: int) {
    }
}

impl DimsMax<DynDims> for Dims7 {
    type Output = DynDims;

    proof fn lemma_output_rank(n: int) {
    }
}

impl DimsMax<Dims7> for DynDims {
    type Output = DynDims;

    proof fn lemma_output_rank(n: int) {
    }
}

impl DimsMax<DynDims> for Dims8 {
    type Output = DynDims;

    proof fn lemma_output_rank(n: int) {
    }
}

impl DimsMax<Dims8> for DynDims {
    type Output = DynDims;

    proof fn lemma_output_rank(n: int) {
    }
}

/// The dimension type of a broadcast result.
pub type DimsMaxOf<D1, D2> = <D1 as DimsMax<D2>>::Output;

} // verus!
