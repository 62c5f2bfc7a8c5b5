//! Shape/stride descriptors: fixed-rank and dynamically-ranked dimension
//! values, stride computation, contiguity, and the max-rank type operator.

pub mod conversion;
pub mod dims;
pub mod dims_max;
pub mod dimensions_trait;
pub mod dyn_dims;
pub mod math;
pub mod order;

pub use dims::{Dims, Dims0, Dims1, Dims2, Dims3, Dims4, Dims5, Dims6, Dims7, Dims8};
pub use dims_max::{DimsMax, DimsMaxOf};
pub use dimensions_trait::{Dimensions, IntoDimension};
pub use dyn_dims::{DynDims, DynDimsImpl};
