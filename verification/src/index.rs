//! The machine integer carried by dimension values: extents use the
//! non-negative range, strides the full signed range.

use vstd::prelude::*;

verus! {

/// One extent or stride entry.
pub type Ix = isize;

} // verus!
