//! Execution core of a numeric-graph inference runtime: kernel selection and
//! packing, fused kernel invocation, element-wise tiled execution, batched
//! matrix-multiply dispatch decomposition, and the graph pass that offloads
//! eligible nodes to a GPU backend.
use vstd::prelude::*;

pub mod datum;
pub mod error;
pub mod fact;
pub mod fused;
pub mod gemm;
pub mod gemm_op;
pub mod graph;
pub mod kernel_selection;
pub mod pack;
pub mod registry;
pub mod transform;
pub mod unicast;

verus! {

} // verus!
