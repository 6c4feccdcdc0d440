//! Errors of the execution core. None is retried: each is terminal for the
//! operation that raised it.
use vstd::prelude::*;

use crate::datum::DatumType;
use crate::kernel_selection::{KitDatumType, PackingFormat};

verus! {

#[derive(Debug, Clone, Copy, PartialEq, Eq)]
pub enum CoreError {
    /// No registered kernel has a packing pair for the requested operand types.
    KernelNotFound { kernel: &'static str, a_dt: DatumType, b_dt: DatumType },
    /// The constant-operand path found no kit for the pre-packed operand's
    /// format with the required accumulator and activation types.
    NoKitFound { packed: PackingFormat, accumulator: KitDatumType, activation: KitDatumType },
    /// Batch dimensions that cannot be reconciled by broadcasting.
    IncompatibleBatchDims,
    /// The backend cannot represent the requested element type.
    UnsupportedDatumType(DatumType),
    /// The underlying compute call reported a failure.
    DispatchFailure,
    /// A shape of the wrong rank, or shapes that do not agree.
    InvalidShape,
    /// A size or byte range that does not fit in the address space.
    SizeOverflow,
}

} // verus!
