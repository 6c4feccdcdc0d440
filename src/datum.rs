//! Element (datum) types and the predicates that the kernels and backends use
//! to decide what they can hold.
use vstd::prelude::*;

verus! {

/// Tag of the element type of a tensor.
#[derive(Debug, Clone, Copy, PartialEq, Eq, Hash, Structural)]
pub enum DatumType {
    Bool,
    U8,
    U16,
    U32,
    U64,
    I8,
    I16,
    I32,
    I64,
    F16,
    F32,
    F64,
    /// Quantized signed 8-bit integer.
    QI8,
    /// Quantized unsigned 8-bit integer.
    QU8,
    /// Quantized signed 32-bit integer.
    QI32,
    /// Boxed value of a type unknown to the kernels (a handle to a fat pointer).
    Opaque,
}

/// Size in bytes of one element.
pub open spec fn size_of_spec(dt: DatumType) -> nat {
    match dt {
        DatumType::Bool | DatumType::U8 | DatumType::I8 | DatumType::QI8 | DatumType::QU8 => 1,
        DatumType::U16 | DatumType::I16 | DatumType::F16 => 2,
        DatumType::U32 | DatumType::I32 | DatumType::F32 | DatumType::QI32 => 4,
        DatumType::U64 | DatumType::I64 | DatumType::F64 => 8,
        DatumType::Opaque => 16,
    }
}

/// The type with the quantization parameters stripped: a quantized variant
/// compares by its underlying representation.
pub open spec fn unquantized_spec(dt: DatumType) -> DatumType {
    match dt {
        DatumType::QI8 => DatumType::I8,
        DatumType::QU8 => DatumType::U8,
        DatumType::QI32 => DatumType::I32,
        _ => dt,
    }
}

pub open spec fn is_integer_spec(dt: DatumType) -> bool {
    match dt {
        DatumType::U8 | DatumType::U16 | DatumType::U32 | DatumType::U64 | DatumType::I8
        | DatumType::I16 | DatumType::I32 | DatumType::I64 | DatumType::QI8 | DatumType::QU8
        | DatumType::QI32 => true,
        _ => false,
    }
}

pub open spec fn is_float_spec(dt: DatumType) -> bool {
    dt == DatumType::F16 || dt == DatumType::F32 || dt == DatumType::F64
}

/// Element types on which arithmetic is defined.
pub open spec fn is_number_spec(dt: DatumType) -> bool {
    is_integer_spec(dt) || is_float_spec(dt)
}

/// Element types that can be moved bytewise between host and device.
pub open spec fn is_copy_spec(dt: DatumType) -> bool {
    dt != DatumType::Opaque
}

/// Element types that a device-resident tensor can hold.
pub open spec fn gpu_supports_spec(dt: DatumType) -> bool {
    match dt {
        DatumType::Bool | DatumType::F32 | DatumType::F16 | DatumType::I8 | DatumType::U8
        | DatumType::I16 | DatumType::U16 | DatumType::I32 | DatumType::U32 | DatumType::I64
        | DatumType::U64 => true,
        _ => false,
    }
}

impl DatumType {
    pub fn size_of(&self) -> (r: usize)
        ensures
            r == size_of_spec(*self),
            1 <= r <= 16,
    {
        match self {
            DatumType::Bool | DatumType::U8 | DatumType::I8 | DatumType::QI8 | DatumType::QU8 => 1,
            DatumType::U16 | DatumType::I16 | DatumType::F16 => 2,
            DatumType::U32 | DatumType::I32 | DatumType::F32 | DatumType::QI32 => 4,
            DatumType::U64 | DatumType::I64 | DatumType::F64 => 8,
            DatumType::Opaque => 16,
        }
    }

    pub fn unquantized(&self) -> (r: DatumType)
        ensures
            r == unquantized_spec(*self),
    {
        match self {
            DatumType::QI8 => DatumType::I8,
            DatumType::QU8 => DatumType::U8,
            DatumType::QI32 => DatumType::I32,
            _ => *self,
        }
    }

    pub fn is_integer(&self) -> (r: bool)
        ensures
            r == is_integer_spec(*self),
    {
        match self {
            DatumType::U8 | DatumType::U16 | DatumType::U32 | DatumType::U64 | DatumType::I8
            | DatumType::I16 | DatumType::I32 | DatumType::I64 | DatumType::QI8
            | DatumType::QU8 | DatumType::QI32 => true,
            _ => false,
        }
    }

    pub fn is_float(&self) -> (r: bool)
        ensures
            r == is_float_spec(*self),
    {
        match self {
            DatumType::F16 | DatumType::F32 | DatumType::F64 => true,
            _ => false,
        }
    }

    pub fn is_number(&self) -> (r: bool)
        ensures
            r == is_number_spec(*self),
    {
        self.is_integer() || self.is_float()
    }

    pub fn is_copy(&self) -> (r: bool)
        ensures
            r == is_copy_spec(*self),
    {
        match self {
            DatumType::Opaque => false,
            _ => true,
        }
    }

    /// Whether a device-resident tensor can hold elements of this type.
    pub fn is_gpu_supported(&self) -> (r: bool)
        ensures
            r == gpu_supports_spec(*self),
    {
        match self {
            DatumType::Bool | DatumType::F32 | DatumType::F16 | DatumType::I8 | DatumType::U8
            | DatumType::I16 | DatumType::U16 | DatumType::I32 | DatumType::U32
            | DatumType::I64 | DatumType::U64 => true,
            _ => false,
        }
    }
}

} // verus!
