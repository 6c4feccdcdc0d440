//! Registries of element-wise kernels, keyed by operation and element type,
//! populated once at start-up and read thereafter.
use vstd::prelude::*;

use crate::datum::DatumType;

verus! {

/// Binary operations that element-wise kernels implement.
#[derive(Debug, Clone, Copy, PartialEq, Eq, Hash, Structural)]
pub enum BinOp {
    Min,
    Max,
    Add,
    Mul,
    Sub,
    /// Subtraction with the operands flipped: `b - a`.
    SubF,
}

/// A registered element-wise kernel: its name and tile width.
#[derive(Debug, Clone, Copy, PartialEq, Eq, Hash)]
pub struct ElementWiseKernel {
    pub name: &'static str,
    pub nr: usize,
}

pub type RegistryEntry = ((BinOp, DatumType), ElementWiseKernel);

/// Kernels by (operation, element type); a later registration of a key
/// replaces an earlier one.
#[derive(Debug)]
pub struct LinalgRegistry {
    pub entries: Vec<RegistryEntry>,
}

/// Registry of reducers, keyed the same way.
pub type Linalg1Registry = LinalgRegistry;

/// The kernel registered last under `key`.
pub open spec fn lookup_spec(entries: Seq<RegistryEntry>, key: (BinOp, DatumType)) -> Option<ElementWiseKernel>
    decreases entries.len(),
{
    if entries.len() == 0 {
        None
    } else if entries.last().0 == key {
        Some(entries.last().1)
    } else {
        lookup_spec(entries.drop_last(), key)
    }
}

pub open spec fn entry(op: BinOp, dt: DatumType, name: &'static str, nr: usize) -> RegistryEntry {
    ((op, dt), ElementWiseKernel { name, nr })
}

/// The in-place binary kernels, f32 four wide and f16 eight wide.
pub open spec fn unicast_table() -> Seq<RegistryEntry> {
    seq![
        entry(BinOp::Mul, DatumType::F32, "SUnicastMul4", 4),
        entry(BinOp::Mul, DatumType::F16, "HUnicastMul8", 8),
        entry(BinOp::Add, DatumType::F32, "SUnicastAdd4", 4),
        entry(BinOp::Add, DatumType::F16, "HUnicastAdd8", 8),
        entry(BinOp::Sub, DatumType::F32, "SUnicastSub4", 4),
        entry(BinOp::Sub, DatumType::F16, "HUnicastSub8", 8),
        entry(BinOp::SubF, DatumType::F32, "SUnicastSubF4", 4),
        entry(BinOp::SubF, DatumType::F16, "HUnicastSubF8", 8),
        entry(BinOp::Min, DatumType::F32, "SUnicastMin4", 4),
        entry(BinOp::Min, DatumType::F16, "HUnicastMin8", 8),
        entry(BinOp::Max, DatumType::F32, "SUnicastMax4", 4),
        entry(BinOp::Max, DatumType::F16, "HUnicastMax8", 8),
    ]
}

/// The by-scalar kernels, f32 four wide and f16 eight wide.
pub open spec fn by_scalar_table() -> Seq<RegistryEntry> {
    seq![
        entry(BinOp::Mul, DatumType::F32, "SMulByScalar4", 4),
        entry(BinOp::Mul, DatumType::F16, "HMulByScalar8", 8),
        entry(BinOp::Add, DatumType::F32, "SAddByScalar4", 4),
        entry(BinOp::Add, DatumType::F16, "HAddByScalar8", 8),
        entry(BinOp::Sub, DatumType::F32, "SSubByScalar4", 4),
        entry(BinOp::Sub, DatumType::F16, "HSubByScalar8", 8),
        entry(BinOp::SubF, DatumType::F32, "SSubFByScalar4", 4),
        entry(BinOp::SubF, DatumType::F16, "HSubFByScalar8", 8),
        entry(BinOp::Min, DatumType::F32, "SMinByScalar4", 4),
        entry(BinOp::Min, DatumType::F16, "HMinByScalar8", 8),
        entry(BinOp::Max, DatumType::F32, "SMaxByScalar4", 4),
        entry(BinOp::Max, DatumType::F16, "HMaxByScalar8", 8),
    ]
}

/// The reducers: maximum and sum.
pub open spec fn reducer_table() -> Seq<RegistryEntry> {
    seq![
        entry(BinOp::Max, DatumType::F32, "SMax4", 4),
        entry(BinOp::Max, DatumType::F16, "HMax8", 8),
        entry(BinOp::Add, DatumType::F32, "SSum4", 4),
        entry(BinOp::Add, DatumType::F16, "HSum8", 8),
    ]
}

impl LinalgRegistry {
    pub fn new() -> (r: Self)
        ensures
            r.entries@.len() == 0,
    {
        LinalgRegistry { entries: Vec::new() }
    }

    pub fn insert_op(&mut self, key: (BinOp, DatumType), kernel: ElementWiseKernel)
        ensures
            final(self).entries@ == old(self).entries@.push((key, kernel)),
    {
        self.entries.push((key, kernel));
    }

    pub fn lookup(&self, key: (BinOp, DatumType)) -> (r: Option<ElementWiseKernel>)
        ensures
            r == lookup_spec(self.entries@, key),
    {
        let mut i: usize = self.entries.len();
        assert(self.entries@.take(i as int) =~= self.entries@);
        while i > 0
            invariant
                i <= self.entries@.len(),
                lookup_spec(self.entries@, key) == lookup_spec(self.entries@.take(i as int), key),
            decreases i,
        {
            let e = self.entries[i - 1];
            proof {
                assert(self.entries@.take(i as int).drop_last() =~= self.entries@.take(i - 1));
            }
            if e.0.0 == key.0 && e.0.1 == key.1 {
                return Some(e.1);
            }
            i = i - 1;
        }
        proof {
            assert(self.entries@.take(0) =~= Seq::<RegistryEntry>::empty());
        }
        None
    }
}

pub fn register_all_unicast(registry: &mut LinalgRegistry)
    ensures
        final(registry).entries@ == old(registry).entries@ + unicast_table(),
{
    registry.insert_op((BinOp::Mul, DatumType::F32), ElementWiseKernel { name: "SUnicastMul4", nr: 4 });
    registry.insert_op((BinOp::Mul, DatumType::F16), ElementWiseKernel { name: "HUnicastMul8", nr: 8 });
    registry.insert_op((BinOp::Add, DatumType::F32), ElementWiseKernel { name: "SUnicastAdd4", nr: 4 });
    registry.insert_op((BinOp::Add, DatumType::F16), ElementWiseKernel { name: "HUnicastAdd8", nr: 8 });
    registry.insert_op((BinOp::Sub, DatumType::F32), ElementWiseKernel { name: "SUnicastSub4", nr: 4 });
    registry.insert_op((BinOp::Sub, DatumType::F16), ElementWiseKernel { name: "HUnicastSub8", nr: 8 });
    registry.insert_op((BinOp::SubF, DatumType::F32), ElementWiseKernel { name: "SUnicastSubF4", nr: 4 });
    registry.insert_op((BinOp::SubF, DatumType::F16), ElementWiseKernel { name: "HUnicastSubF8", nr: 8 });
    registry.insert_op((BinOp::Min, DatumType::F32), ElementWiseKernel { name: "SUnicastMin4", nr: 4 });
    registry.insert_op((BinOp::Min, DatumType::F16), ElementWiseKernel { name: "HUnicastMin8", nr: 8 });
    registry.insert_op((BinOp::Max, DatumType::F32), ElementWiseKernel { name: "SUnicastMax4", nr: 4 });
    registry.insert_op((BinOp::Max, DatumType::F16), ElementWiseKernel { name: "HUnicastMax8", nr: 8 });
    assert(registry.entries@ =~= old(registry).entries@ + unicast_table());
}

pub fn register_all_by_scalar(registry: &mut LinalgRegistry)
    ensures
        final(registry).entries@ == old(registry).entries@ + by_scalar_table(),
{
    registry.insert_op((BinOp::Mul, DatumType::F32), ElementWiseKernel { name: "SMulByScalar4", nr: 4 });
    registry.insert_op((BinOp::Mul, DatumType::F16), ElementWiseKernel { name: "HMulByScalar8", nr: 8 });
    registry.insert_op((BinOp::Add, DatumType::F32), ElementWiseKernel { name: "SAddByScalar4", nr: 4 });
    registry.insert_op((BinOp::Add, DatumType::F16), ElementWiseKernel { name: "HAddByScalar8", nr: 8 });
    registry.insert_op((BinOp::Sub, DatumType::F32), ElementWiseKernel { name: "SSubByScalar4", nr: 4 });
    registry.insert_op((BinOp::Sub, DatumType::F16), ElementWiseKernel { name: "HSubByScalar8", nr: 8 });
    registry.insert_op((BinOp::SubF, DatumType::F32), ElementWiseKernel { name: "SSubFByScalar4", nr: 4 });
    registry.insert_op((BinOp::SubF, DatumType::F16), ElementWiseKernel { name: "HSubFByScalar8", nr: 8 });
    registry.insert_op((BinOp::Min, DatumType::F32), ElementWiseKernel { name: "SMinByScalar4", nr: 4 });
    registry.insert_op((BinOp::Min, DatumType::F16), ElementWiseKernel { name: "HMinByScalar8", nr: 8 });
    registry.insert_op((BinOp::Max, DatumType::F32), ElementWiseKernel { name: "SMaxByScalar4", nr: 4 });
    registry.insert_op((BinOp::Max, DatumType::F16), ElementWiseKernel { name: "HMaxByScalar8", nr: 8 });
    assert(registry.entries@ =~= old(registry).entries@ + by_scalar_table());
}

pub fn register_all_reducer(registry: &mut Linalg1Registry)
    ensures
        final(registry).entries@ == old(registry).entries@ + reducer_table(),
{
    registry.insert_op((BinOp::Max, DatumType::F32), ElementWiseKernel { name: "SMax4", nr: 4 });
    registry.insert_op((BinOp::Max, DatumType::F16), ElementWiseKernel { name: "HMax8", nr: 8 });
    registry.insert_op((BinOp::Add, DatumType::F32), ElementWiseKernel { name: "SSum4", nr: 4 });
    registry.insert_op((BinOp::Add, DatumType::F16), ElementWiseKernel { name: "HSum8", nr: 8 });
    assert(registry.entries@ =~= old(registry).entries@ + reducer_table());
}

} // verus!
