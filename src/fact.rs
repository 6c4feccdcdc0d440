//! What the graph knows of a value before it is computed: element type,
//! shape, residency and constant-ness.
use vstd::prelude::*;

use crate::datum::DatumType;

verus! {

/// Facts about one value of the graph.
#[derive(Debug)]
pub struct Fact {
    pub dt: DatumType,
    pub shape: Vec<usize>,
    /// The value lives in device memory.
    pub on_gpu: bool,
    /// The value is known at graph-build time.
    pub konst: bool,
    /// For an opaque block-quantized payload, the shape of the payload.
    pub opaque_shape: Option<Vec<usize>>,
}

pub struct FactView {
    pub dt: DatumType,
    pub shape: Seq<usize>,
    pub on_gpu: bool,
    pub konst: bool,
    pub opaque_shape: Option<Seq<usize>>,
}

impl View for Fact {
    type V = FactView;

    open spec fn view(&self) -> FactView {
        FactView {
            dt: self.dt,
            shape: self.shape@,
            on_gpu: self.on_gpu,
            konst: self.konst,
            opaque_shape: match self.opaque_shape {
                Some(s) => Some(s@),
                None => None,
            },
        }
    }
}

/// A host-resident, non-constant fact of the given type and shape.
pub open spec fn plain_fact(dt: DatumType, shape: Seq<usize>) -> FactView {
    FactView { dt, shape, on_gpu: false, konst: false, opaque_shape: None }
}

impl Fact {
    /// A host-resident, non-constant fact of the given type and shape.
    pub fn new(dt: DatumType, shape: Vec<usize>) -> (r: Fact)
        ensures
            r@ == plain_fact(dt, shape@),
    {
        Fact { dt, shape, on_gpu: false, konst: false, opaque_shape: None }
    }

    pub fn duplicate(&self) -> (r: Fact)
        ensures
            r@ == self@,
    {
        let opaque_shape = match &self.opaque_shape {
            Some(s) => Some(s.clone()),
            None => None,
        };
        Fact {
            dt: self.dt,
            shape: self.shape.clone(),
            on_gpu: self.on_gpu,
            konst: self.konst,
            opaque_shape,
        }
    }
}

} // verus!
