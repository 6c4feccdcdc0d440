//! The typed graph the offload planner reads and writes: nodes in
//! topological order, each with one output described by a fact.
use vstd::prelude::*;

use crate::datum::DatumType;
use crate::fact::{Fact, FactView};
use crate::gemm_op::MetalGemmImplKind;

verus! {

/// Element-wise unary operators.
#[derive(Debug, Clone, Copy, PartialEq, Eq, Hash, Structural)]
pub enum ElementWiseKind {
    Abs,
    Exp,
    Ln,
    Sigmoid,
    Square,
    Sqrt,
    Rsqrt,
    Recip,
    Ceil,
    Floor,
    Round,
    RoundHalfToEven,
    Cos,
    Acos,
    Acosh,
    Cosh,
    Sin,
    Asin,
    Asinh,
    Sinh,
    Tan,
    Atan,
    Atanh,
    Tanh,
    Erf,
    Neg,
    Sign,
    Not,
}

/// Binary arithmetic and logic operators.
#[derive(Debug, Clone, Copy, PartialEq, Eq, Hash, Structural)]
pub enum BinKind {
    Mul,
    Add,
    Div,
    Sub,
    Pow,
    And,
    Or,
    Min,
    Max,
    Rem,
}

/// Comparison operators.
#[derive(Debug, Clone, Copy, PartialEq, Eq, Hash, Structural)]
pub enum CompKind {
    Eq,
    NE,
    LT,
    LTE,
    GT,
    GTE,
}

/// Reductions along axes.
#[derive(Debug, Clone, Copy, PartialEq, Eq, Hash, Structural)]
pub enum ReduceKind {
    Sum,
    Prod,
    Min,
    Max,
    MeanOfSquares,
    ArgMin,
    ArgMax,
}

/// Binary operators of the GPU backend.
#[derive(Debug, Clone, Copy, PartialEq, Eq, Hash, Structural)]
pub enum GpuBinOp {
    Mul,
    Add,
    Div,
    Sub,
    Pow,
    And,
    Or,
    Equals,
    NotEquals,
    Less,
    LessEqual,
    Greater,
    GreaterEqual,
}

/// Operators of the GPU backend.
#[derive(Debug, Clone, Copy, PartialEq, Eq, Hash, Structural)]
pub enum GpuOp {
    ElementWise(ElementWiseKind),
    Bin(GpuBinOp),
    Gemm { kind: MetalGemmImplKind, transpose_a: bool, transpose_b: bool },
    MultiBroadcastTo,
    Const,
    Cast(DatumType),
    Axis,
    Slice,
    Concat,
    Reduce(ReduceKind),
    Softmax,
    ScaledMaskedSoftmax,
    RmsNorm,
    RotateHalf,
    ApplyRope,
    Silu,
    NewGelu,
}

/// Direction of a host/device transfer.
#[derive(Debug, Clone, Copy, PartialEq, Eq, Hash, Structural)]
pub enum SyncKind {
    ToGpu,
    ToCpu,
}

/// Operator of a node.
#[derive(Debug, Clone, Copy, PartialEq, Eq, Hash, Structural)]
pub enum Op {
    /// A model input.
    Source,
    /// A constant known at graph-build time.
    Const,
    ElementWise(ElementWiseKind),
    Bin(BinKind),
    Comp(CompKind),
    MultiBroadcastTo,
    MatMul { transpose_a: bool, transpose_b: bool, transpose_c: bool, quantize_output: bool },
    Cast(DatumType),
    /// Axis permutation, insertion or removal.
    Axis,
    Slice,
    Concat,
    Reduce(ReduceKind),
    Softmax,
    /// Fused patterns recognised before translation.
    ScaledMaskedSoftmax,
    RmsNorm,
    RotateHalf,
    ApplyRope,
    Silu,
    NewGelu,
    /// Any other host operator.
    Other,
    /// An operator already on the GPU backend.
    Gpu(GpuOp),
    /// A host/device transfer.
    Sync(SyncKind),
}

#[derive(Debug)]
pub struct Node {
    pub op: Op,
    /// Indices of the nodes whose outputs this node reads.
    pub inputs: Vec<usize>,
    /// Facts of the node's output.
    pub fact: Fact,
}

pub struct NodeView {
    pub op: Op,
    pub inputs: Seq<usize>,
    pub fact: FactView,
}

impl View for Node {
    type V = NodeView;

    open spec fn view(&self) -> NodeView {
        NodeView { op: self.op, inputs: self.inputs@, fact: self.fact@ }
    }
}

#[derive(Debug)]
pub struct Graph {
    pub nodes: Vec<Node>,
    /// Indices of the nodes whose outputs are the model's outputs.
    pub outputs: Vec<usize>,
}

pub struct GraphView {
    pub nodes: Seq<NodeView>,
    pub outputs: Seq<usize>,
}

impl View for Graph {
    type V = GraphView;

    open spec fn view(&self) -> GraphView {
        GraphView { nodes: self.nodes@.map_values(|n: Node| n@), outputs: self.outputs@ }
    }
}

/// Each node reads only nodes before it, and every output names a node.
pub open spec fn nodes_ordered(nodes: Seq<NodeView>) -> bool {
    forall|i: int, j: int|
        0 <= i < nodes.len() && 0 <= j < nodes[i].inputs.len() ==> #[trigger] nodes[i].inputs[j]
            < i
}

pub open spec fn well_formed(g: GraphView) -> bool {
    &&& nodes_ordered(g.nodes)
    &&& forall|k: int| 0 <= k < g.outputs.len() ==> #[trigger] g.outputs[k] < g.nodes.len()
}

impl Node {
    pub fn duplicate(&self) -> (r: Node)
        ensures
            r@ == self@,
    {
        Node { op: self.op, inputs: self.inputs.clone(), fact: self.fact.duplicate() }
    }
}

impl Graph {
    pub fn new() -> (r: Graph)
        ensures
            r@.nodes.len() == 0,
            r@.outputs.len() == 0,
    {
        Graph { nodes: Vec::new(), outputs: Vec::new() }
    }

    /// Appends a node and returns its index.
    pub fn wire_node(&mut self, op: Op, inputs: Vec<usize>, fact: Fact) -> (r: usize)
        ensures
            r == old(self)@.nodes.len(),
            final(self)@ == (GraphView {
                nodes: old(self)@.nodes.push(NodeView { op, inputs: inputs@, fact: fact@ }),
                outputs: old(self)@.outputs,
            }),
    {
        let r = self.nodes.len();
        self.nodes.push(Node { op, inputs, fact });
        proof {
            assert(self@.nodes =~= old(self)@.nodes.push(NodeView { op, inputs: inputs@, fact: fact@ }));
        }
        r
    }
}

} // verus!
