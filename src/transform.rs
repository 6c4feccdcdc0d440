//! The GPU offload planner: decides for each node whether the GPU backend
//! can run it, translates the node, and inserts host/device transfers where
//! a value crosses the boundary.
use vstd::prelude::*;

use crate::datum::{gpu_supports_spec, is_copy_spec, DatumType};
use crate::error::CoreError;
use crate::fact::{Fact, FactView};
use crate::gemm_op::{
    on_device, on_host, op_facts_spec, facts_result, fact_views, MetalGemm, MetalGemmImplKind, MfaGemm,
    MlxGemm, MpsMatMul,
};
use crate::graph::{
    nodes_ordered, well_formed, BinKind, CompKind, ElementWiseKind, GpuBinOp, GpuOp, Graph, GraphView,
    Node, NodeView, Op, ReduceKind, SyncKind,
};

verus! {

/// Facts of the values that `inputs` name.
pub open spec fn in_facts(nodes: Seq<NodeView>, inputs: Seq<usize>) -> Seq<FactView> {
    inputs.map_values(|o: usize| nodes[o as int].fact)
}

pub open spec fn float_dt(dt: DatumType) -> bool {
    dt == DatumType::F32 || dt == DatumType::F16
}

/// Every input type is one the GPU holds, or the input is already on the GPU.
pub open spec fn inputs_gpu_compatible(facts: Seq<FactView>) -> bool {
    forall|j: int| 0 <= j < facts.len() ==> gpu_supports_spec(#[trigger] facts[j].dt) || facts[j].on_gpu
}

/// Which element types an operator's GPU kernel accepts.
#[derive(Debug, Clone, Copy, PartialEq, Eq, Structural)]
pub enum DtClass {
    /// The types a device tensor can hold.
    Tensor,
    /// f32 and f16 only.
    Float,
}

pub open spec fn in_class(dt: DatumType, class: DtClass) -> bool {
    match class {
        DtClass::Tensor => gpu_supports_spec(dt),
        DtClass::Float => float_dt(dt),
    }
}

pub open spec fn all_in_class(facts: Seq<FactView>, class: DtClass) -> bool {
    forall|j: int| 0 <= j < facts.len() ==> in_class(#[trigger] facts[j].dt, class)
}

pub open spec fn map_element_wise(k: ElementWiseKind) -> Option<ElementWiseKind> {
    match k {
        ElementWiseKind::Sign | ElementWiseKind::Not => None,
        _ => Some(k),
    }
}

pub open spec fn map_bin(k: BinKind) -> Option<GpuBinOp> {
    match k {
        BinKind::Mul => Some(GpuBinOp::Mul),
        BinKind::Add => Some(GpuBinOp::Add),
        BinKind::Div => Some(GpuBinOp::Div),
        BinKind::Sub => Some(GpuBinOp::Sub),
        BinKind::Pow => Some(GpuBinOp::Pow),
        BinKind::And => Some(GpuBinOp::And),
        BinKind::Or => Some(GpuBinOp::Or),
        _ => None,
    }
}

pub open spec fn map_comp(k: CompKind) -> GpuBinOp {
    match k {
        CompKind::Eq => GpuBinOp::Equals,
        CompKind::NE => GpuBinOp::NotEquals,
        CompKind::LT => GpuBinOp::Less,
        CompKind::LTE => GpuBinOp::LessEqual,
        CompKind::GT => GpuBinOp::Greater,
        CompKind::GTE => GpuBinOp::GreaterEqual,
    }
}

/// GPU counterpart of a host operator, before the element-type checks.
pub open spec fn gpu_op_of(op: Op, kind: MetalGemmImplKind) -> Option<GpuOp> {
    match op {
        Op::ElementWise(k) => match map_element_wise(k) {
            Some(e) => Some(GpuOp::ElementWise(e)),
            None => None,
        },
        Op::Bin(k) => match map_bin(k) {
            Some(b) => Some(GpuOp::Bin(b)),
            None => None,
        },
        Op::Comp(k) => Some(GpuOp::Bin(map_comp(k))),
        Op::MultiBroadcastTo => Some(GpuOp::MultiBroadcastTo),
        Op::MatMul { transpose_a, transpose_b, transpose_c, quantize_output } => if !transpose_c
            && !quantize_output {
            Some(GpuOp::Gemm { kind, transpose_a, transpose_b })
        } else {
            None
        },
        Op::Const => Some(GpuOp::Const),
        Op::Cast(to) => if gpu_supports_spec(to) {
            Some(GpuOp::Cast(to))
        } else {
            None
        },
        Op::Axis => Some(GpuOp::Axis),
        Op::Slice => Some(GpuOp::Slice),
        Op::Concat => Some(GpuOp::Concat),
        Op::Reduce(k) => if k != ReduceKind::ArgMin && k != ReduceKind::ArgMax {
            Some(GpuOp::Reduce(k))
        } else {
            None
        },
        Op::Softmax => Some(GpuOp::Softmax),
        Op::ScaledMaskedSoftmax => Some(GpuOp::ScaledMaskedSoftmax),
        Op::RmsNorm => Some(GpuOp::RmsNorm),
        Op::RotateHalf => Some(GpuOp::RotateHalf),
        Op::ApplyRope => Some(GpuOp::ApplyRope),
        Op::Silu => Some(GpuOp::Silu),
        Op::NewGelu => Some(GpuOp::NewGelu),
        _ => None,
    }
}

/// Element-type condition of each operator's GPU kernel.
pub open spec fn dts_ok(op: Op, facts: Seq<FactView>, own: FactView) -> bool {
    match op {
        Op::Const => gpu_supports_spec(own.dt),
        Op::Cast(_) => all_in_class(facts, DtClass::Tensor),
        Op::Reduce(_) | Op::Softmax | Op::ScaledMaskedSoftmax | Op::RmsNorm | Op::RotateHalf
        | Op::ApplyRope | Op::Silu | Op::NewGelu => all_in_class(facts, DtClass::Float),
        _ => true,
    }
}

/// Node `i` can run on the GPU backend.
pub open spec fn eligible(nodes: Seq<NodeView>, i: int, kind: MetalGemmImplKind) -> bool {
    let n = nodes[i];
    let facts = in_facts(nodes, n.inputs);
    inputs_gpu_compatible(facts) && gpu_op_of(n.op, kind) is Some && dts_ok(n.op, facts, n.fact)
}

/// Nodes already on the backend side: GPU operators and transfers.
pub open spec fn is_backend_node(op: Op) -> bool {
    op is Gpu || op is Sync
}

pub open spec fn node_view(op: Op, inputs: Seq<usize>, fact: FactView) -> NodeView {
    NodeView { op, inputs, fact }
}

/// The output of a transfer: the same value on the other side, known only
/// at run time.
pub open spec fn transferred(f: FactView, on_gpu: bool) -> FactView {
    FactView { on_gpu, konst: false, ..f }
}

/// Makes the value at `o` available on the requested side, appending a
/// transfer where needed. A host constant going to the GPU is not
/// transferred at run time: its value is converted at graph-build time into
/// a new device-resident constant node, which the reader reads. The node at
/// `o` is left as it is, so its host readers still read a host value.
pub open spec fn sync_one(t: Seq<NodeView>, o: usize, kind: SyncKind) -> Result<
    (Seq<NodeView>, usize),
    CoreError,
> {
    let f = t[o as int].fact;
    match kind {
        SyncKind::ToCpu => if f.on_gpu {
            Ok((t.push(node_view(Op::Sync(SyncKind::ToCpu), seq![o], transferred(f, false))), t.len() as usize))
        } else {
            Ok((t, o))
        },
        SyncKind::ToGpu => if f.on_gpu {
            Ok((t, o))
        } else if f.konst {
            Ok((t.push(node_view(Op::Gpu(GpuOp::Const), seq![], on_device(f))), t.len() as usize))
        } else if !is_copy_spec(f.dt) {
            Err(CoreError::UnsupportedDatumType(f.dt))
        } else {
            Ok((t.push(node_view(Op::Sync(SyncKind::ToGpu), seq![o], transferred(f, true))), t.len() as usize))
        },
    }
}

/// `sync_one` over each outlet in turn.
pub open spec fn sync_inputs_spec(t: Seq<NodeView>, outlets: Seq<usize>, kind: SyncKind) -> Result<
    (Seq<NodeView>, Seq<usize>),
    CoreError,
>
    decreases outlets.len(),
{
    if outlets.len() == 0 {
        Ok((t, seq![]))
    } else {
        match sync_inputs_spec(t, outlets.drop_last(), kind) {
            Err(e) => Err(e),
            Ok((t1, mapped)) => match sync_one(t1, outlets.last(), kind) {
                Err(e) => Err(e),
                Ok((t2, o)) => Ok((t2, mapped.push(o))),
            },
        }
    }
}

/// Appends the GPU counterpart of node `i` of `s`, reading `ins`. A product
/// whose natural output type differs from the expected one is followed by a
/// cast to the expected type.
pub open spec fn emit_gpu(
    s: Seq<NodeView>,
    i: int,
    t: Seq<NodeView>,
    ins: Seq<usize>,
    kind: MetalGemmImplKind,
) -> Result<(Seq<NodeView>, usize), CoreError> {
    let n = s[i];
    let g = gpu_op_of(n.op, kind)->Some_0;
    match n.op {
        Op::MatMul { transpose_a, transpose_b, .. } => match op_facts_spec(
            transpose_a,
            transpose_b,
            in_facts(s, n.inputs),
        ) {
            Err(e) => Err(e),
            Ok(fs) => {
                let out_dt = fs[0].dt;
                let t1 = t.push(node_view(Op::Gpu(g), ins, FactView { dt: out_dt, ..on_device(n.fact) }));
                if out_dt == n.fact.dt {
                    Ok((t1, t.len() as usize))
                } else if !gpu_supports_spec(out_dt) {
                    Err(CoreError::UnsupportedDatumType(out_dt))
                } else {
                    Ok(
                        (
                            t1.push(
                                node_view(
                                    Op::Gpu(GpuOp::Cast(n.fact.dt)),
                                    seq![t.len() as usize],
                                    on_device(n.fact),
                                ),
                            ),
                            t1.len() as usize,
                        ),
                    )
                }
            },
        },
        _ => Ok((t.push(node_view(Op::Gpu(g), ins, on_device(n.fact))), t.len() as usize)),
    }
}

/// A device value that is a model output gets a transfer back to the host.
pub open spec fn sync_output_spec(s: GraphView, i: int, t: Seq<NodeView>, o: usize) -> (
    Seq<NodeView>,
    usize,
) {
    if s.outputs.contains(i as usize) && t[o as int].fact.on_gpu {
        (t.push(node_view(Op::Sync(SyncKind::ToCpu), seq![o], transferred(t[o as int].fact, false))), t.len() as usize)
    } else {
        (t, o)
    }
}

/// Translation of node `i` of `s` into `t`, where `map` gives the node of `t`
/// that holds each earlier node's value. Backend nodes are kept as they are;
/// an eligible node gets its inputs on the device and its GPU counterpart;
/// any other node gets its inputs on the host and is kept. Whichever it is, a
/// model output left on the device is followed by a transfer to the host.
pub open spec fn translate_node_spec(
    s: GraphView,
    i: int,
    t: Seq<NodeView>,
    map: Seq<usize>,
    kind: MetalGemmImplKind,
) -> Result<(Seq<NodeView>, usize), CoreError> {
    let n = s.nodes[i];
    let mapped = n.inputs.map_values(|j: usize| map[j as int]);
    if is_backend_node(n.op) {
        Ok(sync_output_spec(s, i, t.push(node_view(n.op, mapped, n.fact)), t.len() as usize))
    } else if eligible(s.nodes, i, kind) {
        match sync_inputs_spec(t, mapped, SyncKind::ToGpu) {
            Err(e) => Err(e),
            Ok((t1, ins)) => match emit_gpu(s.nodes, i, t1, ins, kind) {
                Err(e) => Err(e),
                Ok((t2, o)) => Ok(sync_output_spec(s, i, t2, o)),
            },
        }
    } else {
        match sync_inputs_spec(t, mapped, SyncKind::ToCpu) {
            Err(e) => Err(e),
            Ok((t1, ins)) => Ok(sync_output_spec(s, i, t1.push(node_view(n.op, ins, n.fact)), t1.len() as usize)),
        }
    }
}

/// The first `k` nodes translated: the target's nodes and the map.
pub open spec fn translate_prefix(s: GraphView, kind: MetalGemmImplKind, k: nat) -> Result<
    (Seq<NodeView>, Seq<usize>),
    CoreError,
>
    decreases k,
{
    if k == 0 {
        Ok((seq![], seq![]))
    } else {
        match translate_prefix(s, kind, (k - 1) as nat) {
            Err(e) => Err(e),
            Ok((t, map)) => match translate_node_spec(s, k - 1, t, map, kind) {
                Err(e) => Err(e),
                Ok((t2, o)) => Ok((t2, map.push(o))),
            },
        }
    }
}

/// The translated graph: every node translated in order, outputs mapped.
pub open spec fn translate_spec(s: GraphView, kind: MetalGemmImplKind) -> Result<GraphView, CoreError> {
    match translate_prefix(s, kind, s.nodes.len()) {
        Err(e) => Err(e),
        Ok((t, map)) => Ok(
            GraphView { nodes: t, outputs: s.outputs.map_values(|o: usize| map[o as int]) },
        ),
    }
}

fn convert_bin_ops_to_metal(k: BinKind) -> (r: Option<GpuBinOp>)
    ensures
        r == map_bin(k),
{
    match k {
        BinKind::Mul => Some(GpuBinOp::Mul),
        BinKind::Add => Some(GpuBinOp::Add),
        BinKind::Div => Some(GpuBinOp::Div),
        BinKind::Sub => Some(GpuBinOp::Sub),
        BinKind::Pow => Some(GpuBinOp::Pow),
        BinKind::And => Some(GpuBinOp::And),
        BinKind::Or => Some(GpuBinOp::Or),
        _ => None,
    }
}

fn convert_logic_ops_to_metal(k: CompKind) -> (r: GpuBinOp)
    ensures
        r == map_comp(k),
{
    match k {
        CompKind::Eq => GpuBinOp::Equals,
        CompKind::NE => GpuBinOp::NotEquals,
        CompKind::LT => GpuBinOp::Less,
        CompKind::LTE => GpuBinOp::LessEqual,
        CompKind::GT => GpuBinOp::Greater,
        CompKind::GTE => GpuBinOp::GreaterEqual,
    }
}

fn map_element_wise_ops_to_metal(k: ElementWiseKind) -> (r: Option<ElementWiseKind>)
    ensures
        r == map_element_wise(k),
{
    match k {
        ElementWiseKind::Sign | ElementWiseKind::Not => None,
        _ => Some(k),
    }
}

/// The GPU counterpart of `op`, before the element-type checks.
fn gpu_op_for(op: Op, kind: MetalGemmImplKind) -> (r: Option<GpuOp>)
    ensures
        r == gpu_op_of(op, kind),
{
    match op {
        Op::ElementWise(k) => match map_element_wise_ops_to_metal(k) {
            Some(e) => Some(GpuOp::ElementWise(e)),
            None => None,
        },
        Op::Bin(k) => match convert_bin_ops_to_metal(k) {
            Some(b) => Some(GpuOp::Bin(b)),
            None => None,
        },
        Op::Comp(k) => Some(GpuOp::Bin(convert_logic_ops_to_metal(k))),
        Op::MultiBroadcastTo => Some(GpuOp::MultiBroadcastTo),
        Op::MatMul { transpose_a, transpose_b, transpose_c, quantize_output } => {
            if !transpose_c && !quantize_output {
                Some(GpuOp::Gemm { kind, transpose_a, transpose_b })
            } else {
                None
            }
        },
        Op::Const => Some(GpuOp::Const),
        Op::Cast(to) => {
            if to.is_gpu_supported() {
                Some(GpuOp::Cast(to))
            } else {
                None
            }
        },
        Op::Axis => Some(GpuOp::Axis),
        Op::Slice => Some(GpuOp::Slice),
        Op::Concat => Some(GpuOp::Concat),
        Op::Reduce(k) => {
            if k != ReduceKind::ArgMin && k != ReduceKind::ArgMax {
                Some(GpuOp::Reduce(k))
            } else {
                None
            }
        },
        Op::Softmax => Some(GpuOp::Softmax),
        Op::ScaledMaskedSoftmax => Some(GpuOp::ScaledMaskedSoftmax),
        Op::RmsNorm => Some(GpuOp::RmsNorm),
        Op::RotateHalf => Some(GpuOp::RotateHalf),
        Op::ApplyRope => Some(GpuOp::ApplyRope),
        Op::Silu => Some(GpuOp::Silu),
        Op::NewGelu => Some(GpuOp::NewGelu),
        _ => None,
    }
}

pub open spec fn inputs_exist(g: GraphView, i: int) -> bool {
    forall|j: int| 0 <= j < g.nodes[i].inputs.len() ==> #[trigger] g.nodes[i].inputs[j] < g.nodes.len()
}

/// Whether every input of node `i` has an element type in `class`.
pub fn check_in_dts_are_supported(model: &Graph, node_id: usize, class: DtClass) -> (r: bool)
    requires
        node_id < model@.nodes.len(),
        inputs_exist(model@, node_id as int),
    ensures
        r == all_in_class(in_facts(model@.nodes, model@.nodes[node_id as int].inputs), class),
{
    let ghost g = model@;
    let node = &model.nodes[node_id];
    assert(node@ == g.nodes[node_id as int]);
    let ghost facts = in_facts(g.nodes, node@.inputs);
    let mut j: usize = 0;
    while j < node.inputs.len()
        invariant
            g == model@,
            node_id < g.nodes.len(),
            node@ == g.nodes[node_id as int],
            facts == in_facts(g.nodes, node@.inputs),
            inputs_exist(g, node_id as int),
            j <= node@.inputs.len(),
            forall|t: int| 0 <= t < j ==> in_class(#[trigger] facts[t].dt, class),
        decreases node@.inputs.len() - j,
    {
        let o = node.inputs[j];
        assert(model.nodes@[o as int]@ == g.nodes[o as int]);
        let dt = model.nodes[o].fact.dt;
        let ok = match class {
            DtClass::Tensor => dt.is_gpu_supported(),
            DtClass::Float => dt == DatumType::F32 || dt == DatumType::F16,
        };
        assert(facts[j as int].dt == dt);
        if !ok {
            return false;
        }
        j = j + 1;
    }
    true
}

/// Whether node `node_id` can run on the GPU backend.
pub fn can_translate_op_to_metal_op(source: &Graph, node_id: usize, kind: MetalGemmImplKind) -> (r: bool)
    requires
        node_id < source@.nodes.len(),
        inputs_exist(source@, node_id as int),
    ensures
        r == eligible(source@.nodes, node_id as int, kind),
{
    let ghost g = source@;
    let node = &source.nodes[node_id];
    assert(node@ == g.nodes[node_id as int]);
    let ghost facts = in_facts(g.nodes, node@.inputs);
    let mut j: usize = 0;
    while j < node.inputs.len()
        invariant
            g == source@,
            node_id < g.nodes.len(),
            node@ == g.nodes[node_id as int],
            facts == in_facts(g.nodes, node@.inputs),
            inputs_exist(g, node_id as int),
            j <= node@.inputs.len(),
            forall|t: int| 0 <= t < j ==> gpu_supports_spec(#[trigger] facts[t].dt) || facts[t].on_gpu,
        decreases node@.inputs.len() - j,
    {
        let o = node.inputs[j];
        assert(source.nodes@[o as int]@ == g.nodes[o as int]);
        let f = &source.nodes[o].fact;
        assert(facts[j as int] == f@);
        assert(facts[j as int].dt == f.dt && facts[j as int].on_gpu == f.on_gpu);
        if !(f.dt.is_gpu_supported() || f.on_gpu) {
            assert(!inputs_gpu_compatible(facts));
            return false;
        }
        j = j + 1;
    }
    if gpu_op_for(node.op, kind).is_none() {
        return false;
    }
    match node.op {
        Op::Const => node.fact.dt.is_gpu_supported(),
        Op::Cast(_) => check_in_dts_are_supported(source, node_id, DtClass::Tensor),
        Op::Reduce(_) | Op::Softmax | Op::ScaledMaskedSoftmax | Op::RmsNorm | Op::RotateHalf
        | Op::ApplyRope | Op::Silu | Op::NewGelu => check_in_dts_are_supported(
            source,
            node_id,
            DtClass::Float,
        ),
        _ => true,
    }
}

/// `t2` is `t` with nodes appended.
pub open spec fn extends(t2: Seq<NodeView>, t: Seq<NodeView>) -> bool {
    t2.len() >= t.len() && forall|k: int| 0 <= k < t.len() ==> #[trigger] t2[k] == t[k]
}

proof fn lemma_sync_one_grows(t: Seq<NodeView>, o: usize, kind: SyncKind)
    requires
        o < t.len(),
    ensures
        sync_one(t, o, kind) matches Ok((t2, v)) ==> t2.len() >= t.len() && v < t2.len(),
{
}

proof fn lemma_sync_inputs_grows(t: Seq<NodeView>, outlets: Seq<usize>, kind: SyncKind)
    requires
        forall|j: int| 0 <= j < outlets.len() ==> #[trigger] outlets[j] < t.len(),
    ensures
        sync_inputs_spec(t, outlets, kind) matches Ok((t2, m)) ==> t2.len() >= t.len() && m.len()
            == outlets.len() && forall|j: int| 0 <= j < m.len() ==> #[trigger] m[j] < t2.len(),
    decreases outlets.len(),
{
    if outlets.len() > 0 {
        let prefix = outlets.drop_last();
        assert forall|j: int| 0 <= j < prefix.len() implies #[trigger] prefix[j] < t.len() by {
            assert(prefix[j] == outlets[j]);
        }
        lemma_sync_inputs_grows(t, prefix, kind);
        if let Ok((t1, mapped)) = sync_inputs_spec(t, prefix, kind) {
            assert(outlets.last() == outlets[outlets.len() - 1]);
            lemma_sync_one_grows(t1, outlets.last(), kind);
            if let Ok((t2, v)) = sync_one(t1, outlets.last(), kind) {
                assert forall|j: int| 0 <= j < mapped.len() + 1 implies #[trigger] mapped.push(v)[j]
                    < t2.len() by {
                    if j < mapped.len() {
                        assert(mapped.push(v)[j] == mapped[j]);
                    }
                }
            }
        }
    }
}

proof fn lemma_translate_node_grows(
    s: GraphView,
    i: int,
    t: Seq<NodeView>,
    map: Seq<usize>,
    kind: MetalGemmImplKind,
)
    requires
        well_formed(s),
        0 <= i < s.nodes.len(),
        map.len() == i,
        forall|j: int| 0 <= j < i ==> #[trigger] map[j] < t.len(),
    ensures
        translate_node_spec(s, i, t, map, kind) matches Ok((t2, o)) ==> t2.len() >= t.len() && o
            < t2.len(),
{
    let n = s.nodes[i];
    let mapped = n.inputs.map_values(|j: usize| map[j as int]);
    assert forall|j: int| 0 <= j < mapped.len() implies #[trigger] mapped[j] < t.len() by {
        assert(n.inputs[j] < i);
    }
    lemma_sync_inputs_grows(t, mapped, SyncKind::ToGpu);
    lemma_sync_inputs_grows(t, mapped, SyncKind::ToCpu);
}

fn sync_one_exec(t: &mut Graph, o: usize, kind: SyncKind) -> (r: Result<usize, CoreError>)
    requires
        o < old(t)@.nodes.len(),
    ensures
        match r {
            Ok(v) => sync_one(old(t)@.nodes, o, kind) == Ok::<(Seq<NodeView>, usize), CoreError>(
                (final(t)@.nodes, v),
            ),
            Err(e) => sync_one(old(t)@.nodes, o, kind) == Err::<(Seq<NodeView>, usize), CoreError>(e),
        },
        final(t)@.outputs == old(t)@.outputs,
{
    assert(t.nodes@[o as int]@ == t@.nodes[o as int]);
    let f = t.nodes[o].fact.duplicate();
    match kind {
        SyncKind::ToCpu => {
            if f.on_gpu {
                let mut h = f;
                h.on_gpu = false;
                h.konst = false;
                let ins = vec![o];
                assert(ins@ =~= seq![o]);
                assert(h@ == transferred(f@, false));
                Ok(t.wire_node(Op::Sync(SyncKind::ToCpu), ins, h))
            } else {
                Ok(o)
            }
        },
        SyncKind::ToGpu => {
            if f.on_gpu {
                Ok(o)
            } else if f.konst {
                // a device copy of the constant, made at graph-build time
                let mut d = f;
                d.on_gpu = true;
                let ins: Vec<usize> = vec![];
                assert(ins@ =~= seq![]);
                Ok(t.wire_node(Op::Gpu(GpuOp::Const), ins, d))
            } else if !f.dt.is_copy() {
                Err(CoreError::UnsupportedDatumType(f.dt))
            } else {
                let mut d = f;
                d.on_gpu = true;
                d.konst = false;
                let ins = vec![o];
                assert(ins@ =~= seq![o]);
                let v = t.wire_node(Op::Sync(SyncKind::ToGpu), ins, d);
                Ok(v)
            }
        },
    }
}

/// The facts of node `node_id`'s inputs.
fn input_facts(model: &Graph, node_id: usize) -> (r: Vec<Fact>)
    requires
        node_id < model@.nodes.len(),
        inputs_exist(model@, node_id as int),
    ensures
        fact_views(r@) == in_facts(model@.nodes, model@.nodes[node_id as int].inputs),
{
    let ghost g = model@;
    let node = &model.nodes[node_id];
    assert(node@ == g.nodes[node_id as int]);
    let mut r: Vec<Fact> = Vec::new();
    let mut j: usize = 0;
    while j < node.inputs.len()
        invariant
            g == model@,
            node_id < g.nodes.len(),
            node@ == g.nodes[node_id as int],
            inputs_exist(g, node_id as int),
            j <= node@.inputs.len(),
            r@.len() == j,
            forall|t: int| 0 <= t < j ==> (#[trigger] r@[t])@ == g.nodes[node@.inputs[t] as int].fact,
        decreases node@.inputs.len() - j,
    {
        let o = node.inputs[j];
        assert(model.nodes@[o as int]@ == g.nodes[o as int]);
        r.push(model.nodes[o].fact.duplicate());
        j = j + 1;
    }
    assert(fact_views(r@) =~= in_facts(g.nodes, node@.inputs));
    r
}

/// Output facts of the GPU product over kernel family `kind`.
fn gemm_output_facts(kind: MetalGemmImplKind, transpose_a: bool, transpose_b: bool, facts: &Vec<Fact>) -> (r:
    Result<Vec<Fact>, CoreError>)
    ensures
        facts_result(r) == op_facts_spec(transpose_a, transpose_b, fact_views(facts@)),
{
    match kind {
        MetalGemmImplKind::Mlx => MetalGemm::<MlxGemm>::new(transpose_a, transpose_b).output_facts(facts),
        MetalGemmImplKind::Mps => MetalGemm::<MpsMatMul>::new(transpose_a, transpose_b).output_facts(facts),
        MetalGemmImplKind::Mfa => MetalGemm::<MfaGemm>::new(transpose_a, transpose_b).output_facts(facts),
    }
}

/// The GPU offload planner, with the kernel family that products go to.
#[derive(Debug, Default)]
pub struct MetalTransform {
    pub gemm_impl: MetalGemmImplKind,
}

/// Translates a product node: the GPU product, then a cast where its natural
/// output type is not the one the graph expects.
fn convert_matmul_to_metal(
    model: &Graph,
    node_id: usize,
    target: &mut Graph,
    inputs: Vec<usize>,
    transpose_a: bool,
    transpose_b: bool,
    gemm_impl: MetalGemmImplKind,
) -> (r: Result<usize, CoreError>)
    requires
        node_id < model@.nodes.len(),
        inputs_exist(model@, node_id as int),
        model@.nodes[node_id as int].op matches Op::MatMul { transpose_a: ta, transpose_b: tb, transpose_c: false, quantize_output: false }
            && ta == transpose_a && tb == transpose_b,
    ensures
        match r {
            Ok(o) => emit_gpu(model@.nodes, node_id as int, old(target)@.nodes, inputs@, gemm_impl)
                == Ok::<(Seq<NodeView>, usize), CoreError>((final(target)@.nodes, o)),
            Err(e) => emit_gpu(model@.nodes, node_id as int, old(target)@.nodes, inputs@, gemm_impl)
                == Err::<(Seq<NodeView>, usize), CoreError>(e),
        },
        final(target)@.outputs == old(target)@.outputs,
{
    let node = &model.nodes[node_id];
    assert(node@ == model@.nodes[node_id as int]);
    let facts = input_facts(model, node_id);
    let out = gemm_output_facts(gemm_impl, transpose_a, transpose_b, &facts)?;
    assert(fact_views(out@).len() == out@.len());
    let out_dt = out[0].dt;
    assert(fact_views(out@)[0] == out@[0]@);
    let mut gemm_fact = node.fact.duplicate();
    gemm_fact.on_gpu = true;
    gemm_fact.dt = out_dt;
    let gemm = target.wire_node(
        Op::Gpu(GpuOp::Gemm { kind: gemm_impl, transpose_a, transpose_b }),
        inputs,
        gemm_fact,
    );
    if out_dt != node.fact.dt {
        if !out_dt.is_gpu_supported() {
            return Err(CoreError::UnsupportedDatumType(out_dt));
        }
        let mut cast_fact = node.fact.duplicate();
        cast_fact.on_gpu = true;
        let ins = vec![gemm];
        assert(ins@ =~= seq![gemm]);
        Ok(target.wire_node(Op::Gpu(GpuOp::Cast(node.fact.dt)), ins, cast_fact))
    } else {
        Ok(gemm)
    }
}

impl MetalTransform {
    /// Brings each input to the side `sync_kind` names, in order.
    pub fn sync_inputs_if_required(
        &self,
        model: &mut Graph,
        inputs: &Vec<usize>,
        sync_kind: SyncKind,
    ) -> (r: Result<Vec<usize>, CoreError>)
        requires
            forall|j: int| 0 <= j < inputs@.len() ==> #[trigger] inputs@[j] < old(model)@.nodes.len(),
        ensures
            match r {
                Ok(v) => sync_inputs_spec(old(model)@.nodes, inputs@, sync_kind) == Ok::<
                    (Seq<NodeView>, Seq<usize>),
                    CoreError,
                >((final(model)@.nodes, v@)),
                Err(e) => sync_inputs_spec(old(model)@.nodes, inputs@, sync_kind) == Err::<
                    (Seq<NodeView>, Seq<usize>),
                    CoreError,
                >(e),
            },
            final(model)@.outputs == old(model)@.outputs,
    {
        let ghost t0 = model@.nodes;
        let ghost outputs0 = model@.outputs;
        let mut mapped: Vec<usize> = Vec::new();
        let mut k: usize = 0;
        assert(inputs@.take(0) =~= Seq::<usize>::empty());
        while k < inputs.len()
            invariant
                k <= inputs@.len(),
                forall|j: int| 0 <= j < inputs@.len() ==> #[trigger] inputs@[j] < t0.len(),
                sync_inputs_spec(t0, inputs@.take(k as int), sync_kind) == Ok::<
                    (Seq<NodeView>, Seq<usize>),
                    CoreError,
                >((model@.nodes, mapped@)),
                model@.nodes.len() >= t0.len(),
                model@.outputs == outputs0,
                t0 == old(model)@.nodes,
                outputs0 == old(model)@.outputs,
            decreases inputs@.len() - k,
        {
            let ghost before = model@.nodes;
            let o = inputs[k];
            proof {
                assert(inputs@.take(k + 1).drop_last() =~= inputs@.take(k as int));
                assert(inputs@.take(k + 1).last() == o);
            }
            let res = sync_one_exec(model, o, sync_kind);
            match res {
                Ok(v) => {
                    proof {
                        lemma_sync_one_grows(before, o, sync_kind);
                    }
                    mapped.push(v);
                },
                Err(e) => {
                    proof {
                        lemma_sync_error_sticks(t0, inputs@, sync_kind, k + 1);
                    }
                    return Err(e);
                },
            }
            k = k + 1;
        }
        assert(inputs@.take(inputs@.len() as int) =~= inputs@);
        Ok(mapped)
    }

    /// Adds a transfer to the host after a device value that is a model output.
    pub fn sync_model_outputs_if_required(
        &self,
        src: &Graph,
        node_id: usize,
        target: &mut Graph,
        outlet: usize,
    ) -> (r: usize)
        requires
            outlet < old(target)@.nodes.len(),
        ensures
            sync_output_spec(src@, node_id as int, old(target)@.nodes, outlet) == (final(target)@.nodes, r),
            final(target)@.outputs == old(target)@.outputs,
    {
        let mut is_src_output = false;
        let mut k: usize = 0;
        while k < src.outputs.len()
            invariant
                k <= src@.outputs.len(),
                is_src_output == exists|j: int| 0 <= j < k && src@.outputs[j] == node_id,
            decreases src@.outputs.len() - k,
        {
            if src.outputs[k] == node_id {
                is_src_output = true;
            }
            k = k + 1;
        }
        assert(is_src_output == src@.outputs.contains(node_id));
        assert(target.nodes@[outlet as int]@ == target@.nodes[outlet as int]);
        if is_src_output && target.nodes[outlet].fact.on_gpu {
            let mut h = target.nodes[outlet].fact.duplicate();
            h.on_gpu = false;
            h.konst = false;
            let ins = vec![outlet];
            assert(ins@ =~= seq![outlet]);
            target.wire_node(Op::Sync(SyncKind::ToCpu), ins, h)
        } else {
            outlet
        }
    }

    /// Appends the GPU counterpart of an eligible node.
    fn wire_gpu_node(&self, source: &Graph, node_id: usize, target: &mut Graph, ins: Vec<usize>) -> (r:
        Result<usize, CoreError>)
        requires
            node_id < source@.nodes.len(),
            inputs_exist(source@, node_id as int),
            eligible(source@.nodes, node_id as int, self.gemm_impl),
        ensures
            match r {
                Ok(o) => emit_gpu(source@.nodes, node_id as int, old(target)@.nodes, ins@, self.gemm_impl)
                    == Ok::<(Seq<NodeView>, usize), CoreError>((final(target)@.nodes, o)),
                Err(e) => emit_gpu(source@.nodes, node_id as int, old(target)@.nodes, ins@, self.gemm_impl)
                    == Err::<(Seq<NodeView>, usize), CoreError>(e),
            },
            final(target)@.outputs == old(target)@.outputs,
    {
        let node = &source.nodes[node_id];
        assert(node@ == source@.nodes[node_id as int]);
        match node.op {
            Op::MatMul { transpose_a, transpose_b, .. } => convert_matmul_to_metal(
                source,
                node_id,
                target,
                ins,
                transpose_a,
                transpose_b,
                self.gemm_impl,
            ),
            _ => match gpu_op_for(node.op, self.gemm_impl) {
                Some(g) => {
                    let mut f = node.fact.duplicate();
                    f.on_gpu = true;
                    Ok(target.wire_node(Op::Gpu(g), ins, f))
                },
                None => Err(CoreError::UnsupportedDatumType(node.fact.dt)),
            },
        }
    }

    /// Translates node `node_id` of `source` into `target`; `mapping` gives,
    /// for each earlier node, the node of `target` that holds its value.
    pub fn translate_node(
        &self,
        source: &Graph,
        node_id: usize,
        target: &mut Graph,
        mapping: &Vec<usize>,
    ) -> (r: Result<usize, CoreError>)
        requires
            well_formed(source@),
            node_id < source@.nodes.len(),
            mapping@.len() == node_id,
            forall|j: int| 0 <= j < node_id ==> #[trigger] mapping@[j] < old(target)@.nodes.len(),
        ensures
            match r {
                Ok(o) => translate_node_spec(source@, node_id as int, old(target)@.nodes, mapping@, self.gemm_impl)
                    == Ok::<(Seq<NodeView>, usize), CoreError>((final(target)@.nodes, o)),
                Err(e) => translate_node_spec(source@, node_id as int, old(target)@.nodes, mapping@, self.gemm_impl)
                    == Err::<(Seq<NodeView>, usize), CoreError>(e),
            },
            final(target)@.outputs == old(target)@.outputs,
    {
        let ghost s = source@;
        let node = &source.nodes[node_id];
        assert(node@ == s.nodes[node_id as int]);
        assert(inputs_exist(s, node_id as int)) by {
            assert forall|j: int| 0 <= j < s.nodes[node_id as int].inputs.len() implies #[trigger] s.nodes[node_id as int].inputs[j] < s.nodes.len() by {
                assert(s.nodes[node_id as int].inputs[j] < node_id);
            }
        }
        let mut mapped: Vec<usize> = Vec::new();
        let mut j: usize = 0;
        while j < node.inputs.len()
            invariant
                s == source@,
                well_formed(s),
                node_id < s.nodes.len(),
                node@ == s.nodes[node_id as int],
                mapping@.len() == node_id,
                forall|t: int| 0 <= t < node_id ==> #[trigger] mapping@[t] < target@.nodes.len(),
                j <= node@.inputs.len(),
                mapped@ =~= node@.inputs.take(j as int).map_values(|x: usize| mapping@[x as int]),
            decreases node@.inputs.len() - j,
        {
            assert(node@.inputs[j as int] < node_id);
            mapped.push(mapping[node.inputs[j]]);
            j = j + 1;
            assert(node@.inputs.take(j as int) =~= node@.inputs.take(j - 1).push(node@.inputs[j - 1]));
        }
        assert(node@.inputs.take(node@.inputs.len() as int) =~= node@.inputs);
        assert forall|t: int| 0 <= t < mapped@.len() implies #[trigger] mapped@[t] < target@.nodes.len() by {
            assert(node@.inputs[t] < node_id);
        }
        if matches!(node.op, Op::Gpu(_)) || matches!(node.op, Op::Sync(_)) {
            let kept = target.wire_node(node.op, mapped, node.fact.duplicate());
            return Ok(self.sync_model_outputs_if_required(source, node_id, target, kept));
        }
        if can_translate_op_to_metal_op(source, node_id, self.gemm_impl) {
            let gpu_inputs = self.sync_inputs_if_required(target, &mapped, SyncKind::ToGpu)?;
            let outlet = self.wire_gpu_node(source, node_id, target, gpu_inputs)?;
            Ok(self.sync_model_outputs_if_required(source, node_id, target, outlet))
        } else {
            let cpu_inputs = self.sync_inputs_if_required(target, &mapped, SyncKind::ToCpu)?;
            let kept = target.wire_node(node.op, cpu_inputs, node.fact.duplicate());
            Ok(self.sync_model_outputs_if_required(source, node_id, target, kept))
        }
    }

    /// The whole source graph translated, node by node, with the model's
    /// outputs mapped to their translations.
    pub fn translate_model(&self, source: &Graph) -> (r: Result<Graph, CoreError>)
        requires
            well_formed(source@),
        ensures
            match r {
                Ok(g) => translate_spec(source@, self.gemm_impl) == Ok::<GraphView, CoreError>(g@),
                Err(e) => translate_spec(source@, self.gemm_impl) == Err::<GraphView, CoreError>(e),
            },
    {
        let ghost s = source@;
        let mut target = Graph::new();
        let mut mapping: Vec<usize> = Vec::new();
        let mut i: usize = 0;
        assert(target@.nodes =~= Seq::<NodeView>::empty());
        assert(mapping@ =~= Seq::<usize>::empty());
        while i < source.nodes.len()
            invariant
                s == source@,
                well_formed(s),
                i <= s.nodes.len(),
                translate_prefix(s, self.gemm_impl, i as nat) == Ok::<(Seq<NodeView>, Seq<usize>), CoreError>((target@.nodes, mapping@)),
                mapping@.len() == i,
                forall|t: int| 0 <= t < i ==> #[trigger] mapping@[t] < target@.nodes.len(),
            decreases s.nodes.len() - i,
        {
            let ghost before = target@.nodes;
            proof {
                lemma_translate_node_grows(s, i as int, before, mapping@, self.gemm_impl);
            }
            let o = match self.translate_node(source, i, &mut target, &mapping) {
                Ok(o) => o,
                Err(e) => {
                    proof {
                        lemma_translate_error_sticks(s, self.gemm_impl, (i + 1) as nat, s.nodes.len());
                    }
                    return Err(e);
                },
            };
            mapping.push(o);
            i = i + 1;
        }
        let mut outputs: Vec<usize> = Vec::new();
        let mut k: usize = 0;
        while k < source.outputs.len()
            invariant
                s == source@,
                well_formed(s),
                mapping@.len() == s.nodes.len(),
                k <= s.outputs.len(),
                outputs@ =~= s.outputs.take(k as int).map_values(|o: usize| mapping@[o as int]),
            decreases s.outputs.len() - k,
        {
            outputs.push(mapping[source.outputs[k]]);
            k = k + 1;
            assert(s.outputs.take(k as int) =~= s.outputs.take(k - 1).push(s.outputs[k - 1]));
        }
        assert(s.outputs.take(s.outputs.len() as int) =~= s.outputs);
        target.outputs = outputs;
        Ok(target)
    }
}

proof fn lemma_sync_error_sticks(t: Seq<NodeView>, outlets: Seq<usize>, kind: SyncKind, m: int)
    requires
        0 <= m <= outlets.len(),
        sync_inputs_spec(t, outlets.take(m), kind) is Err,
    ensures
        sync_inputs_spec(t, outlets, kind) == sync_inputs_spec(t, outlets.take(m), kind),
    decreases outlets.len() - m,
{
    if m < outlets.len() {
        assert(outlets.take(m + 1).drop_last() =~= outlets.take(m));
        lemma_sync_error_sticks(t, outlets, kind, m + 1);
    } else {
        assert(outlets.take(m) =~= outlets);
    }
}

proof fn lemma_translate_error_sticks(s: GraphView, kind: MetalGemmImplKind, k: nat, n: nat)
    requires
        k <= n,
        translate_prefix(s, kind, k) is Err,
    ensures
        translate_prefix(s, kind, n) == translate_prefix(s, kind, k),
    decreases n - k,
{
    if k < n {
        lemma_translate_error_sticks(s, kind, k, (n - 1) as nat);
    }
}

/// Every input of node `k` of `t` is host-resident.
pub open spec fn inputs_on_host(t: Seq<NodeView>, k: int) -> bool {
    forall|j: int| 0 <= j < t[k].inputs.len() ==> !(#[trigger] t[t[k].inputs[j] as int]).fact.on_gpu
}

/// Node `k` needs no further translation: it is a backend node, or a host
/// node that cannot go to the GPU and reads host values only.
pub open spec fn settled_node(t: Seq<NodeView>, k: int, kind: MetalGemmImplKind) -> bool {
    is_backend_node(t[k].op) || (!eligible(t, k, kind) && inputs_on_host(t, k))
}

pub open spec fn settled(t: Seq<NodeView>, kind: MetalGemmImplKind) -> bool {
    forall|k: int| 0 <= k < t.len() ==> #[trigger] settled_node(t, k, kind)
}

/// Every model output is host-resident.
pub open spec fn outputs_on_host(g: GraphView) -> bool {
    forall|k: int| 0 <= k < g.outputs.len() ==> !g.nodes[#[trigger] g.outputs[k] as int].fact.on_gpu
}

/// No host node reads a device-resident value: a device value reaches the
/// host only through a transfer.
pub open spec fn host_reads_host(t: Seq<NodeView>) -> bool {
    forall|k: int| 0 <= k < t.len() && !is_backend_node(#[trigger] t[k].op) ==> inputs_on_host(t, k)
}

/// What holds of the target after translating the first `m` nodes.
pub open spec fn translation_inv(
    s: GraphView,
    t: Seq<NodeView>,
    map: Seq<usize>,
    m: int,
    kind: MetalGemmImplKind,
) -> bool {
    &&& nodes_ordered(t)
    &&& settled(t, kind)
    &&& map.len() == m
    &&& forall|j: int|
        0 <= j < m ==> #[trigger] map[j] < t.len() && t[map[j] as int].fact.dt == s.nodes[j].fact.dt
            && (s.outputs.contains(j as usize) ==> !t[map[j] as int].fact.on_gpu)
}

proof fn lemma_settled_extends(t: Seq<NodeView>, t2: Seq<NodeView>, kind: MetalGemmImplKind)
    requires
        nodes_ordered(t),
        settled(t, kind),
        extends(t2, t),
        forall|k: int| t.len() <= k < t2.len() ==> #[trigger] settled_node(t2, k, kind),
    ensures
        settled(t2, kind),
{
    assert forall|k: int| 0 <= k < t2.len() implies #[trigger] settled_node(t2, k, kind) by {
        if k < t.len() {
            assert(settled_node(t, k, kind));
            assert(t2[k] == t[k]);
            assert(in_facts(t2, t2[k].inputs) =~= in_facts(t, t[k].inputs)) by {
                assert forall|j: int| 0 <= j < t[k].inputs.len() implies t2[t[k].inputs[j] as int]
                    == t[t[k].inputs[j] as int] by {
                    assert(t[k].inputs[j] < k);
                }
            }
            assert forall|j: int| 0 <= j < t2[k].inputs.len() implies t2[t2[k].inputs[j] as int]
                == t[t[k].inputs[j] as int] by {
                assert(t[k].inputs[j] < k);
            }
        }
    }
}

proof fn lemma_sync_one_inv(t: Seq<NodeView>, o: usize, kind: SyncKind, gk: MetalGemmImplKind)
    requires
        o < t.len(),
        nodes_ordered(t),
        settled(t, gk),
        sync_one(t, o, kind) is Ok,
        sync_one(t, o, kind)->Ok_0.0.len() <= usize::MAX,
    ensures
        ({
            let (t2, v) = sync_one(t, o, kind)->Ok_0;
            &&& nodes_ordered(t2)
            &&& settled(t2, gk)
            &&& extends(t2, t)
            &&& v < t2.len()
            &&& t2[v as int].fact.dt == t[o as int].fact.dt
            &&& kind == SyncKind::ToCpu ==> !t2[v as int].fact.on_gpu
        }),
{
    let (t2, v) = sync_one(t, o, kind)->Ok_0;
    if t2.len() > t.len() {
        assert(t2 == t.push(t2[t.len() as int]));
        assert forall|k: int, j: int| 0 <= k < t2.len() && 0 <= j < t2[k].inputs.len() implies #[trigger] t2[k].inputs[j] < k by {
            if k < t.len() {
                assert(t2[k] == t[k]);
            }
        }
        lemma_settled_extends(t, t2, gk);
    }
}

proof fn lemma_sync_inputs_inv(t: Seq<NodeView>, outlets: Seq<usize>, kind: SyncKind, gk: MetalGemmImplKind)
    requires
        forall|j: int| 0 <= j < outlets.len() ==> #[trigger] outlets[j] < t.len(),
        nodes_ordered(t),
        settled(t, gk),
        sync_inputs_spec(t, outlets, kind) is Ok,
        sync_inputs_spec(t, outlets, kind)->Ok_0.0.len() <= usize::MAX,
    ensures
        ({
            let (t2, m) = sync_inputs_spec(t, outlets, kind)->Ok_0;
            &&& nodes_ordered(t2)
            &&& settled(t2, gk)
            &&& extends(t2, t)
            &&& m.len() == outlets.len()
            &&& forall|j: int|
                0 <= j < m.len() ==> #[trigger] m[j] < t2.len() && t2[m[j] as int].fact.dt
                    == t[outlets[j] as int].fact.dt && (kind == SyncKind::ToCpu ==> !t2[m[j] as int].fact.on_gpu)
        }),
    decreases outlets.len(),
{
    if outlets.len() > 0 {
        let prefix = outlets.drop_last();
        assert forall|j: int| 0 <= j < prefix.len() implies #[trigger] prefix[j] < t.len() by {
            assert(prefix[j] == outlets[j]);
        }
        let (t1, mapped) = sync_inputs_spec(t, prefix, kind)->Ok_0;
        let last = outlets.last();
        let (t2, v) = sync_one(t1, last, kind)->Ok_0;
        assert(outlets.last() == outlets[outlets.len() - 1]);
        lemma_sync_inputs_inv(t, prefix, kind, gk);
        lemma_sync_one_grows(t1, last, kind);
        assert(t1[last as int] == t[last as int]);
        lemma_sync_one_inv(t1, last, kind, gk);
        let m = mapped.push(v);
        assert forall|j: int| 0 <= j < m.len() implies #[trigger] m[j] < t2.len() && t2[m[j] as int].fact.dt
            == t[outlets[j] as int].fact.dt && (kind == SyncKind::ToCpu ==> !t2[m[j] as int].fact.on_gpu) by {
            if j < mapped.len() {
                assert(m[j] == mapped[j]);
                assert(outlets[j] == prefix[j]);
                assert(t2[mapped[j] as int] == t1[mapped[j] as int]);
            } else {
                assert(t1[last as int] == t[last as int]);
            }
        }
    }
}

/// Host-side input facts with the same types as the source's: if the node is
/// eligible over them, it is eligible over the source's facts.
proof fn lemma_eligibility_transfer(
    ft: Seq<FactView>,
    fs: Seq<FactView>,
    op: Op,
    own: FactView,
)
    requires
        ft.len() == fs.len(),
        forall|j: int| 0 <= j < ft.len() ==> #[trigger] ft[j].dt == fs[j].dt && !ft[j].on_gpu,
        inputs_gpu_compatible(ft),
        dts_ok(op, ft, own),
    ensures
        inputs_gpu_compatible(fs),
        dts_ok(op, fs, own),
{
    assert forall|j: int| 0 <= j < fs.len() implies gpu_supports_spec(#[trigger] fs[j].dt) || fs[j].on_gpu by {
        assert(gpu_supports_spec(ft[j].dt) || ft[j].on_gpu);
    }
    assert forall|c: DtClass| all_in_class(ft, c) implies all_in_class(fs, c) by {
        assert forall|j: int| 0 <= j < fs.len() implies in_class(#[trigger] fs[j].dt, c) by {
            assert(in_class(ft[j].dt, c));
        }
    }
}

proof fn lemma_sync_output_inv(s: GraphView, i: int, t: Seq<NodeView>, o: usize, kind: MetalGemmImplKind)
    requires
        o < t.len(),
        nodes_ordered(t),
        settled(t, kind),
        sync_output_spec(s, i, t, o).0.len() <= usize::MAX,
    ensures
        ({
            let (t2, o2) = sync_output_spec(s, i, t, o);
            &&& nodes_ordered(t2)
            &&& settled(t2, kind)
            &&& extends(t2, t)
            &&& o2 < t2.len()
            &&& t2[o2 as int].fact.dt == t[o as int].fact.dt
            &&& s.outputs.contains(i as usize) ==> !t2[o2 as int].fact.on_gpu
        }),
{
    let (t2, o2) = sync_output_spec(s, i, t, o);
    if t2.len() > t.len() {
        let n = node_view(Op::Sync(SyncKind::ToCpu), seq![o], transferred(t[o as int].fact, false));
        assert(t2 == t.push(n));
        lemma_push_ordered(t, n);
        assert(settled_node(t2, t.len() as int, kind));
        lemma_settled_extends(t, t2, kind);
    }
}

proof fn lemma_translate_node_inv(
    s: GraphView,
    i: int,
    t: Seq<NodeView>,
    map: Seq<usize>,
    kind: MetalGemmImplKind,
)
    requires
        well_formed(s),
        0 <= i < s.nodes.len(),
        translation_inv(s, t, map, i, kind),
        translate_node_spec(s, i, t, map, kind) is Ok,
        translate_node_spec(s, i, t, map, kind)->Ok_0.0.len() <= usize::MAX,
    ensures
        ({
            let (t2, o) = translate_node_spec(s, i, t, map, kind)->Ok_0;
            &&& translation_inv(s, t2, map.push(o), i + 1, kind)
            &&& extends(t2, t)
        }),
{
    let n = s.nodes[i];
    let mapped = n.inputs.map_values(|j: usize| map[j as int]);
    let (t2, o) = translate_node_spec(s, i, t, map, kind)->Ok_0;
    assert forall|j: int| 0 <= j < mapped.len() implies #[trigger] mapped[j] < t.len()
        && t[mapped[j] as int].fact.dt == s.nodes[n.inputs[j] as int].fact.dt by {
        assert(n.inputs[j] < i);
    }
    // the target before the output transfer, and the node holding node i's value
    let (tb, ob): (Seq<NodeView>, usize) = if is_backend_node(n.op) {
        let nb = node_view(n.op, mapped, n.fact);
        lemma_push_ordered(t, nb);
        assert(settled_node(t.push(nb), t.len() as int, kind));
        lemma_settled_extends(t, t.push(nb), kind);
        (t.push(nb), t.len() as usize)
    } else if eligible(s.nodes, i, kind) {
        let (t1, ins) = sync_inputs_spec(t, mapped, SyncKind::ToGpu)->Ok_0;
        let (te, oe) = emit_gpu(s.nodes, i, t1, ins, kind)->Ok_0;
        assert(te.len() >= t1.len() + 1);
        lemma_sync_inputs_inv(t, mapped, SyncKind::ToGpu, kind);
        // the GPU node, and the cast after a product
        assert forall|k: int, j: int| 0 <= k < te.len() && 0 <= j < te[k].inputs.len() implies #[trigger] te[k].inputs[j] < k by {
            if k < t1.len() {
                assert(te[k] == t1[k]);
            }
        }
        assert forall|k: int| t1.len() <= k < te.len() implies #[trigger] settled_node(te, k, kind) by {}
        lemma_settled_extends(t1, te, kind);
        assert(te[oe as int].fact.dt == n.fact.dt);
        (te, oe)
    } else {
        let (t1, ins) = sync_inputs_spec(t, mapped, SyncKind::ToCpu)->Ok_0;
        lemma_sync_inputs_inv(t, mapped, SyncKind::ToCpu, kind);
        let k = t1.len() as int;
        let nc = node_view(n.op, ins, n.fact);
        let tc = t1.push(nc);
        lemma_push_ordered(t1, nc);
        let ft = in_facts(tc, ins);
        let fs = in_facts(s.nodes, n.inputs);
        assert forall|j: int| 0 <= j < ft.len() implies #[trigger] ft[j].dt == fs[j].dt && !ft[j].on_gpu by {
            assert(tc[ins[j] as int] == t1[ins[j] as int]);
        }
        if eligible(tc, k, kind) {
            lemma_eligibility_transfer(ft, fs, n.op, n.fact);
            assert(eligible(s.nodes, i, kind));
        }
        assert forall|j: int| 0 <= j < tc[k].inputs.len() implies !(#[trigger] tc[tc[k].inputs[j] as int]).fact.on_gpu by {
            assert(tc[ins[j] as int] == t1[ins[j] as int]);
        }
        assert(settled_node(tc, k, kind));
        lemma_settled_extends(t1, tc, kind);
        (tc, k as usize)
    };
    assert(extends(tb, t));
    lemma_sync_output_inv(s, i, tb, ob, kind);
    assert((t2, o) == sync_output_spec(s, i, tb, ob));
    assert forall|j: int| 0 <= j < i + 1 implies #[trigger] map.push(o)[j] < t2.len()
        && t2[map.push(o)[j] as int].fact.dt == s.nodes[j].fact.dt && (s.outputs.contains(j as usize)
        ==> !t2[map.push(o)[j] as int].fact.on_gpu) by {
        if j < i {
            assert(map.push(o)[j] == map[j]);
            assert(tb[map[j] as int] == t[map[j] as int]);
            assert(t2[map[j] as int] == tb[map[j] as int]);
        }
    }
}

proof fn lemma_sync_inputs_len(t: Seq<NodeView>, outlets: Seq<usize>, kind: SyncKind)
    ensures
        sync_inputs_spec(t, outlets, kind) matches Ok((t2, _m)) ==> t2.len() >= t.len(),
    decreases outlets.len(),
{
    if outlets.len() > 0 {
        lemma_sync_inputs_len(t, outlets.drop_last(), kind);
    }
}

proof fn lemma_translate_node_len(s: GraphView, i: int, t: Seq<NodeView>, map: Seq<usize>, kind: MetalGemmImplKind)
    ensures
        translate_node_spec(s, i, t, map, kind) matches Ok((t2, _o)) ==> t2.len() >= t.len(),
{
    let n = s.nodes[i];
    let mapped = n.inputs.map_values(|j: usize| map[j as int]);
    lemma_sync_inputs_len(t, mapped, SyncKind::ToGpu);
    lemma_sync_inputs_len(t, mapped, SyncKind::ToCpu);
}

proof fn lemma_translate_prefix_inv(s: GraphView, kind: MetalGemmImplKind, m: nat)
    requires
        well_formed(s),
        m <= s.nodes.len(),
        translate_prefix(s, kind, m) is Ok,
        translate_prefix(s, kind, m)->Ok_0.0.len() <= usize::MAX,
    ensures
        ({
            let (t, map) = translate_prefix(s, kind, m)->Ok_0;
            translation_inv(s, t, map, m as int, kind)
        }),
    decreases m,
{
    if m > 0 {
        let prev = translate_prefix(s, kind, (m - 1) as nat);
        assert(prev is Ok);
        let (t, map) = prev->Ok_0;
        lemma_translate_node_len(s, m - 1, t, map, kind);
        lemma_translate_prefix_inv(s, kind, (m - 1) as nat);
        lemma_translate_node_inv(s, m - 1, t, map, kind);
    } else {
        let (t, map) = translate_prefix(s, kind, m)->Ok_0;
        assert(t =~= Seq::<NodeView>::empty());
    }
}

proof fn lemma_sync_cpu_noop(t: Seq<NodeView>, outlets: Seq<usize>)
    requires
        forall|j: int| 0 <= j < outlets.len() ==> #[trigger] outlets[j] < t.len() && !t[outlets[j] as int].fact.on_gpu,
    ensures
        sync_inputs_spec(t, outlets, SyncKind::ToCpu) == Ok::<(Seq<NodeView>, Seq<usize>), CoreError>((t, outlets)),
    decreases outlets.len(),
{
    if outlets.len() > 0 {
        let prefix = outlets.drop_last();
        assert forall|j: int| 0 <= j < prefix.len() implies #[trigger] prefix[j] < t.len() && !t[prefix[j] as int].fact.on_gpu by {
            assert(prefix[j] == outlets[j]);
        }
        lemma_sync_cpu_noop(t, prefix);
        assert(outlets.last() == outlets[outlets.len() - 1]);
        assert(sync_one(t, outlets.last(), SyncKind::ToCpu) == Ok::<(Seq<NodeView>, usize), CoreError>((t, outlets.last())));
        assert(prefix.push(outlets.last()) =~= outlets);
    } else {
        assert(outlets =~= seq![]);
    }
}

pub open spec fn identity_map(m: nat) -> Seq<usize> {
    Seq::new(m, |i: int| i as usize)
}

proof fn lemma_settled_prefix_is_identity(g: GraphView, kind: MetalGemmImplKind, m: nat)
    requires
        well_formed(g),
        settled(g.nodes, kind),
        outputs_on_host(g),
        g.nodes.len() <= usize::MAX,
        m <= g.nodes.len(),
    ensures
        translate_prefix(g, kind, m) == Ok::<(Seq<NodeView>, Seq<usize>), CoreError>((g.nodes.take(m as int), identity_map(m))),
    decreases m,
{
    if m == 0 {
        assert(g.nodes.take(0) =~= Seq::<NodeView>::empty());
        assert(identity_map(0) =~= Seq::<usize>::empty());
    } else {
        let k = m - 1;
        lemma_settled_prefix_is_identity(g, kind, k as nat);
        let t = g.nodes.take(k);
        let map = identity_map(k as nat);
        let n = g.nodes[k];
        let mapped = n.inputs.map_values(|j: usize| map[j as int]);
        assert(mapped =~= n.inputs) by {
            assert forall|j: int| 0 <= j < n.inputs.len() implies mapped[j] == n.inputs[j] by {
                assert(n.inputs[j] < k);
            }
        }
        assert(node_view(n.op, n.inputs, n.fact) == n);
        assert(g.nodes.take(m as int) =~= t.push(n));
        assert(identity_map(m) =~= map.push(k as usize));
        assert(settled_node(g.nodes, k, kind));
        if g.outputs.contains(k as usize) {
            let x = choose|x: int| 0 <= x < g.outputs.len() && g.outputs[x] == k as usize;
            assert(!g.nodes[g.outputs[x] as int].fact.on_gpu);
        }
        assert(t.push(n)[k] == n);
        if !is_backend_node(n.op) {
            assert forall|j: int| 0 <= j < n.inputs.len() implies #[trigger] n.inputs[j] < t.len() && !t[n.inputs[j] as int].fact.on_gpu by {
                assert(n.inputs[j] < k);
                assert(t[n.inputs[j] as int] == g.nodes[n.inputs[j] as int]);
            }
            lemma_sync_cpu_noop(t, n.inputs);
        }
    }
}

/// Offload idempotence: translating a graph that the planner already
/// translated changes nothing. Its GPU nodes and transfers are kept as they
/// are, its remaining host nodes stay ineligible and read host values only,
/// so no node is translated again and no transfer is added.
/// Where the translation leaves values: no host node reads a device-resident
/// value, and every model output is host-resident.
pub proof fn lemma_translation_placement(g: GraphView, kind: MetalGemmImplKind)
    requires
        well_formed(g),
        translate_spec(g, kind) is Ok,
        translate_spec(g, kind)->Ok_0.nodes.len() <= usize::MAX,
    ensures
        host_reads_host(translate_spec(g, kind)->Ok_0.nodes),
        outputs_on_host(translate_spec(g, kind)->Ok_0),
        well_formed(translate_spec(g, kind)->Ok_0),
        settled(translate_spec(g, kind)->Ok_0.nodes, kind),
{
    let g2 = translate_spec(g, kind)->Ok_0;
    let (t, map) = translate_prefix(g, kind, g.nodes.len())->Ok_0;
    lemma_translate_prefix_inv(g, kind, g.nodes.len());
    assert forall|k: int| 0 <= k < t.len() && !is_backend_node(#[trigger] t[k].op) implies inputs_on_host(t, k) by {
        assert(settled_node(t, k, kind));
    }
    assert forall|k: int| 0 <= k < g2.outputs.len() implies !g2.nodes[#[trigger] g2.outputs[k] as int].fact.on_gpu by {
        let o = g.outputs[k];
        assert(o < g.nodes.len());
        assert(g.outputs.contains(o));
        assert(g2.outputs[k] == map[o as int]);
    }
    lemma_translate_well_formed(g, kind);
}

/// Bypassing round trips moves no value between host and device and leaves
/// host nodes and outputs as they were.
pub proof fn lemma_rewire_keeps_placement(g: GraphView)
    requires
        well_formed(g),
        host_reads_host(g.nodes),
        outputs_on_host(g),
    ensures
        host_reads_host(rewire_spec(g).nodes),
        outputs_on_host(rewire_spec(g)),
{
    let t = g.nodes;
    let t2 = rewire_spec(g).nodes;
    assert forall|k: int| 0 <= k < t2.len() && !is_backend_node(#[trigger] t2[k].op) implies inputs_on_host(t2, k) by {
        assert(t2[k] == t[k]);
        assert(inputs_on_host(t, k));
        assert forall|j: int| 0 <= j < t2[k].inputs.len() implies !(#[trigger] t2[t2[k].inputs[j] as int]).fact.on_gpu by {
            assert(t[k].inputs[j] < k);
            assert(t2[t[k].inputs[j] as int].fact == t[t[k].inputs[j] as int].fact);
        }
    }
    assert forall|k: int| 0 <= k < g.outputs.len() implies !t2[#[trigger] g.outputs[k] as int].fact.on_gpu by {
        assert(g.outputs[k] < t.len());
        assert(!t[g.outputs[k] as int].fact.on_gpu);
    }
}

pub proof fn lemma_offload_idempotent(g: GraphView, kind: MetalGemmImplKind)
    requires
        well_formed(g),
        translate_spec(g, kind) is Ok,
        translate_spec(g, kind)->Ok_0.nodes.len() <= usize::MAX,
    ensures
        translate_spec(translate_spec(g, kind)->Ok_0, kind) == translate_spec(g, kind),
{
    let g2 = translate_spec(g, kind)->Ok_0;
    lemma_translation_placement(g, kind);
    lemma_settled_prefix_is_identity(g2, kind, g2.nodes.len());
    assert(g2.nodes.take(g2.nodes.len() as int) =~= g2.nodes);
    let id = identity_map(g2.nodes.len());
    assert(g2.outputs.map_values(|o: usize| id[o as int]) =~= g2.outputs);
}

/// Node `o` is a transfer to the device of a transfer to the host of an
/// earlier value: a round trip that a device reader can bypass.
pub open spec fn round_trip(t: Seq<NodeView>, o: usize) -> bool {
    &&& o < t.len()
    &&& t[o as int].op == Op::Sync(SyncKind::ToGpu)
    &&& t[o as int].inputs.len() == 1
    &&& t[o as int].inputs[0] < o
    &&& t[t[o as int].inputs[0] as int].op == Op::Sync(SyncKind::ToCpu)
    &&& t[t[o as int].inputs[0] as int].inputs.len() == 1
    &&& t[t[o as int].inputs[0] as int].inputs[0] < t[o as int].inputs[0]
}

/// The device value at the start of the round trips that end at `o`.
pub open spec fn rewired_input(t: Seq<NodeView>, o: usize) -> usize
    decreases o,
{
    if round_trip(t, o) {
        rewired_input(t, t[t[o as int].inputs[0] as int].inputs[0])
    } else {
        o
    }
}

/// The graph with every round trip device -> host -> device bypassed: GPU
/// nodes read the device value directly. Everything else is kept.
pub open spec fn rewire_spec(g: GraphView) -> GraphView {
    GraphView {
        nodes: g.nodes.map_values(
            |n: NodeView|
                if n.op is Gpu {
                    NodeView { inputs: n.inputs.map_values(|o: usize| rewired_input(g.nodes, o)), ..n }
                } else {
                    n
                },
        ),
        outputs: g.outputs,
    }
}

fn rewired_input_exec(g: &Graph, o: usize) -> (r: usize)
    ensures
        r == rewired_input(g@.nodes, o),
{
    let ghost t = g@.nodes;
    let mut cur = o;
    loop
        invariant
            t == g@.nodes,
            rewired_input(t, cur) == rewired_input(t, o),
        decreases cur,
    {
        if cur >= g.nodes.len() {
            return cur;
        }
        assert(g.nodes@[cur as int]@ == t[cur as int]);
        let n = &g.nodes[cur];
        if !(matches!(n.op, Op::Sync(SyncKind::ToGpu)) && n.inputs.len() == 1 && n.inputs[0] < cur) {
            return cur;
        }
        let p = n.inputs[0];
        assert(g.nodes@[p as int]@ == t[p as int]);
        let pn = &g.nodes[p];
        if !(matches!(pn.op, Op::Sync(SyncKind::ToCpu)) && pn.inputs.len() == 1 && pn.inputs[0] < p) {
            return cur;
        }
        cur = pn.inputs[0];
    }
}

/// Bypasses device -> host -> device round trips (see `rewire_spec`).
pub fn rewire_metal_sync(model: &Graph) -> (r: Graph)
    ensures
        r@ == rewire_spec(model@),
{
    let ghost g = model@;
    let mut nodes: Vec<Node> = Vec::new();
    let mut k: usize = 0;
    while k < model.nodes.len()
        invariant
            g == model@,
            k <= g.nodes.len(),
            nodes@.len() == k,
            forall|a: int| 0 <= a < k ==> (#[trigger] nodes@[a])@ == rewire_spec(g).nodes[a],
        decreases g.nodes.len() - k,
    {
        let node = &model.nodes[k];
        assert(node@ == g.nodes[k as int]);
        if !matches!(node.op, Op::Gpu(_)) {
            nodes.push(node.duplicate());
        } else {
            let mut inputs: Vec<usize> = Vec::new();
            let mut j: usize = 0;
            while j < node.inputs.len()
                invariant
                    g == model@,
                    node@ == g.nodes[k as int],
                    j <= node@.inputs.len(),
                    inputs@ =~= node@.inputs.take(j as int).map_values(|o: usize| rewired_input(g.nodes, o)),
                decreases node@.inputs.len() - j,
            {
                inputs.push(rewired_input_exec(model, node.inputs[j]));
                j = j + 1;
                assert(node@.inputs.take(j as int) =~= node@.inputs.take(j - 1).push(node@.inputs[j - 1]));
            }
            assert(node@.inputs.take(node@.inputs.len() as int) =~= node@.inputs);
            nodes.push(Node { op: node.op, inputs, fact: node.fact.duplicate() });
        }
        k = k + 1;
    }
    let r = Graph { nodes, outputs: model.outputs.clone() };
    assert(r@.nodes =~= rewire_spec(g).nodes);
    r
}

/// The single-node rewrite of a binary operator to its GPU counterpart:
/// all inputs of one type that the GPU holds, and an operator it has.
pub open spec fn bin_rewrite_spec(model: GraphView, node_id: int) -> Option<NodeView> {
    let n = model.nodes[node_id];
    let facts = in_facts(model.nodes, n.inputs);
    match n.op {
        Op::Bin(k) => if facts.len() > 0 && (forall|j: int| 0 <= j < facts.len() ==> #[trigger] facts[j].dt == facts[0].dt)
            && gpu_supports_spec(facts[0].dt) && map_bin(k) is Some {
            Some(NodeView { op: Op::Gpu(GpuOp::Bin(map_bin(k)->Some_0)), ..n })
        } else {
            None
        },
        _ => None,
    }
}

/// Rewrites a binary node to its GPU counterpart where it can.
pub fn bin_ops_to_metal(model: &Graph, node_id: usize) -> (r: Option<Node>)
    requires
        node_id < model@.nodes.len(),
        inputs_exist(model@, node_id as int),
    ensures
        match r {
            Some(n) => bin_rewrite_spec(model@, node_id as int) == Some(n@),
            None => bin_rewrite_spec(model@, node_id as int) is None,
        },
{
    let node = &model.nodes[node_id];
    assert(node@ == model@.nodes[node_id as int]);
    let k = match node.op {
        Op::Bin(k) => k,
        _ => return None,
    };
    let facts = input_facts(model, node_id);
    let ghost views = fact_views(facts@);
    if facts.len() == 0 {
        return None;
    }
    assert(views[0] == facts@[0]@);
    let dt = facts[0].dt;
    let mut j: usize = 0;
    while j < facts.len()
        invariant
            views == fact_views(facts@),
            node_id < model@.nodes.len(),
            views == in_facts(model@.nodes, model@.nodes[node_id as int].inputs),
            facts@.len() > 0,
            dt == views[0].dt,
            j <= facts@.len(),
            forall|t: int| 0 <= t < j ==> #[trigger] views[t].dt == dt,
        decreases facts@.len() - j,
    {
        assert(views[j as int] == facts@[j as int]@);
        if facts[j].dt != dt {
            assert(views[j as int].dt != views[0].dt);
            assert(!(forall|t: int| 0 <= t < views.len() ==> #[trigger] views[t].dt == views[0].dt));
            return None;
        }
        j = j + 1;
    }
    if !dt.is_gpu_supported() {
        return None;
    }
    match convert_bin_ops_to_metal(k) {
        Some(b) => Some(Node { op: Op::Gpu(GpuOp::Bin(b)), inputs: node.inputs.clone(), fact: node.fact.duplicate() }),
        None => None,
    }
}

impl MetalTransform {
    pub fn name(&self) -> (r: &'static str)
        ensures
            r@ == "metal-transform"@,
    {
        "metal-transform"
    }

    /// All phases.
    pub fn transform(&self, model: &mut Graph) -> (r: Result<(), CoreError>)
        requires
            well_formed(old(model)@),
        ensures
            match r {
                Ok(()) => translate_spec(old(model)@, self.gemm_impl) matches Ok(g) && final(model)@ == rewire_spec(g),
                Err(e) => translate_spec(old(model)@, self.gemm_impl) == Err::<GraphView, CoreError>(e),
            },
            r is Ok ==> well_formed(final(model)@),
    {
        self.transform_up_to_phase(model, usize::MAX)
    }

    /// Runs the planner's phases up to `stop_at_phase`.
    ///
    /// Phases 0 and 1 leave the graph unchanged here: the graph reaches this
    /// pass with contractions already written as products and the fused
    /// patterns (normalisation, gated activations, rotary embeddings, masked
    /// softmax) already folded into their operators, so no contraction
    /// rewrite and no pattern folding is done. Phase 2 is the node-by-node
    /// translation. Phase 3 bypasses device -> host -> device round trips;
    /// it does not rewire transfers that follow constants and does not fuse
    /// axis operators, which stay as separate nodes.
    pub fn transform_up_to_phase(&self, model: &mut Graph, stop_at_phase: usize) -> (r: Result<(), CoreError>)
        requires
            well_formed(old(model)@),
        ensures
            stop_at_phase < 2 ==> r is Ok && final(model)@ == old(model)@,
            stop_at_phase == 2 ==> match r {
                Ok(()) => translate_spec(old(model)@, self.gemm_impl) == Ok::<GraphView, CoreError>(final(model)@),
                Err(e) => translate_spec(old(model)@, self.gemm_impl) == Err::<GraphView, CoreError>(e),
            },
            stop_at_phase > 2 ==> match r {
                Ok(()) => translate_spec(old(model)@, self.gemm_impl) matches Ok(g) && final(model)@ == rewire_spec(g),
                Err(e) => translate_spec(old(model)@, self.gemm_impl) == Err::<GraphView, CoreError>(e),
            },
            r is Ok ==> well_formed(final(model)@),
            r is Ok && stop_at_phase >= 2 ==> host_reads_host(final(model)@.nodes) && outputs_on_host(
                final(model)@,
            ),
    {
        if stop_at_phase < 2 {
            return Ok(());
        }
        let translated = self.translate_model(model)?;
        let translated_len = translated.nodes.len();
        proof {
            lemma_translate_well_formed(old(model)@, self.gemm_impl);
            lemma_rewire_keeps_well_formed(translated@);
            assert(translated@.nodes.len() == translated_len);
            lemma_translation_placement(old(model)@, self.gemm_impl);
            lemma_rewire_keeps_placement(translated@);
        }
        if stop_at_phase == 2 {
            *model = translated;
            return Ok(());
        }
        *model = rewire_metal_sync(&translated);
        Ok(())
    }
}

proof fn lemma_rewired_input_facts(t: Seq<NodeView>, o: usize)
    ensures
        rewired_input(t, o) <= o,
        !round_trip(t, rewired_input(t, o)),
    decreases o,
{
    if round_trip(t, o) {
        lemma_rewired_input_facts(t, t[t[o as int].inputs[0] as int].inputs[0]);
    }
}

/// The bypass changes GPU nodes' inputs only, so round trips, which are made
/// of transfer nodes, are where they were.
proof fn lemma_rewire_keeps_round_trips(g: GraphView, o: usize)
    ensures
        round_trip(rewire_spec(g).nodes, o) == round_trip(g.nodes, o),
        rewired_input(rewire_spec(g).nodes, o) == rewired_input(g.nodes, o),
    decreases o,
{
    let t = g.nodes;
    let t2 = rewire_spec(g).nodes;
    if o < t.len() {
        assert(t2[o as int].op == t[o as int].op);
        if t[o as int].op == Op::Sync(SyncKind::ToGpu) {
            assert(t2[o as int] == t[o as int]);
            if t[o as int].inputs.len() == 1 && t[o as int].inputs[0] < o {
                let p = t[o as int].inputs[0];
                assert(t2[p as int].op == t[p as int].op);
                if t[p as int].op == Op::Sync(SyncKind::ToCpu) {
                    assert(t2[p as int] == t[p as int]);
                }
            }
        }
    }
    if round_trip(t, o) {
        lemma_rewire_keeps_round_trips(g, t[t[o as int].inputs[0] as int].inputs[0]);
    }
}

proof fn lemma_rewire_idempotent(g: GraphView)
    ensures
        rewire_spec(rewire_spec(g)) == rewire_spec(g),
{
    let g1 = rewire_spec(g);
    let g2 = rewire_spec(g1);
    assert forall|k: int| 0 <= k < g1.nodes.len() implies #[trigger] g2.nodes[k] == g1.nodes[k] by {
        let n = g.nodes[k];
        if n.op is Gpu {
            let ins = g1.nodes[k].inputs;
            assert forall|j: int| 0 <= j < ins.len() implies rewired_input(g1.nodes, #[trigger] ins[j]) == ins[j] by {
                lemma_rewire_keeps_round_trips(g, ins[j]);
                lemma_rewired_input_facts(g.nodes, n.inputs[j]);
            }
            assert(g2.nodes[k].inputs =~= ins);
        }
    }
    assert(g2.nodes =~= g1.nodes);
}

/// A settled, well-formed graph stays so when round trips are bypassed.
proof fn lemma_rewire_keeps_settled(g: GraphView, kind: MetalGemmImplKind)
    requires
        well_formed(g),
        settled(g.nodes, kind),
    ensures
        well_formed(rewire_spec(g)),
        settled(rewire_spec(g).nodes, kind),
{
    let t = g.nodes;
    let t2 = rewire_spec(g).nodes;
    assert forall|k: int, j: int| 0 <= k < t2.len() && 0 <= j < t2[k].inputs.len() implies #[trigger] t2[k].inputs[j] < k by {
        if t[k].op is Gpu {
            lemma_rewired_input_facts(t, t[k].inputs[j]);
        }
    }
    assert forall|k: int| 0 <= k < t2.len() implies #[trigger] settled_node(t2, k, kind) by {
        assert(settled_node(t, k, kind));
        if !(t[k].op is Gpu) {
            assert(t2[k] == t[k]);
            assert(in_facts(t2, t2[k].inputs) =~= in_facts(t, t[k].inputs));
            assert forall|j: int| 0 <= j < t2[k].inputs.len() implies t2[t2[k].inputs[j] as int].fact
                == t[t[k].inputs[j] as int].fact by {}
        }
    }
}

/// Offload idempotence for the whole planner: running the translation and the
/// round-trip bypass on the graph that they produced gives that graph back.
/// No node is translated again, no transfer is added, and no input is
/// rewired again.
pub proof fn lemma_planner_idempotent(g: GraphView, kind: MetalGemmImplKind)
    requires
        well_formed(g),
        translate_spec(g, kind) is Ok,
        translate_spec(g, kind)->Ok_0.nodes.len() <= usize::MAX,
    ensures
        ({
            let h = rewire_spec(translate_spec(g, kind)->Ok_0);
            &&& translate_spec(h, kind) == Ok::<GraphView, CoreError>(h)
            &&& rewire_spec(h) == h
        }),
{
    let g2 = translate_spec(g, kind)->Ok_0;
    lemma_translation_placement(g, kind);
    let h = rewire_spec(g2);
    lemma_rewire_keeps_settled(g2, kind);
    lemma_rewire_keeps_placement(g2);
    lemma_settled_prefix_is_identity(h, kind, h.nodes.len());
    assert(h.nodes.take(h.nodes.len() as int) =~= h.nodes);
    let id = identity_map(h.nodes.len());
    assert(h.outputs.map_values(|o: usize| id[o as int]) =~= h.outputs);
    lemma_rewire_idempotent(g2);
}

proof fn lemma_push_ordered(t: Seq<NodeView>, n: NodeView)
    requires
        nodes_ordered(t),
        forall|j: int| 0 <= j < n.inputs.len() ==> #[trigger] n.inputs[j] < t.len(),
    ensures
        nodes_ordered(t.push(n)),
{
    let t2 = t.push(n);
    assert forall|k: int, j: int| 0 <= k < t2.len() && 0 <= j < t2[k].inputs.len() implies #[trigger] t2[k].inputs[j] < k by {
        if k < t.len() {
            assert(t2[k] == t[k]);
        }
    }
}

proof fn lemma_sync_one_ordered(t: Seq<NodeView>, o: usize, kind: SyncKind)
    requires
        o < t.len(),
        nodes_ordered(t),
    ensures
        sync_one(t, o, kind) matches Ok((t2, _v)) ==> nodes_ordered(t2),
{
    if let Ok((t2, v)) = sync_one(t, o, kind) {
        if t2.len() > t.len() {
            lemma_push_ordered(t, t2[t.len() as int]);
            assert(t2 == t.push(t2[t.len() as int]));
        } else if t2 != t {
            assert forall|k: int, j: int| 0 <= k < t2.len() && 0 <= j < t2[k].inputs.len() implies #[trigger] t2[k].inputs[j] < k by {
                assert(t2[k].inputs == t[k].inputs);
            }
        }
    }
}

proof fn lemma_sync_inputs_ordered(t: Seq<NodeView>, outlets: Seq<usize>, kind: SyncKind)
    requires
        forall|j: int| 0 <= j < outlets.len() ==> #[trigger] outlets[j] < t.len(),
        nodes_ordered(t),
    ensures
        sync_inputs_spec(t, outlets, kind) matches Ok((t2, _m)) ==> nodes_ordered(t2),
    decreases outlets.len(),
{
    if outlets.len() > 0 {
        let prefix = outlets.drop_last();
        assert forall|j: int| 0 <= j < prefix.len() implies #[trigger] prefix[j] < t.len() by {
            assert(prefix[j] == outlets[j]);
        }
        lemma_sync_inputs_ordered(t, prefix, kind);
        lemma_sync_inputs_grows(t, prefix, kind);
        if let Ok((t1, _m)) = sync_inputs_spec(t, prefix, kind) {
            assert(outlets.last() == outlets[outlets.len() - 1]);
            lemma_sync_one_ordered(t1, outlets.last(), kind);
        }
    }
}

proof fn lemma_translate_node_ordered(
    s: GraphView,
    i: int,
    t: Seq<NodeView>,
    map: Seq<usize>,
    kind: MetalGemmImplKind,
)
    requires
        well_formed(s),
        0 <= i < s.nodes.len(),
        map.len() == i,
        forall|j: int| 0 <= j < i ==> #[trigger] map[j] < t.len(),
        nodes_ordered(t),
    ensures
        translate_node_spec(s, i, t, map, kind) matches Ok((t2, _o)) ==> nodes_ordered(t2),
{
    let n = s.nodes[i];
    let mapped = n.inputs.map_values(|j: usize| map[j as int]);
    assert forall|j: int| 0 <= j < mapped.len() implies #[trigger] mapped[j] < t.len() by {
        assert(n.inputs[j] < i);
    }
    if is_backend_node(n.op) {
        lemma_push_ordered(t, node_view(n.op, mapped, n.fact));
    } else {
        let kind_s = if eligible(s.nodes, i, kind) { SyncKind::ToGpu } else { SyncKind::ToCpu };
        lemma_sync_inputs_ordered(t, mapped, kind_s);
        lemma_sync_inputs_grows(t, mapped, kind_s);
        if let Ok((t1, ins)) = sync_inputs_spec(t, mapped, kind_s) {
            if kind_s == SyncKind::ToCpu {
                lemma_push_ordered(t1, node_view(n.op, ins, n.fact));
            } else if let Ok((te, oe)) = emit_gpu(s.nodes, i, t1, ins, kind) {
                let g = gpu_op_of(n.op, kind)->Some_0;
                if let Op::MatMul { transpose_a, transpose_b, .. } = n.op {
                    let fs = op_facts_spec(transpose_a, transpose_b, in_facts(s.nodes, n.inputs))->Ok_0;
                    let gemm = node_view(Op::Gpu(g), ins, FactView { dt: fs[0].dt, ..on_device(n.fact) });
                    lemma_push_ordered(t1, gemm);
                    let t1g = t1.push(gemm);
                    lemma_push_ordered(t1g, node_view(Op::Gpu(GpuOp::Cast(n.fact.dt)), seq![t1.len() as usize], on_device(n.fact)));
                } else {
                    lemma_push_ordered(t1, node_view(Op::Gpu(g), ins, on_device(n.fact)));
                }
                assert(nodes_ordered(te));
                if oe < te.len() {
                    lemma_push_ordered(te, node_view(Op::Sync(SyncKind::ToCpu), seq![oe], transferred(te[oe as int].fact, false)));
                }
            }
        }
    }
}

proof fn lemma_translate_prefix_ordered(s: GraphView, kind: MetalGemmImplKind, m: nat)
    requires
        well_formed(s),
        m <= s.nodes.len(),
    ensures
        translate_prefix(s, kind, m) matches Ok((t, map)) ==> nodes_ordered(t) && map.len() == m
            && forall|j: int| 0 <= j < m ==> #[trigger] map[j] < t.len(),
    decreases m,
{
    if m == 0 {
        assert(nodes_ordered(Seq::<NodeView>::empty()));
    } else {
        lemma_translate_prefix_ordered(s, kind, (m - 1) as nat);
        if let Ok((t, map)) = translate_prefix(s, kind, (m - 1) as nat) {
            lemma_translate_node_ordered(s, m - 1, t, map, kind);
            lemma_translate_node_grows(s, m - 1, t, map, kind);
            if let Ok((t2, o)) = translate_node_spec(s, m - 1, t, map, kind) {
                assert forall|j: int| 0 <= j < m implies #[trigger] map.push(o)[j] < t2.len() by {
                    if j < m - 1 {
                        assert(map.push(o)[j] == map[j]);
                    }
                }
            }
        }
    }
}

/// The translation of a well-formed graph is well-formed.
proof fn lemma_translate_well_formed(s: GraphView, kind: MetalGemmImplKind)
    requires
        well_formed(s),
    ensures
        translate_spec(s, kind) matches Ok(g) ==> well_formed(g),
{
    lemma_translate_prefix_ordered(s, kind, s.nodes.len());
    if let Ok(g) = translate_spec(s, kind) {
        let (t, map) = translate_prefix(s, kind, s.nodes.len())->Ok_0;
        assert forall|k: int| 0 <= k < g.outputs.len() implies #[trigger] g.outputs[k] < g.nodes.len() by {
            assert(s.outputs[k] < s.nodes.len());
        }
    }
}

/// Bypassing round trips keeps a graph well-formed.
proof fn lemma_rewire_keeps_well_formed(g: GraphView)
    requires
        well_formed(g),
    ensures
        well_formed(rewire_spec(g)),
{
    let t = g.nodes;
    let t2 = rewire_spec(g).nodes;
    assert forall|k: int, j: int| 0 <= k < t2.len() && 0 <= j < t2[k].inputs.len() implies #[trigger] t2[k].inputs[j] < k by {
        if t[k].op is Gpu {
            lemma_rewired_input_facts(t, t[k].inputs[j]);
        }
    }
}

/// After the bypass, no GPU node reads a device -> host -> device round trip:
/// each reads the device value itself.
pub proof fn lemma_bypass_leaves_no_round_trip_read(g: GraphView)
    ensures
        forall|k: int, j: int|
            0 <= k < rewire_spec(g).nodes.len() && rewire_spec(g).nodes[k].op is Gpu && 0 <= j
                < rewire_spec(g).nodes[k].inputs.len() ==> !round_trip(
                rewire_spec(g).nodes,
                #[trigger] rewire_spec(g).nodes[k].inputs[j],
            ),
{
    let t2 = rewire_spec(g).nodes;
    assert forall|k: int, j: int|
        0 <= k < t2.len() && t2[k].op is Gpu && 0 <= j < t2[k].inputs.len() implies !round_trip(t2, #[trigger] t2[k].inputs[j]) by {
        let o = g.nodes[k].inputs[j];
        lemma_rewired_input_facts(g.nodes, o);
        lemma_rewire_keeps_round_trips(g, rewired_input(g.nodes, o));
    }
}

} // verus!
