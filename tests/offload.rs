use tract_exec::datum::DatumType;
use tract_exec::error::CoreError;
use tract_exec::fact::Fact;
use tract_exec::gemm_op::MetalGemmImplKind;
use tract_exec::graph::{BinKind, CompKind, ElementWiseKind, GpuBinOp, GpuOp, Graph, Node, Op, SyncKind};
use tract_exec::transform::{bin_ops_to_metal, can_translate_op_to_metal_op, rewire_metal_sync, MetalTransform};

fn fact(dt: DatumType, shape: &[usize]) -> Fact {
    Fact::new(dt, shape.to_vec())
}

fn node(op: Op, inputs: &[usize], f: Fact) -> Node {
    Node { op, inputs: inputs.to_vec(), fact: f }
}

fn same_graph(a: &Graph, b: &Graph) -> bool {
    a.outputs == b.outputs
        && a.nodes.len() == b.nodes.len()
        && a.nodes.iter().zip(b.nodes.iter()).all(|(x, y)| {
            x.op == y.op
                && x.inputs == y.inputs
                && x.fact.dt == y.fact.dt
                && x.fact.shape == y.fact.shape
                && x.fact.on_gpu == y.fact.on_gpu
                && x.fact.konst == y.fact.konst
        })
}

/// input -> exp -> sign (host only) -> add(., input) -> output
fn mixed_graph() -> Graph {
    let f = || fact(DatumType::F32, &[2, 3]);
    Graph {
        nodes: vec![
            node(Op::Source, &[], f()),
            node(Op::ElementWise(ElementWiseKind::Exp), &[0], f()),
            node(Op::ElementWise(ElementWiseKind::Sign), &[1], f()),
            node(Op::Bin(BinKind::Add), &[2, 0], f()),
        ],
        outputs: vec![3],
    }
}

#[test]
fn eligible_nodes_move_to_gpu_with_transfers() {
    let t = MetalTransform::default();
    let g = t.translate_model(&mixed_graph()).unwrap();
    let ops: Vec<Op> = g.nodes.iter().map(|n| n.op).collect();
    assert_eq!(
        ops,
        vec![
            Op::Source,
            Op::Sync(SyncKind::ToGpu),
            Op::Gpu(GpuOp::ElementWise(ElementWiseKind::Exp)),
            Op::Sync(SyncKind::ToCpu),
            Op::ElementWise(ElementWiseKind::Sign),
            Op::Sync(SyncKind::ToGpu),
            Op::Sync(SyncKind::ToGpu),
            Op::Gpu(GpuOp::Bin(GpuBinOp::Add)),
            Op::Sync(SyncKind::ToCpu),
        ]
    );
    assert_eq!(g.outputs, vec![8]);
    assert!(g.nodes[7].fact.on_gpu);
    assert!(!g.nodes[8].fact.on_gpu);
    assert_eq!(g.nodes[7].inputs, vec![5, 6]);
}

#[test]
fn translating_twice_changes_nothing() {
    let t = MetalTransform::default();
    let once = t.translate_model(&mixed_graph()).unwrap();
    let twice = t.translate_model(&once).unwrap();
    assert!(same_graph(&once, &twice));
}

#[test]
fn transform_up_to_phase_stops_early() {
    let t = MetalTransform { gemm_impl: MetalGemmImplKind::Mps };
    let mut g = mixed_graph();
    t.transform_up_to_phase(&mut g, 1).unwrap();
    assert!(same_graph(&g, &mixed_graph()));
    t.transform_up_to_phase(&mut g, 2).unwrap();
    assert_eq!(g.nodes.len(), 9);
    assert_eq!(t.name(), "metal-transform");
}

#[test]
fn unsupported_types_stay_on_host() {
    let t = MetalTransform::default();
    let g = Graph {
        nodes: vec![
            node(Op::Source, &[], fact(DatumType::F64, &[4])),
            node(Op::ElementWise(ElementWiseKind::Abs), &[0], fact(DatumType::F64, &[4])),
        ],
        outputs: vec![1],
    };
    assert!(!can_translate_op_to_metal_op(&g, 1, MetalGemmImplKind::Mlx));
    let out = t.translate_model(&g).unwrap();
    assert!(same_graph(&out, &g));
}

#[test]
fn softmax_needs_float_inputs() {
    let g = Graph {
        nodes: vec![
            node(Op::Source, &[], fact(DatumType::I32, &[4])),
            node(Op::Softmax, &[0], fact(DatumType::I32, &[4])),
            node(Op::Source, &[], fact(DatumType::F16, &[4])),
            node(Op::Softmax, &[2], fact(DatumType::F16, &[4])),
        ],
        outputs: vec![1, 3],
    };
    assert!(!can_translate_op_to_metal_op(&g, 1, MetalGemmImplKind::Mlx));
    assert!(can_translate_op_to_metal_op(&g, 3, MetalGemmImplKind::Mlx));
}

#[test]
fn matmul_translates_to_gemm_and_casts_to_expected_type() {
    let t = MetalTransform { gemm_impl: MetalGemmImplKind::Mfa };
    let mm = Op::MatMul { transpose_a: false, transpose_b: false, transpose_c: false, quantize_output: false };
    let g = Graph {
        nodes: vec![
            node(Op::Source, &[], fact(DatumType::F16, &[2, 3])),
            node(Op::Source, &[], fact(DatumType::F16, &[3, 4])),
            node(mm, &[0, 1], fact(DatumType::F32, &[2, 4])),
        ],
        outputs: vec![2],
    };
    let out = t.translate_model(&g).unwrap();
    let ops: Vec<Op> = out.nodes.iter().map(|n| n.op).collect();
    assert_eq!(
        ops,
        vec![
            Op::Source,
            Op::Source,
            Op::Sync(SyncKind::ToGpu),
            Op::Sync(SyncKind::ToGpu),
            Op::Gpu(GpuOp::Gemm { kind: MetalGemmImplKind::Mfa, transpose_a: false, transpose_b: false }),
            Op::Gpu(GpuOp::Cast(DatumType::F32)),
            Op::Sync(SyncKind::ToCpu),
        ]
    );
    assert_eq!(out.nodes[4].fact.dt, DatumType::F16);
    assert_eq!(out.nodes[5].fact.dt, DatumType::F32);
}

#[test]
fn transposed_output_matmul_stays_on_host() {
    let mm = Op::MatMul { transpose_a: false, transpose_b: false, transpose_c: true, quantize_output: false };
    let g = Graph {
        nodes: vec![
            node(Op::Source, &[], fact(DatumType::F32, &[2, 3])),
            node(Op::Source, &[], fact(DatumType::F32, &[3, 4])),
            node(mm, &[0, 1], fact(DatumType::F32, &[4, 2])),
        ],
        outputs: vec![2],
    };
    assert!(!can_translate_op_to_metal_op(&g, 2, MetalGemmImplKind::Mlx));
}

#[test]
fn matmul_of_mixed_types_is_refused() {
    let t = MetalTransform::default();
    let mm = Op::MatMul { transpose_a: false, transpose_b: false, transpose_c: false, quantize_output: false };
    let g = Graph {
        nodes: vec![
            node(Op::Source, &[], fact(DatumType::F16, &[2, 3])),
            node(Op::Source, &[], fact(DatumType::F32, &[3, 4])),
            node(mm, &[0, 1], fact(DatumType::F32, &[2, 4])),
        ],
        outputs: vec![2],
    };
    assert_eq!(t.translate_model(&g).err(), Some(CoreError::UnsupportedDatumType(DatumType::F32)));
}

#[test]
fn host_constants_go_to_gpu_as_device_constants() {
    let t = MetalTransform::default();
    let mut c = fact(DatumType::F32, &[3]);
    c.konst = true;
    let g = Graph {
        nodes: vec![
            node(Op::Other, &[], c),
            node(Op::ElementWise(ElementWiseKind::Neg), &[0], fact(DatumType::F32, &[3])),
        ],
        outputs: vec![1],
    };
    let out = t.translate_model(&g).unwrap();
    // a device copy made at build time, not a run-time transfer
    assert_eq!(out.nodes[0].op, Op::Other);
    assert!(!out.nodes[0].fact.on_gpu);
    assert_eq!(out.nodes[1].op, Op::Gpu(GpuOp::Const));
    assert!(out.nodes[1].inputs.is_empty());
    assert!(out.nodes[1].fact.on_gpu && out.nodes[1].fact.konst);
    assert_eq!(out.nodes[2].inputs, vec![1]);
    assert_eq!(out.nodes.iter().filter(|n| n.op == Op::Sync(SyncKind::ToGpu)).count(), 0);
}

/// constant from a non-constant node, read by a host node, then by a GPU node
fn shared_constant_graph(outputs: Vec<usize>) -> Graph {
    let mut c = fact(DatumType::F32, &[3]);
    c.konst = true;
    Graph {
        nodes: vec![
            node(Op::Other, &[], c),
            node(Op::ElementWise(ElementWiseKind::Sign), &[0], fact(DatumType::F32, &[3])),
            node(Op::ElementWise(ElementWiseKind::Abs), &[0], fact(DatumType::F32, &[3])),
        ],
        outputs,
    }
}

#[test]
fn host_readers_of_a_shared_constant_keep_a_host_value() {
    let t = MetalTransform::default();
    let mut g = shared_constant_graph(vec![1, 2]);
    t.transform_up_to_phase(&mut g, 2).unwrap();
    for n in &g.nodes {
        if !matches!(n.op, Op::Gpu(_) | Op::Sync(_)) {
            for &i in &n.inputs {
                assert!(!g.nodes[i].fact.on_gpu);
            }
        }
    }
    for &o in &g.outputs {
        assert!(!g.nodes[o].fact.on_gpu);
    }
}

#[test]
fn shared_constant_as_model_output_stays_on_host() {
    let t = MetalTransform::default();
    let mut g = shared_constant_graph(vec![0]);
    t.transform_up_to_phase(&mut g, usize::MAX).unwrap();
    assert_eq!(g.outputs.len(), 1);
    assert!(!g.nodes[g.outputs[0]].fact.on_gpu);
}

#[test]
fn shared_constant_graph_is_stable_under_a_second_run() {
    let t = MetalTransform::default();
    let mut once = shared_constant_graph(vec![1, 2]);
    t.transform(&mut once).unwrap();
    let mut twice = Graph { nodes: once.nodes.iter().map(|n| n.duplicate()).collect(), outputs: once.outputs.clone() };
    t.transform(&mut twice).unwrap();
    assert!(same_graph(&once, &twice));
}

#[test]
fn device_resident_backend_output_is_brought_to_host() {
    let t = MetalTransform::default();
    let mut gf = fact(DatumType::F32, &[2]);
    gf.on_gpu = true;
    let g = Graph {
        nodes: vec![node(Op::Gpu(GpuOp::Const), &[], gf)],
        outputs: vec![0],
    };
    let out = t.translate_model(&g).unwrap();
    assert_eq!(out.nodes.len(), 2);
    assert_eq!(out.nodes[1].op, Op::Sync(SyncKind::ToCpu));
    assert_eq!(out.outputs, vec![1]);
    assert!(!out.nodes[1].fact.on_gpu);
}

#[test]
fn round_trips_are_bypassed() {
    let t = MetalTransform::default();
    let f = || fact(DatumType::F32, &[2]);
    // exp is an output (synced to host) and also feeds a GPU node
    let g = Graph {
        nodes: vec![
            node(Op::Source, &[], f()),
            node(Op::ElementWise(ElementWiseKind::Exp), &[0], f()),
            node(Op::ElementWise(ElementWiseKind::Abs), &[1], f()),
        ],
        outputs: vec![1, 2],
    };
    let mut m = Graph { nodes: g.nodes.iter().map(|n| n.duplicate()).collect(), outputs: g.outputs.clone() };
    t.transform(&mut m).unwrap();
    // the GPU abs reads the GPU exp directly, not its round trip
    let abs = m.nodes.iter().position(|n| n.op == Op::Gpu(GpuOp::ElementWise(ElementWiseKind::Abs))).unwrap();
    let exp = m.nodes.iter().position(|n| n.op == Op::Gpu(GpuOp::ElementWise(ElementWiseKind::Exp))).unwrap();
    assert_eq!(m.nodes[abs].inputs, vec![exp]);
    let translated = t.translate_model(&g).unwrap();
    let rewired = rewire_metal_sync(&translated);
    assert!(same_graph(&rewired, &m));
}

#[test]
fn comparisons_and_binary_ops_map_to_gpu_ops() {
    let f = || fact(DatumType::F32, &[2]);
    let g = Graph {
        nodes: vec![
            node(Op::Source, &[], f()),
            node(Op::Comp(CompKind::LTE), &[0, 0], fact(DatumType::Bool, &[2])),
            node(Op::Bin(BinKind::Pow), &[0, 0], f()),
            node(Op::Bin(BinKind::Rem), &[0, 0], f()),
        ],
        outputs: vec![1, 2, 3],
    };
    let out = MetalTransform::default().translate_model(&g).unwrap();
    assert!(out.nodes.iter().any(|n| n.op == Op::Gpu(GpuOp::Bin(GpuBinOp::LessEqual))));
    assert!(out.nodes.iter().any(|n| n.op == Op::Gpu(GpuOp::Bin(GpuBinOp::Pow))));
    assert!(out.nodes.iter().any(|n| n.op == Op::Bin(BinKind::Rem)));
    let rewritten = bin_ops_to_metal(&g, 2).unwrap();
    assert_eq!(rewritten.op, Op::Gpu(GpuOp::Bin(GpuBinOp::Pow)));
    assert!(bin_ops_to_metal(&g, 3).is_none());
    assert!(bin_ops_to_metal(&g, 1).is_none());
}

#[test]
fn planner_twice_changes_nothing() {
    let t = MetalTransform::default();
    let f = || fact(DatumType::F32, &[2]);
    let g = Graph {
        nodes: vec![
            node(Op::Source, &[], f()),
            node(Op::ElementWise(ElementWiseKind::Exp), &[0], f()),
            node(Op::ElementWise(ElementWiseKind::Sign), &[1], f()),
            node(Op::ElementWise(ElementWiseKind::Abs), &[1], f()),
            node(Op::Bin(BinKind::Mul), &[2, 3], f()),
        ],
        outputs: vec![1, 4],
    };
    let mut once = Graph { nodes: g.nodes.iter().map(|n| n.duplicate()).collect(), outputs: g.outputs.clone() };
    t.transform(&mut once).unwrap();
    let mut twice = Graph { nodes: once.nodes.iter().map(|n| n.duplicate()).collect(), outputs: once.outputs.clone() };
    t.transform(&mut twice).unwrap();
    assert!(same_graph(&once, &twice));
    let syncs = once.nodes.iter().filter(|n| matches!(n.op, Op::Sync(_))).count();
    let syncs_twice = twice.nodes.iter().filter(|n| matches!(n.op, Op::Sync(_))).count();
    assert_eq!(syncs, syncs_twice);
}
