use tract_exec::datum::DatumType;
use tract_exec::error::CoreError;
use tract_exec::fact::Fact;
use tract_exec::gemm_op::{Cost, GemmImpl, GemmKernel, MetalGemm, MetalGemmImplKind, MlxGemm, MpsMatMul, TensorDesc};

fn t(dt: DatumType, shape: &[usize], offset: usize) -> TensorDesc {
    TensorDesc { dt, shape: shape.to_vec(), offset }
}

#[test]
fn output_shape_broadcasts_and_transposes() {
    let g = GemmImpl::<MlxGemm>::new(false, false);
    assert_eq!(g.output_shape(&vec![1, 3, 2, 5], &vec![4, 3, 5, 7]), vec![4, 3, 2, 7]);
    let g = GemmImpl::<MlxGemm>::new(true, true);
    assert_eq!(g.output_shape(&vec![5, 2], &vec![7, 5]), vec![2, 7]);
}

#[test]
fn output_types() {
    let g = GemmImpl::<MpsMatMul>::new(false, false);
    assert_eq!(g.matmul.output_dt(DatumType::F16, DatumType::F16), Ok(DatumType::F16));
    assert_eq!(g.matmul.output_dt(DatumType::F32, DatumType::F32), Ok(DatumType::F32));
    assert_eq!(g.matmul.output_dt(DatumType::F16, DatumType::F32), Err(CoreError::UnsupportedDatumType(DatumType::F32)));
    assert_eq!(g.matmul.output_dt(DatumType::I8, DatumType::F32), Err(CoreError::UnsupportedDatumType(DatumType::I8)));
    assert_eq!(g.matmul.is_supported_dts(&[DatumType::F16, DatumType::F16]), Ok(true));
    assert_eq!(g.matmul.is_supported_dts(&[DatumType::F16, DatumType::F32]), Ok(false));
    assert_eq!(g.matmul.is_supported_dts(&[DatumType::F16]), Err(CoreError::InvalidShape));
}

#[test]
fn eval_plans_dispatches() {
    let g = GemmImpl::<MlxGemm>::new(false, false);
    let (c, ds) = g.eval(&t(DatumType::F32, &[10, 2, 3], 0), &t(DatumType::F32, &[1, 3, 4], 64)).unwrap();
    assert_eq!(c.shape, vec![10, 2, 4]);
    assert_eq!(c.dt, DatumType::F32);
    assert_eq!(ds.len(), 1);
    assert_eq!((ds[0].m, ds[0].b_offset), (20, 64));
}

#[test]
fn empty_output_issues_no_dispatch() {
    let g = GemmImpl::<MlxGemm>::new(false, false);
    let a = t(DatumType::F32, &[3, 0, 4], 0);
    let b = t(DatumType::F32, &[3, 4, 5], 0);
    assert_eq!(g.dispatch_eval(&a, &b, &t(DatumType::F32, &[3, 0, 5], 0)), Ok(vec![]));
    assert_eq!(g.dispatch_eval(&a, &b, &t(DatumType::F32, &[3, 1, 5], 0)), Err(CoreError::InvalidShape));
}

#[test]
fn resolve_and_cost() {
    let op = MetalGemm::<MlxGemm>::new(false, true);
    let a = Fact::new(DatumType::F16, vec![2, 8, 16]);
    let b = Fact::new(DatumType::F16, vec![2, 4, 16]);
    let facts = op.resolve_output_facts(&vec![a.duplicate(), b.duplicate()]).unwrap();
    assert_eq!((facts[0].dt, facts[0].shape.clone()), (DatumType::F16, vec![2, 8, 4]));
    assert_eq!(op.cost(&vec![a.duplicate(), b.duplicate()]), Ok((Cost::FMA(DatumType::F16), 2 * 8 * 4 * 16)));
    let bad = Fact::new(DatumType::F16, vec![2, 4, 15]);
    assert_eq!(op.resolve_output_facts(&vec![a.duplicate(), bad]).err(), Some(CoreError::InvalidShape));
    let mut ga = a.duplicate();
    ga.on_gpu = true;
    let gpu = op.output_facts(&vec![ga, b.duplicate()]).unwrap();
    assert!(gpu[0].on_gpu);
    assert_eq!(op.metal_eval(&t(DatumType::F16, &[8, 16], 0), &t(DatumType::F16, &[4, 16], 0)).unwrap().0.shape, vec![8, 4]);
}

#[test]
fn block_quantized_operand_contributes_its_payload_shape() {
    let op = MetalGemm::<MlxGemm>::new(false, true);
    let mut a = Fact::new(DatumType::Opaque, vec![]);
    a.opaque_shape = Some(vec![8, 16]);
    let b = Fact::new(DatumType::F32, vec![4, 16]);
    assert_eq!(op.resolve_output_facts(&vec![a, b]).err(), Some(CoreError::UnsupportedDatumType(DatumType::Opaque)));
}

#[test]
fn kernel_kinds() {
    assert_eq!(MetalGemmImplKind::default(), MetalGemmImplKind::Mlx);
    assert_eq!(MetalGemmImplKind::variants(), vec![MetalGemmImplKind::Mlx, MetalGemmImplKind::Mfa, MetalGemmImplKind::Mps]);
    assert_eq!(MetalGemmImplKind::variants_str(), vec!["mlx", "mfa", "mps"]);
    assert_eq!(MetalGemmImplKind::Mps.to_str(), "mps");
}
