use tract_exec::datum::DatumType;
use tract_exec::error::CoreError;
use tract_exec::kernel_selection::{
    wire_linear, wire_packing, EinSumAnnotatedAsMatMul, KitDatumType, KitItem, MMMKit, MatMatMulKer,
    ModePicker, Operands, PackedFormat, PackingFormat, Registry,
};
use tract_exec::registry::{
    register_all_by_scalar, register_all_reducer, register_all_unicast, BinOp, LinalgRegistry,
};

fn packed(dt: DatumType, r: usize) -> PackingFormat {
    PackingFormat::Packed(PackedFormat { dt, r, alignment_bytes: 16 })
}

fn registry(has_fp16: bool) -> Registry {
    let generic = MatMatMulKer {
        name: "generic_f32_4x4",
        mr: 4,
        nr: 4,
        internal_dt: DatumType::F32,
        packings: vec![(packed(DatumType::F32, 4), packed(DatumType::F32, 4)), (packed(DatumType::F16, 4), packed(DatumType::F16, 4))],
        platform_ok: true,
        generic_fallback: true,
    };
    let fast = MatMatMulKer {
        name: "fma_f32_16x6",
        mr: 16,
        nr: 6,
        internal_dt: DatumType::F32,
        packings: vec![(packed(DatumType::F32, 16), packed(DatumType::F32, 6))],
        platform_ok: true,
        generic_fallback: false,
    };
    let unavailable = MatMatMulKer {
        name: "neon_i32_8x8",
        mr: 8,
        nr: 8,
        internal_dt: DatumType::I32,
        packings: vec![(packed(DatumType::I8, 8), packed(DatumType::I8, 8))],
        platform_ok: false,
        generic_fallback: false,
    };
    let q40 = PackingFormat::BlockQuant { block_len: 32, r: 16 };
    let kit = |generic_fallback: bool, mv: usize, sq: usize| MMMKit {
        static_packer: q40,
        accumulator: KitDatumType::F32,
        activation: KitDatumType::F32,
        generic_fallback,
        mv: KitItem { kernel: mv, packing: 0, weight_panel_extractor: None },
        squarish: KitItem { kernel: sq, packing: 0, weight_panel_extractor: None },
    };
    Registry { kernels: vec![generic, fast, unavailable], kits: vec![kit(true, 0, 0), kit(false, 0, 1)], has_fp16 }
}

fn op(dt: DatumType, n: Option<usize>) -> EinSumAnnotatedAsMatMul {
    EinSumAnnotatedAsMatMul { operating_dt: dt, m: Some(8), k: Some(32), n, a_k: 1, a_m: 0, b_k: 0, b_n: 1 }
}

#[test]
fn simple_path_prefers_specialised_kernel() {
    let reg = registry(false);
    let w = wire_packing(&reg, &op(DatumType::F32, Some(5)), &Operands { a_dt: DatumType::F32, b_dt: DatumType::F32, a_prepacked: None }).unwrap();
    assert_eq!(w.impls, vec![(1, 0, None)]);
    assert_eq!(w.mode_picker, ModePicker::Single);
    let pa = w.pack_a.unwrap();
    assert_eq!((pa.k_axis, pa.mn_axis), (1, 0));
    assert_eq!(pa.packers, vec![PackedFormat { dt: DatumType::F32, r: 16, alignment_bytes: 16 }]);
    assert_eq!((w.pack_b.k_axis, w.pack_b.mn_axis), (0, 1));
    assert_eq!(w.pack_b.packers, vec![PackedFormat { dt: DatumType::F32, r: 6, alignment_bytes: 16 }]);
}

#[test]
fn search_goes_on_to_a_kernel_with_a_matching_packing() {
    let reg = registry(false);
    // the specialised f32 kernel has no f16 packing; the fallback has one
    let w = wire_packing(&reg, &op(DatumType::F32, Some(5)), &Operands { a_dt: DatumType::F16, b_dt: DatumType::F16, a_prepacked: None }).unwrap();
    assert_eq!(w.impls, vec![(0, 1, None)]);
    assert_eq!(w.pack_b.packers, vec![PackedFormat { dt: DatumType::F16, r: 4, alignment_bytes: 16 }]);
}

#[test]
fn missing_packing_reports_kernel_and_types() {
    let reg = registry(false);
    let r = wire_packing(&reg, &op(DatumType::F32, Some(5)), &Operands { a_dt: DatumType::I8, b_dt: DatumType::I8, a_prepacked: None });
    assert_eq!(r, Err(CoreError::KernelNotFound { kernel: "fma_f32_16x6", a_dt: DatumType::I8, b_dt: DatumType::I8 }));
}

#[test]
fn no_kernel_for_operating_type() {
    let reg = registry(false);
    // the only i32 kernel fails its platform probe
    let r = wire_packing(&reg, &op(DatumType::I32, Some(5)), &Operands { a_dt: DatumType::QI8, b_dt: DatumType::I8, a_prepacked: None });
    assert_eq!(r, Err(CoreError::KernelNotFound { kernel: "", a_dt: DatumType::QI8, b_dt: DatumType::I8 }));
}

#[test]
fn constant_weights_take_the_kit_path() {
    let reg = registry(false);
    let q40 = PackingFormat::BlockQuant { block_len: 32, r: 16 };
    let w = wire_packing(&reg, &op(DatumType::F32, None), &Operands { a_dt: DatumType::Opaque, b_dt: DatumType::F32, a_prepacked: Some(q40) }).unwrap();
    assert!(w.pack_a.is_none());
    assert_eq!(w.mode_picker, ModePicker::VecVsMat);
    assert_eq!(w.pack_b.mode_picker, ModePicker::VecVsMat);
    // the specialised kit wins over the fallback
    assert_eq!(w.impls, vec![(0, 0, None), (1, 0, None)]);
    assert_eq!(w.pack_b.packers[1].r, 6);
    assert_eq!(ModePicker::VecVsMat.pick(1), 0);
    assert_eq!(ModePicker::VecVsMat.pick(7), 1);
    assert_eq!(ModePicker::Single.pick(1), 0);
}

#[test]
fn constant_weights_with_known_n_take_the_simple_path() {
    let reg = registry(false);
    let q40 = PackingFormat::BlockQuant { block_len: 32, r: 16 };
    let w = wire_packing(&reg, &op(DatumType::F32, Some(3)), &Operands { a_dt: DatumType::F32, b_dt: DatumType::F32, a_prepacked: Some(q40) }).unwrap();
    assert!(w.pack_a.is_some());
}

#[test]
fn kit_errors() {
    let reg = registry(true);
    let q40 = PackingFormat::BlockQuant { block_len: 32, r: 16 };
    // f16 operands on an f16 platform with f32 activations accumulate in f32
    assert!(wire_linear(&reg, &op(DatumType::F16, None), q40, DatumType::F32).is_ok());
    // with f16 activations the accumulator is f16, and no kit has it
    assert_eq!(
        wire_linear(&reg, &op(DatumType::F16, None), q40, DatumType::F16),
        Err(CoreError::NoKitFound { packed: q40, accumulator: KitDatumType::F16, activation: KitDatumType::F16 })
    );
    assert_eq!(
        wire_linear(&reg, &op(DatumType::F32, None), q40, DatumType::I8),
        Err(CoreError::UnsupportedDatumType(DatumType::I8))
    );
    let other = PackingFormat::BlockQuant { block_len: 64, r: 16 };
    assert_eq!(
        wire_linear(&reg, &op(DatumType::F32, None), other, DatumType::F32),
        Err(CoreError::NoKitFound { packed: other, accumulator: KitDatumType::F32, activation: KitDatumType::F32 })
    );
    // without f16 support the accumulator falls back to f32 and a kit is found
    let reg = registry(false);
    assert!(wire_linear(&reg, &op(DatumType::F16, None), q40, DatumType::F32).is_ok());
}

#[test]
fn element_wise_registries() {
    let mut reg = LinalgRegistry::new();
    register_all_unicast(&mut reg);
    assert_eq!(reg.entries.len(), 12);
    assert_eq!(reg.lookup((BinOp::SubF, DatumType::F16)).unwrap().name, "HUnicastSubF8");
    assert_eq!(reg.lookup((BinOp::Mul, DatumType::F32)).unwrap().nr, 4);
    register_all_by_scalar(&mut reg);
    assert_eq!(reg.lookup((BinOp::Mul, DatumType::F32)).unwrap().name, "SMulByScalar4");
    assert!(reg.lookup((BinOp::Mul, DatumType::I32)).is_none());
    let mut red = LinalgRegistry::new();
    register_all_reducer(&mut red);
    assert_eq!(red.lookup((BinOp::Add, DatumType::F16)).unwrap().name, "HSum8");
    assert!(red.lookup((BinOp::Min, DatumType::F32)).is_none());
}

#[test]
fn f16_accumulator_is_never_paired_with_f32_activations() {
    let mut reg = registry(true);
    let q40 = PackingFormat::BlockQuant { block_len: 32, r: 16 };
    // the only kit accumulates in f16 over f32 activations
    reg.kits = vec![MMMKit {
        static_packer: q40,
        accumulator: KitDatumType::F16,
        activation: KitDatumType::F32,
        generic_fallback: false,
        mv: KitItem { kernel: 0, packing: 0, weight_panel_extractor: None },
        squarish: KitItem { kernel: 0, packing: 0, weight_panel_extractor: None },
    }];
    assert_eq!(
        wire_linear(&reg, &op(DatumType::F16, None), q40, DatumType::F32),
        Err(CoreError::NoKitFound { packed: q40, accumulator: KitDatumType::F32, activation: KitDatumType::F32 })
    );
}
