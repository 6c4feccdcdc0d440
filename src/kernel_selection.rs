//! Kernel registry and format negotiation: which matrix-multiply kernel runs
//! a product, with which packing of its operands, and how the operands are
//! packed before the call.
use vstd::prelude::*;

use crate::datum::{is_integer_spec, unquantized_spec, DatumType};
use crate::error::CoreError;
use crate::fused::dot;
use crate::pack::{
    lemma_pack_round_trip, lemma_packed_product_matches_reference, logical_rows, pack_spec, panel,
    reference_dot, unpack_spec,
};

verus! {

/// A tiled, aligned physical layout for one operand: element type, panel
/// width (the kernel's micro-tile size on that side) and byte alignment.
#[derive(Debug, Clone, Copy, PartialEq, Eq, Hash, Structural)]
pub struct PackedFormat {
    pub dt: DatumType,
    pub r: usize,
    pub alignment_bytes: usize,
}

/// The closed set of operand formats a kernel can consume.
#[derive(Debug, Clone, Copy, PartialEq, Eq, Hash, Structural)]
pub enum PackingFormat {
    /// Plain tiled panels.
    Packed(PackedFormat),
    /// Block-quantized weights, `block_len` elements per block, in panels of
    /// `r` rows.
    BlockQuant { block_len: usize, r: usize },
}

/// Accumulator and activation types of kits.
#[derive(Debug, Clone, Copy, PartialEq, Eq, Hash, Structural)]
pub enum KitDatumType {
    I32,
    F16,
    F32,
}

/// Extracts plain panels from a pre-packed weight panel of another format.
#[derive(Debug, Clone, Copy, PartialEq, Eq, Hash, Structural)]
pub struct PanelExtractor {
    pub from: PackingFormat,
    pub to: PackedFormat,
}

/// A registered matrix-multiply kernel.
#[derive(Debug, Clone)]
pub struct MatMatMulKer {
    pub name: &'static str,
    pub mr: usize,
    pub nr: usize,
    /// The accumulation type the kernel computes in.
    pub internal_dt: DatumType,
    /// (A format, B format) pairs the kernel consumes.
    pub packings: Vec<(PackingFormat, PackingFormat)>,
    /// Outcome of the platform capability probe, made once at start-up.
    pub platform_ok: bool,
    /// A portable fallback rather than a specialised implementation.
    pub generic_fallback: bool,
}

/// One configuration of a kit: a kernel, the index of one of its packings,
/// and how to extract panels from the kit's pre-packed weights.
#[derive(Debug, Clone, Copy, PartialEq, Eq, Structural)]
pub struct KitItem {
    pub kernel: usize,
    pub packing: usize,
    pub weight_panel_extractor: Option<PanelExtractor>,
}

/// Kernels sharing one pre-packed weight format: one tuned for
/// vector-by-matrix, one for near-square products.
#[derive(Debug, Clone, Copy, PartialEq, Eq, Structural)]
pub struct MMMKit {
    pub static_packer: PackingFormat,
    pub accumulator: KitDatumType,
    pub activation: KitDatumType,
    pub generic_fallback: bool,
    pub mv: KitItem,
    pub squarish: KitItem,
}

/// The catalogue of kernels and kits, built once and read thereafter.
#[derive(Debug)]
pub struct Registry {
    pub kernels: Vec<MatMatMulKer>,
    pub kits: Vec<MMMKit>,
    /// Whether the platform computes in f16.
    pub has_fp16: bool,
}

pub open spec fn item_ok(reg: &Registry, item: KitItem) -> bool {
    &&& item.kernel < reg.kernels@.len()
    &&& item.packing < reg.kernels@[item.kernel as int].packings@.len()
    &&& reg.kernels@[item.kernel as int].packings@[item.packing as int].1 is Packed
}

pub open spec fn format_ok(f: PackingFormat) -> bool {
    match f {
        PackingFormat::Packed(p) => p.r > 0,
        PackingFormat::BlockQuant { block_len, r } => block_len > 0 && r > 0,
    }
}

pub open spec fn panels_ok(p: (PackingFormat, PackingFormat)) -> bool {
    format_ok(p.0) && format_ok(p.1)
}

impl Registry {
    /// Every kit names existing kernels and packings, with plain panels on
    /// B's side, and every panel format has a positive width.
    pub open spec fn wf(&self) -> bool {
        &&& forall|i: int| 0 <= i < self.kits@.len() ==> item_ok(self, #[trigger] self.kits@[i].mv)
            && item_ok(self, self.kits@[i].squarish)
        &&& forall|k: int, p: int|
            0 <= k < self.kernels@.len() && 0 <= p < self.kernels@[k].packings@.len() ==> panels_ok(
                #[trigger] self.kernels@[k].packings@[p],
            )
    }
}

/// How the packed B operand is chosen at run time.
#[derive(Debug, Clone, Copy, PartialEq, Eq, Hash, Structural)]
pub enum ModePicker {
    /// Always the single resolved kernel.
    Single,
    /// The vector-tuned kernel when N is 1, the matrix-tuned one otherwise.
    VecVsMat,
}

pub open spec fn pick_spec(mode: ModePicker, n: usize) -> usize {
    match mode {
        ModePicker::Single => 0,
        ModePicker::VecVsMat => if n == 1 {
            0
        } else {
            1
        },
    }
}

impl ModePicker {
    /// Index of the configuration to use for a product with `n` columns.
    pub fn pick(&self, n: usize) -> (r: usize)
        ensures
            r == pick_spec(*self, n),
    {
        match self {
            ModePicker::Single => 0,
            ModePicker::VecVsMat => {
                if n == 1 {
                    0
                } else {
                    1
                }
            },
        }
    }
}

/// A product annotated for kernel selection: operating type, sizes where
/// known (`None` for a size fixed only at run time), and which axes of A and
/// B are the contraction and free axes.
#[derive(Debug, Clone, Copy, PartialEq, Eq, Structural)]
pub struct EinSumAnnotatedAsMatMul {
    pub operating_dt: DatumType,
    pub m: Option<usize>,
    pub k: Option<usize>,
    pub n: Option<usize>,
    pub a_k: usize,
    pub a_m: usize,
    pub b_k: usize,
    pub b_n: usize,
}

/// A packing step to insert before the product: the operand's contraction
/// and free axes, the formats to pack into, and how one is chosen.
#[derive(Debug, Clone, PartialEq, Eq)]
pub struct OptMatMulPack {
    pub k_axis: usize,
    pub mn_axis: usize,
    pub packers: Vec<PackedFormat>,
    pub mode_picker: ModePicker,
}

/// One candidate implementation of the product: kernel index, packing index,
/// and the extractor for pre-packed weights if any.
pub type MatMulImpl = (usize, usize, Option<PanelExtractor>);

/// The operands as kernel selection sees them: element types, and for a
/// constant A already packed, the format it was packed with.
#[derive(Debug, Clone, Copy, PartialEq, Eq, Structural)]
pub struct Operands {
    pub a_dt: DatumType,
    pub b_dt: DatumType,
    pub a_prepacked: Option<PackingFormat>,
}

/// What kernel selection wires: the packing of A (none where A is a constant
/// already packed), the packing of B, the candidate implementations and the
/// mode picker.
#[derive(Debug, Clone, PartialEq, Eq)]
pub struct Wiring {
    pub pack_a: Option<OptMatMulPack>,
    pub pack_b: OptMatMulPack,
    pub impls: Vec<MatMulImpl>,
    pub mode_picker: ModePicker,
}

/// Accumulator for an operating type: a wide integer for integer operands;
/// f16 only where the operands are f16, the platform computes in f16 and the
/// activations are already f16; f32 otherwise, never a narrower one.
pub open spec fn accumulator_for(operating_dt: DatumType, has_fp16: bool, activation: KitDatumType) -> KitDatumType {
    if is_integer_spec(operating_dt) {
        KitDatumType::I32
    } else if operating_dt == DatumType::F16 && has_fp16 && activation == KitDatumType::F16 {
        KitDatumType::F16
    } else {
        KitDatumType::F32
    }
}

pub open spec fn activation_for(b_dt: DatumType) -> Option<KitDatumType> {
    if b_dt == DatumType::F16 {
        Some(KitDatumType::F16)
    } else if b_dt == DatumType::F32 {
        Some(KitDatumType::F32)
    } else {
        None
    }
}

pub open spec fn kit_matches(kit: MMMKit, packed: PackingFormat, acc: KitDatumType, act: KitDatumType) -> bool {
    kit.static_packer == packed && kit.accumulator == acc && kit.activation == act
}

/// First kit from `from` on that matches, among fallbacks (`generic`) or
/// specialised kits.
pub open spec fn first_kit(
    kits: Seq<MMMKit>,
    packed: PackingFormat,
    acc: KitDatumType,
    act: KitDatumType,
    generic: bool,
    from: int,
) -> Option<int>
    decreases kits.len() - from,
{
    if from < 0 || from >= kits.len() {
        None
    } else if kit_matches(kits[from], packed, acc, act) && kits[from].generic_fallback == generic {
        Some(from)
    } else {
        first_kit(kits, packed, acc, act, generic, from + 1)
    }
}

proof fn lemma_first_kit_in_range(
    kits: Seq<MMMKit>,
    packed: PackingFormat,
    acc: KitDatumType,
    act: KitDatumType,
    generic: bool,
    from: int,
)
    ensures
        first_kit(kits, packed, acc, act, generic, from) matches Some(i) ==> 0 <= from <= i < kits.len()
            && kit_matches(kits[i], packed, acc, act),
    decreases kits.len() - from,
{
    if 0 <= from < kits.len() {
        lemma_first_kit_in_range(kits, packed, acc, act, generic, from + 1);
    }
}

/// The kit chosen for pre-packed weights: the first matching specialised
/// kit, else the first matching fallback.
pub open spec fn chosen_kit(kits: Seq<MMMKit>, packed: PackingFormat, acc: KitDatumType, act: KitDatumType) -> Option<int> {
    match first_kit(kits, packed, acc, act, false, 0) {
        Some(i) => Some(i),
        None => first_kit(kits, packed, acc, act, true, 0),
    }
}

/// B's plain panel format of a kit configuration.
pub open spec fn b_format(reg: &Registry, item: KitItem) -> PackedFormat {
    reg.kernels@[item.kernel as int].packings@[item.packing as int].1->Packed_0
}

pub open spec fn impl_of(item: KitItem) -> MatMulImpl {
    (item.kernel, item.packing, item.weight_panel_extractor)
}

/// Whether `r` is the wiring of the constant-weights path through `kit`.
pub open spec fn linear_wiring(
    reg: &Registry,
    op: EinSumAnnotatedAsMatMul,
    kit: MMMKit,
    pack_b: OptMatMulPack,
    impls: Seq<MatMulImpl>,
    mode: ModePicker,
) -> bool {
    &&& pack_b.k_axis == op.b_k
    &&& pack_b.mn_axis == op.b_n
    &&& pack_b.packers@ == seq![b_format(reg, kit.mv), b_format(reg, kit.squarish)]
    &&& pack_b.mode_picker == ModePicker::VecVsMat
    &&& impls == seq![impl_of(kit.mv), impl_of(kit.squarish)]
    &&& mode == ModePicker::VecVsMat
}

fn find_kit(
    kits: &Vec<MMMKit>,
    packed: PackingFormat,
    acc: KitDatumType,
    act: KitDatumType,
    generic: bool,
) -> (r: Option<usize>)
    ensures
        match r {
            Some(i) => first_kit(kits@, packed, acc, act, generic, 0) == Some(i as int),
            None => first_kit(kits@, packed, acc, act, generic, 0) is None,
        },
{
    let mut i: usize = 0;
    while i < kits.len()
        invariant
            i <= kits@.len(),
            first_kit(kits@, packed, acc, act, generic, 0) == first_kit(kits@, packed, acc, act, generic, i as int),
        decreases kits@.len() - i,
    {
        let kit = kits[i];
        if kit.static_packer == packed && kit.accumulator == acc && kit.activation == act
            && kit.generic_fallback == generic {
            return Some(i);
        }
        i = i + 1;
    }
    None
}

/// Wires the constant-weights path: A is a constant already packed, so only
/// B is packed, in both of the chosen kit's formats, and the vector-tuned or
/// matrix-tuned kernel is picked per call from N.
pub fn wire_linear(reg: &Registry, op: &EinSumAnnotatedAsMatMul, a_packed: PackingFormat, b_dt: DatumType) -> (r:
    Result<(OptMatMulPack, Vec<MatMulImpl>, ModePicker), CoreError>)
    requires
        reg.wf(),
    ensures
        activation_for(b_dt) is None ==> r == Err::<(OptMatMulPack, Vec<MatMulImpl>, ModePicker), CoreError>(
            CoreError::UnsupportedDatumType(b_dt),
        ),
        activation_for(b_dt) matches Some(act) ==> match chosen_kit(
            reg.kits@,
            a_packed,
            accumulator_for(op.operating_dt, reg.has_fp16, act),
            act,
        ) {
            None => r == Err::<(OptMatMulPack, Vec<MatMulImpl>, ModePicker), CoreError>(
                CoreError::NoKitFound {
                    packed: a_packed,
                    accumulator: accumulator_for(op.operating_dt, reg.has_fp16, act),
                    activation: act,
                },
            ),
            Some(i) => r is Ok && linear_wiring(
                reg,
                *op,
                reg.kits@[i],
                r->Ok_0.0,
                r->Ok_0.1@,
                r->Ok_0.2,
            ),
        },
{
    let activation = if b_dt == DatumType::F16 {
        KitDatumType::F16
    } else if b_dt == DatumType::F32 {
        KitDatumType::F32
    } else {
        return Err(CoreError::UnsupportedDatumType(b_dt));
    };
    let accumulator = if op.operating_dt.is_integer() {
        KitDatumType::I32
    } else if op.operating_dt == DatumType::F16 && reg.has_fp16 && activation == KitDatumType::F16 {
        KitDatumType::F16
    } else {
        KitDatumType::F32
    };
    let no_kit = CoreError::NoKitFound { packed: a_packed, accumulator, activation };
    let chosen = match find_kit(&reg.kits, a_packed, accumulator, activation, false) {
        Some(i) => i,
        None => match find_kit(&reg.kits, a_packed, accumulator, activation, true) {
            Some(i) => i,
            None => return Err(no_kit),
        },
    };
    proof {
        lemma_first_kit_in_range(reg.kits@, a_packed, accumulator, activation, false, 0);
        lemma_first_kit_in_range(reg.kits@, a_packed, accumulator, activation, true, 0);
    }
    let kit = reg.kits[chosen];
    assert(item_ok(reg, kit.mv) && item_ok(reg, kit.squarish));
    let mv_b = match reg.kernels[kit.mv.kernel].packings[kit.mv.packing].1 {
        PackingFormat::Packed(f) => f,
        PackingFormat::BlockQuant { .. } => return Err(no_kit),
    };
    let sq_b = match reg.kernels[kit.squarish.kernel].packings[kit.squarish.packing].1 {
        PackingFormat::Packed(f) => f,
        PackingFormat::BlockQuant { .. } => return Err(no_kit),
    };
    let packers = vec![mv_b, sq_b];
    let impls = vec![
        (kit.mv.kernel, kit.mv.packing, kit.mv.weight_panel_extractor),
        (kit.squarish.kernel, kit.squarish.packing, kit.squarish.weight_panel_extractor),
    ];
    let pb = OptMatMulPack { k_axis: op.b_k, mn_axis: op.b_n, packers, mode_picker: ModePicker::VecVsMat };
    proof {
        assert(pb.packers@ =~= seq![b_format(reg, kit.mv), b_format(reg, kit.squarish)]);
        assert(impls@ =~= seq![impl_of(kit.mv), impl_of(kit.squarish)]);
    }
    Ok((pb, impls, ModePicker::VecVsMat))
}

/// First platform-capable kernel from `from` on that computes in `dt`, among
/// fallbacks (`generic`) or specialised kernels.
pub open spec fn first_kernel(kernels: Seq<MatMatMulKer>, dt: DatumType, generic: bool, from: int) -> Option<int>
    decreases kernels.len() - from,
{
    if from < 0 || from >= kernels.len() {
        None
    } else if kernels[from].platform_ok && kernels[from].internal_dt == dt
        && kernels[from].generic_fallback == generic {
        Some(from)
    } else {
        first_kernel(kernels, dt, generic, from + 1)
    }
}

/// The kernel for an operating type: specialised kernels before fallbacks.
pub open spec fn mmm_choice(kernels: Seq<MatMatMulKer>, dt: DatumType) -> Option<int> {
    match first_kernel(kernels, dt, false, 0) {
        Some(i) => Some(i),
        None => first_kernel(kernels, dt, true, 0),
    }
}

/// A packing pair of plain panels whose types are the operands' types,
/// quantized variants compared by their representation.
pub open spec fn packing_matches(p: (PackingFormat, PackingFormat), a_dt: DatumType, b_dt: DatumType) -> bool {
    &&& p.0 matches PackingFormat::Packed(pa) && pa.dt == unquantized_spec(a_dt)
    &&& p.1 matches PackingFormat::Packed(pb) && pb.dt == unquantized_spec(b_dt)
}

pub open spec fn first_packing(
    packings: Seq<(PackingFormat, PackingFormat)>,
    a_dt: DatumType,
    b_dt: DatumType,
    from: int,
) -> Option<int>
    decreases packings.len() - from,
{
    if from < 0 || from >= packings.len() {
        None
    } else if packing_matches(packings[from], a_dt, b_dt) {
        Some(from)
    } else {
        first_packing(packings, a_dt, b_dt, from + 1)
    }
}

proof fn lemma_first_kernel_in_range(kernels: Seq<MatMatMulKer>, dt: DatumType, generic: bool, from: int)
    ensures
        first_kernel(kernels, dt, generic, from) matches Some(i) ==> 0 <= from <= i < kernels.len(),
    decreases kernels.len() - from,
{
    if 0 <= from < kernels.len() {
        lemma_first_kernel_in_range(kernels, dt, generic, from + 1);
    }
}

fn find_kernel(kernels: &Vec<MatMatMulKer>, dt: DatumType, generic: bool) -> (r: Option<usize>)
    ensures
        match r {
            Some(i) => first_kernel(kernels@, dt, generic, 0) == Some(i as int),
            None => first_kernel(kernels@, dt, generic, 0) is None,
        },
{
    let mut i: usize = 0;
    while i < kernels.len()
        invariant
            i <= kernels@.len(),
            first_kernel(kernels@, dt, generic, 0) == first_kernel(kernels@, dt, generic, i as int),
        decreases kernels@.len() - i,
    {
        let k = &kernels[i];
        if k.platform_ok && k.internal_dt == dt && k.generic_fallback == generic {
            return Some(i);
        }
        i = i + 1;
    }
    None
}

/// Kernel `k` computes in `dt`, passes its platform probe, is a fallback or
/// not as `generic` says, and has a packing pair for the operand types.
pub open spec fn usable(ker: MatMatMulKer, dt: DatumType, a_dt: DatumType, b_dt: DatumType, generic: bool) -> bool {
    &&& ker.platform_ok
    &&& ker.internal_dt == dt
    &&& ker.generic_fallback == generic
    &&& first_packing(ker.packings@, a_dt, b_dt, 0) is Some
}

pub open spec fn first_usable(
    kernels: Seq<MatMatMulKer>,
    dt: DatumType,
    a_dt: DatumType,
    b_dt: DatumType,
    generic: bool,
    from: int,
) -> Option<int>
    decreases kernels.len() - from,
{
    if from < 0 || from >= kernels.len() {
        None
    } else if usable(kernels[from], dt, a_dt, b_dt, generic) {
        Some(from)
    } else {
        first_usable(kernels, dt, a_dt, b_dt, generic, from + 1)
    }
}

/// The kernel for a product: among all registered kernels that compute in
/// the operating type and pass their platform probe, the first with a
/// packing pair for the operand types, specialised kernels before fallbacks.
pub open spec fn kernel_choice(kernels: Seq<MatMatMulKer>, dt: DatumType, a_dt: DatumType, b_dt: DatumType) -> Option<int> {
    match first_usable(kernels, dt, a_dt, b_dt, false, 0) {
        Some(k) => Some(k),
        None => first_usable(kernels, dt, a_dt, b_dt, true, 0),
    }
}

/// The kernel a failed search names: the first candidate for the operating
/// type, or none.
pub open spec fn attempted_name(kernels: Seq<MatMatMulKer>, dt: DatumType) -> &'static str {
    match mmm_choice(kernels, dt) {
        Some(k) => kernels[k].name,
        None => "",
    }
}

proof fn lemma_first_usable_in_range(
    kernels: Seq<MatMatMulKer>,
    dt: DatumType,
    a_dt: DatumType,
    b_dt: DatumType,
    generic: bool,
    from: int,
)
    ensures
        first_usable(kernels, dt, a_dt, b_dt, generic, from) matches Some(i) ==> 0 <= from <= i
            < kernels.len() && usable(kernels[i], dt, a_dt, b_dt, generic),
    decreases kernels.len() - from,
{
    if 0 <= from < kernels.len() {
        lemma_first_usable_in_range(kernels, dt, a_dt, b_dt, generic, from + 1);
    }
}

proof fn lemma_first_packing_in_range(
    packings: Seq<(PackingFormat, PackingFormat)>,
    a_dt: DatumType,
    b_dt: DatumType,
    from: int,
)
    ensures
        first_packing(packings, a_dt, b_dt, from) matches Some(i) ==> 0 <= from <= i < packings.len(),
    decreases packings.len() - from,
{
    if 0 <= from < packings.len() {
        lemma_first_packing_in_range(packings, a_dt, b_dt, from + 1);
    }
}

fn find_usable(kernels: &Vec<MatMatMulKer>, dt: DatumType, a_dt: DatumType, b_dt: DatumType, generic: bool) -> (r:
    Option<(usize, usize, PackedFormat, PackedFormat)>)
    ensures
        match r {
            Some((k, p, pa, pb)) => first_usable(kernels@, dt, a_dt, b_dt, generic, 0) == Some(k as int)
                && k < kernels@.len() && first_packing(kernels@[k as int].packings@, a_dt, b_dt, 0) == Some(p as int)
                && kernels@[k as int].packings@[p as int] == (PackingFormat::Packed(pa), PackingFormat::Packed(pb)),
            None => first_usable(kernels@, dt, a_dt, b_dt, generic, 0) is None,
        },
{
    let mut i: usize = 0;
    while i < kernels.len()
        invariant
            i <= kernels@.len(),
            first_usable(kernels@, dt, a_dt, b_dt, generic, 0) == first_usable(kernels@, dt, a_dt, b_dt, generic, i as int),
        decreases kernels@.len() - i,
    {
        let k = &kernels[i];
        if k.platform_ok && k.internal_dt == dt && k.generic_fallback == generic {
            match find_packing(&k.packings, a_dt, b_dt) {
                Some((p, pa, pb)) => {
                    return Some((i, p, pa, pb));
                },
                None => {},
            }
        }
        i = i + 1;
    }
    None
}

fn find_packing(packings: &Vec<(PackingFormat, PackingFormat)>, a_dt: DatumType, b_dt: DatumType) -> (r: Option<
    (usize, PackedFormat, PackedFormat),
>)
    ensures
        match r {
            Some((i, pa, pb)) => first_packing(packings@, a_dt, b_dt, 0) == Some(i as int)
                && packings@[i as int] == (PackingFormat::Packed(pa), PackingFormat::Packed(pb)),
            None => first_packing(packings@, a_dt, b_dt, 0) is None,
        },
{
    let ua = a_dt.unquantized();
    let ub = b_dt.unquantized();
    let mut i: usize = 0;
    while i < packings.len()
        invariant
            i <= packings@.len(),
            ua == unquantized_spec(a_dt),
            ub == unquantized_spec(b_dt),
            first_packing(packings@, a_dt, b_dt, 0) == first_packing(packings@, a_dt, b_dt, i as int),
        decreases packings@.len() - i,
    {
        let p = packings[i];
        if let (PackingFormat::Packed(pa), PackingFormat::Packed(pb)) = p {
            if pa.dt == ua && pb.dt == ub {
                return Some((i, pa, pb));
            }
        }
        i = i + 1;
    }
    None
}

/// The simple path: both operands packed for the kernel of the operating
/// type, with its first packing pair whose types are the operands', and a
/// single mode.
pub open spec fn simple_wiring(reg: &Registry, op: EinSumAnnotatedAsMatMul, k: int, p: int, r: Wiring) -> bool {
    let ker = reg.kernels@[k];
    let pa = ker.packings@[p].0->Packed_0;
    let pb = ker.packings@[p].1->Packed_0;
    &&& r.pack_a matches Some(pack_a) && pack_a.k_axis == op.a_k && pack_a.mn_axis == op.a_m
        && pack_a.packers@ == seq![pa] && pack_a.mode_picker == ModePicker::Single
    &&& r.pack_b.k_axis == op.b_k && r.pack_b.mn_axis == op.b_n
    &&& r.pack_b.packers@ == seq![pb] && r.pack_b.mode_picker == ModePicker::Single
    &&& r.impls@ == seq![(k as usize, p as usize, None::<PanelExtractor>)]
    &&& r.mode_picker == ModePicker::Single
}

/// Every format the wiring packs into has a positive panel width, so the
/// operands can be packed into it.
pub open spec fn packers_ok(w: Wiring) -> bool {
    &&& forall|x: int| 0 <= x < w.pack_b.packers@.len() ==> (#[trigger] w.pack_b.packers@[x]).r > 0
    &&& w.pack_a matches Some(pa) ==> forall|x: int| 0 <= x < pa.packers@.len() ==> (#[trigger] pa.packers@[x]).r > 0
}

/// The constant-weights path applies: A is a constant already packed and N
/// is not known before run time.
pub open spec fn takes_linear_path(op: EinSumAnnotatedAsMatMul, operands: Operands) -> bool {
    operands.a_prepacked is Some && op.n is None
}

/// Selects the kernel for a product and wires the packing of its operands.
pub fn wire_packing(reg: &Registry, op: &EinSumAnnotatedAsMatMul, operands: &Operands) -> (r: Result<Wiring, CoreError>)
    requires
        reg.wf(),
    ensures
        takes_linear_path(*op, *operands) ==> {
            let packed = operands.a_prepacked->Some_0;
            match activation_for(operands.b_dt) {
                None => r == Err::<Wiring, CoreError>(CoreError::UnsupportedDatumType(operands.b_dt)),
                Some(act) => match chosen_kit(reg.kits@, packed, accumulator_for(op.operating_dt, reg.has_fp16, act), act) {
                    None => r == Err::<Wiring, CoreError>(
                        CoreError::NoKitFound {
                            packed,
                            accumulator: accumulator_for(op.operating_dt, reg.has_fp16, act),
                            activation: act,
                        },
                    ),
                    Some(i) => r is Ok && r->Ok_0.pack_a is None && linear_wiring(
                        reg,
                        *op,
                        reg.kits@[i],
                        r->Ok_0.pack_b,
                        r->Ok_0.impls@,
                        r->Ok_0.mode_picker,
                    ),
                },
            }
        },
        !takes_linear_path(*op, *operands) ==> match kernel_choice(reg.kernels@, op.operating_dt, operands.a_dt, operands.b_dt) {
            None => r == Err::<Wiring, CoreError>(
                CoreError::KernelNotFound {
                    kernel: attempted_name(reg.kernels@, op.operating_dt),
                    a_dt: operands.a_dt,
                    b_dt: operands.b_dt,
                },
            ),
            Some(k) => r is Ok && simple_wiring(
                reg,
                *op,
                k,
                first_packing(reg.kernels@[k].packings@, operands.a_dt, operands.b_dt, 0)->Some_0,
                r->Ok_0,
            ),
        },
        r matches Ok(w) ==> packers_ok(w),
{
    if let Some(packed) = operands.a_prepacked {
        if op.n.is_none() {
            let (pack_b, impls, mode_picker) = wire_linear(reg, op, packed, operands.b_dt)?;
            let w = Wiring { pack_a: None, pack_b, impls, mode_picker };
            proof {
                assert forall|x: int| 0 <= x < w.pack_b.packers@.len() implies (#[trigger] w.pack_b.packers@[x]).r > 0 by {
                    let i = chosen_kit(reg.kits@, packed, accumulator_for(op.operating_dt, reg.has_fp16, activation_for(operands.b_dt)->Some_0), activation_for(operands.b_dt)->Some_0)->Some_0;
                    lemma_first_kit_in_range(reg.kits@, packed, accumulator_for(op.operating_dt, reg.has_fp16, activation_for(operands.b_dt)->Some_0), activation_for(operands.b_dt)->Some_0, false, 0);
                    lemma_first_kit_in_range(reg.kits@, packed, accumulator_for(op.operating_dt, reg.has_fp16, activation_for(operands.b_dt)->Some_0), activation_for(operands.b_dt)->Some_0, true, 0);
                    let kit = reg.kits@[i];
                    assert(item_ok(reg, kit.mv) && item_ok(reg, kit.squarish));
                    assert(panels_ok(reg.kernels@[kit.mv.kernel as int].packings@[kit.mv.packing as int]));
                    assert(panels_ok(reg.kernels@[kit.squarish.kernel as int].packings@[kit.squarish.packing as int]));
                }
            }
            return Ok(w);
        }
    }
    // the "simple" kernel selection: specialised kernels first
    let found = match find_usable(&reg.kernels, op.operating_dt, operands.a_dt, operands.b_dt, false) {
        Some(f) => f,
        None => match find_usable(&reg.kernels, op.operating_dt, operands.a_dt, operands.b_dt, true) {
            Some(f) => f,
            None => {
                proof {
                    lemma_first_kernel_in_range(reg.kernels@, op.operating_dt, false, 0);
                    lemma_first_kernel_in_range(reg.kernels@, op.operating_dt, true, 0);
                }
                let attempted = match find_kernel(&reg.kernels, op.operating_dt, false) {
                    Some(k) => reg.kernels[k].name,
                    None => match find_kernel(&reg.kernels, op.operating_dt, true) {
                        Some(k) => reg.kernels[k].name,
                        None => "",
                    },
                };
                return Err(CoreError::KernelNotFound { kernel: attempted, a_dt: operands.a_dt, b_dt: operands.b_dt });
            },
        },
    };
    let (k, packing, pa, pb) = found;
    proof {
        lemma_first_packing_in_range(reg.kernels@[k as int].packings@, operands.a_dt, operands.b_dt, 0);
        assert(panels_ok(reg.kernels@[k as int].packings@[packing as int]));
    }
    let pack_a = OptMatMulPack { k_axis: op.a_k, mn_axis: op.a_m, packers: vec![pa], mode_picker: ModePicker::Single };
    let pack_b = OptMatMulPack { k_axis: op.b_k, mn_axis: op.b_n, packers: vec![pb], mode_picker: ModePicker::Single };
    let impls = vec![(k, packing, None)];
    proof {
        assert(pack_a.packers@ =~= seq![pa]);
        assert(pack_b.packers@ =~= seq![pb]);
        assert(impls@ =~= seq![(k, packing, None::<PanelExtractor>)]);
    }
    Ok(Wiring { pack_a: Some(pack_a), pack_b, impls, mode_picker: ModePicker::Single })
}

/// Packing round trip for the formats kernel selection wires: packing an
/// operand into any packer of a successful wiring and reading it back gives
/// the operand's values.
pub proof fn lemma_wired_packing_round_trip<T>(
    w: Wiring,
    on_a: bool,
    x: int,
    src: Seq<T>,
    mn: nat,
    k: nat,
    mn_stride: nat,
    k_stride: nat,
    pad: T,
)
    requires
        packers_ok(w),
        on_a ==> w.pack_a is Some && 0 <= x < w.pack_a->Some_0.packers@.len(),
        !on_a ==> 0 <= x < w.pack_b.packers@.len(),
    ensures
        ({
            let r = if on_a { w.pack_a->Some_0.packers@[x].r } else { w.pack_b.packers@[x].r };
            unpack_spec(pack_spec(src, r as nat, mn, k, mn_stride, k_stride, pad), r as nat, mn, k)
                == logical_rows(src, mn, k, mn_stride, k_stride)
        }),
{
    let r = if on_a { w.pack_a->Some_0.packers@[x].r } else { w.pack_b.packers@[x].r };
    lemma_pack_round_trip(src, r as nat, mn, k, mn_stride, k_stride, pad);
}

/// Feeding the panels packed in the formats of a simple-path wiring to the
/// kernel's multiply-accumulate step gives, at tile position (`x`, `y`), the
/// product of A's row `p * mr + x` by B's column `q * nr + y` on the unpacked
/// operands, where `mr` and `nr` are the wired panel widths.
pub proof fn lemma_wired_product_matches_reference(
    w: Wiring,
    a: Seq<i32>,
    m: nat,
    a_strides: (nat, nat),
    b: Seq<i32>,
    n: nat,
    b_strides: (nat, nat),
    k: nat,
    p: nat,
    q: nat,
    x: nat,
    y: nat,
)
    requires
        packers_ok(w),
        w.pack_a is Some,
        w.pack_a->Some_0.packers@.len() > 0,
        w.pack_b.packers@.len() > 0,
        x < w.pack_a->Some_0.packers@[0].r,
        y < w.pack_b.packers@[0].r,
        p * w.pack_a->Some_0.packers@[0].r + x < m,
        q * w.pack_b.packers@[0].r + y < n,
    ensures
        ({
            let mr = w.pack_a->Some_0.packers@[0].r as nat;
            let nr = w.pack_b.packers@[0].r as nat;
            dot(
                panel(pack_spec(a, mr, m, k, a_strides.0, a_strides.1, 0i32), p, mr, k),
                panel(pack_spec(b, nr, n, k, b_strides.0, b_strides.1, 0i32), q, nr, k),
                mr,
                nr,
                x as int,
                y as int,
                k,
            ) == reference_dot(a, a_strides, (p * mr + x) as int, b, b_strides, (q * nr + y) as int, k)
        }),
{
    let mr = w.pack_a->Some_0.packers@[0].r as nat;
    let nr = w.pack_b.packers@[0].r as nat;
    lemma_packed_product_matches_reference(a, m, a_strides, b, n, b_strides, k, mr, nr, p, q, x, y, k);
}

} // verus!
