//! The GPU matrix-multiply operator: kernel families, output facts and cost,
//! and the plan of dispatches that one evaluation issues.
use vstd::prelude::*;

use crate::datum::{is_number_spec, DatumType};
use crate::error::CoreError;
use crate::fact::{plain_fact, Fact, FactView};
use crate::gemm::{checked_product, dispatch_outcome, shape_product, view_result, GemmDispatchParams};

verus! {

/// The GPU matrix-multiply kernel families.
#[derive(Debug, Clone, Copy, PartialEq, Eq, Hash, Structural)]
pub enum MetalGemmImplKind {
    Mlx,
    Mps,
    Mfa,
}

impl Default for MetalGemmImplKind {
    fn default() -> (r: Self)
        ensures
            r == MetalGemmImplKind::Mlx,
    {
        MetalGemmImplKind::Mlx
    }
}

impl MetalGemmImplKind {
    pub fn variants() -> (r: Vec<MetalGemmImplKind>)
        ensures
            r@ == seq![MetalGemmImplKind::Mlx, MetalGemmImplKind::Mfa, MetalGemmImplKind::Mps],
    {
        let r = vec![MetalGemmImplKind::Mlx, MetalGemmImplKind::Mfa, MetalGemmImplKind::Mps];
        assert(r@ =~= seq![MetalGemmImplKind::Mlx, MetalGemmImplKind::Mfa, MetalGemmImplKind::Mps]);
        r
    }

    pub fn variants_str() -> (r: Vec<&'static str>)
        ensures
            r@.len() == 3,
            r@[0]@ == kind_name(MetalGemmImplKind::Mlx),
            r@[1]@ == kind_name(MetalGemmImplKind::Mfa),
            r@[2]@ == kind_name(MetalGemmImplKind::Mps),
    {
        let kinds = MetalGemmImplKind::variants();
        let mut r: Vec<&'static str> = Vec::new();
        let mut i: usize = 0;
        while i < kinds.len()
            invariant
                i <= kinds@.len(),
                kinds@ == seq![MetalGemmImplKind::Mlx, MetalGemmImplKind::Mfa, MetalGemmImplKind::Mps],
                r@.len() == i,
                forall|j: int| 0 <= j < i ==> (#[trigger] r@[j])@ == kind_name(kinds@[j]),
            decreases kinds@.len() - i,
        {
            r.push(kinds[i].to_str());
            i = i + 1;
        }
        r
    }

    pub fn to_str(&self) -> (r: &'static str)
        ensures
            r@ == kind_name(*self),
    {
        match self {
            MetalGemmImplKind::Mlx => "mlx",
            MetalGemmImplKind::Mps => "mps",
            MetalGemmImplKind::Mfa => "mfa",
        }
    }
}

pub open spec fn kind_name(k: MetalGemmImplKind) -> Seq<char> {
    match k {
        MetalGemmImplKind::Mlx => "mlx"@,
        MetalGemmImplKind::Mps => "mps"@,
        MetalGemmImplKind::Mfa => "mfa"@,
    }
}

/// Output element type of a GPU product: f16 by f16 gives f16, f32 by f32
/// gives f32; any other pair is refused.
pub open spec fn gemm_output_dt(a_dt: DatumType, b_dt: DatumType) -> Result<DatumType, CoreError> {
    if a_dt == DatumType::F16 {
        if b_dt == DatumType::F16 {
            Ok(DatumType::F16)
        } else {
            Err(CoreError::UnsupportedDatumType(b_dt))
        }
    } else if a_dt != DatumType::F32 {
        Err(CoreError::UnsupportedDatumType(a_dt))
    } else if b_dt != DatumType::F32 {
        Err(CoreError::UnsupportedDatumType(b_dt))
    } else {
        Ok(DatumType::F32)
    }
}

/// A GPU matrix-multiply kernel family. Operand types and output type are
/// common to all families; what differs is the device call.
pub trait GemmKernel: Sized {
    fn create() -> Self;

    fn name() -> &'static str;

    /// Whether the pair of operand types is accepted: f32 or f16, both alike.
    fn is_supported_dts(&self, dts: &[DatumType]) -> (r: Result<bool, CoreError>)
        ensures
            dts@.len() != 2 ==> r == Err::<bool, CoreError>(CoreError::InvalidShape),
            dts@.len() == 2 ==> r == Ok::<bool, CoreError>(
                (dts@[0] == DatumType::F32 || dts@[0] == DatumType::F16) && dts@[0] == dts@[1],
            ),
    {
        if dts.len() != 2 {
            return Err(CoreError::InvalidShape);
        }
        Ok((dts[0] == DatumType::F32 || dts[0] == DatumType::F16) && dts[0] == dts[1])
    }

    fn output_dt(&self, a_dt: DatumType, b_dt: DatumType) -> (r: Result<DatumType, CoreError>)
        ensures
            r == gemm_output_dt(a_dt, b_dt),
    {
        if a_dt == DatumType::F16 {
            if b_dt != DatumType::F16 {
                return Err(CoreError::UnsupportedDatumType(b_dt));
            }
            Ok(DatumType::F16)
        } else {
            if a_dt != DatumType::F32 {
                return Err(CoreError::UnsupportedDatumType(a_dt));
            }
            if b_dt != DatumType::F32 {
                return Err(CoreError::UnsupportedDatumType(b_dt));
            }
            Ok(DatumType::F32)
        }
    }
}

#[derive(Debug, Clone, Copy, Default)]
pub struct MlxGemm;

#[derive(Debug, Clone, Copy, Default)]
pub struct MpsMatMul;

#[derive(Debug, Clone, Copy, Default)]
pub struct MfaGemm;

impl GemmKernel for MlxGemm {
    fn create() -> Self {
        MlxGemm
    }

    fn name() -> &'static str {
        "MlxGemm"
    }
}

impl GemmKernel for MpsMatMul {
    fn create() -> Self {
        MpsMatMul
    }

    fn name() -> &'static str {
        "MpsMatMul"
    }
}

impl GemmKernel for MfaGemm {
    fn create() -> Self {
        MfaGemm
    }

    fn name() -> &'static str {
        "MfaGemm"
    }
}

/// Shape of the product of A (`a`) by B (`b`): each batch axis is A's unless
/// A's is 1 (then B's), followed by M (from A) and N (from B).
pub open spec fn output_shape_spec(a: Seq<usize>, b: Seq<usize>, transpose_a: bool, transpose_b: bool) -> Seq<usize> {
    let rank = a.len();
    Seq::new((rank - 2) as nat, |i: int| if a[i] == 1 { b[i] } else { a[i] })
        .push(if transpose_a { a[rank - 1] } else { a[rank - 2] })
        .push(if transpose_b { b[rank - 2] } else { b[rank - 1] })
}

/// Ranks that the output shape can be computed from.
pub open spec fn ranks_ok(a: Seq<usize>, b: Seq<usize>) -> bool {
    2 <= a.len() <= b.len()
}

/// Output facts of a product of operands of the given shapes and types.
pub open spec fn gemm_facts_spec(
    transpose_a: bool,
    transpose_b: bool,
    a_shape: Seq<usize>,
    a_dt: DatumType,
    b_shape: Seq<usize>,
    b_dt: DatumType,
) -> Result<Seq<FactView>, CoreError> {
    if !ranks_ok(a_shape, b_shape) {
        Err(CoreError::InvalidShape)
    } else {
        match gemm_output_dt(a_dt, b_dt) {
            Ok(dt) => Ok(seq![plain_fact(dt, output_shape_spec(a_shape, b_shape, transpose_a, transpose_b))]),
            Err(e) => Err(e),
        }
    }
}

/// `Ok` with the views of the facts, or the same error.
pub open spec fn facts_result(r: Result<Vec<Fact>, CoreError>) -> Result<Seq<FactView>, CoreError> {
    match r {
        Ok(v) => Ok(v@.map_values(|f: Fact| f@)),
        Err(e) => Err(e),
    }
}

/// Metadata of a device tensor: element type, shape and byte offset into its
/// buffer.
#[derive(Debug)]
pub struct TensorDesc {
    pub dt: DatumType,
    pub shape: Vec<usize>,
    pub offset: usize,
}

/// Whether some dimension is 0, so that the shape holds no element.
pub open spec fn is_empty_shape(s: Seq<usize>) -> bool {
    exists|i: int| 0 <= i < s.len() && s[i] == 0
}

fn same_shape(x: &Vec<usize>, y: &Vec<usize>) -> (r: bool)
    ensures
        r == (x@ == y@),
{
    if x.len() != y.len() {
        return false;
    }
    let mut i: usize = 0;
    while i < x.len()
        invariant
            i <= x@.len() == y@.len(),
            forall|j: int| 0 <= j < i ==> x@[j] == y@[j],
        decreases x@.len() - i,
    {
        if x[i] != y[i] {
            return false;
        }
        i = i + 1;
    }
    assert(x@ =~= y@);
    true
}

fn has_zero_dim(s: &Vec<usize>) -> (r: bool)
    ensures
        r == is_empty_shape(s@),
{
    let mut i: usize = 0;
    while i < s.len()
        invariant
            i <= s@.len(),
            forall|j: int| 0 <= j < i ==> s@[j] != 0,
        decreases s@.len() - i,
    {
        if s[i] == 0 {
            return true;
        }
        i = i + 1;
    }
    false
}

/// The dispatches that evaluating A by B into C issues: C's shape must be the
/// product's shape; an empty output issues none.
pub open spec fn dispatch_plan(
    transpose_a: bool,
    transpose_b: bool,
    a: (DatumType, Seq<usize>, usize),
    b: (DatumType, Seq<usize>, usize),
    c: (DatumType, Seq<usize>, usize),
) -> Result<Seq<GemmDispatchParams>, CoreError> {
    if !ranks_ok(a.1, b.1) || c.1 != output_shape_spec(a.1, b.1, transpose_a, transpose_b) {
        Err(CoreError::InvalidShape)
    } else if is_empty_shape(c.1) {
        Ok(Seq::empty())
    } else {
        dispatch_outcome([a.0, b.0, c.0], a.2, a.1, transpose_a, b.2, b.1, transpose_b, c.2, c.1)
    }
}

pub open spec fn desc(t: &TensorDesc) -> (DatumType, Seq<usize>, usize) {
    (t.dt, t.shape@, t.offset)
}

/// What evaluating A by B into a fresh tensor gives: the output's type and
/// shape and the dispatches, or the first error met.
pub open spec fn eval_outcome(
    transpose_a: bool,
    transpose_b: bool,
    a: (DatumType, Seq<usize>, usize),
    b: (DatumType, Seq<usize>, usize),
) -> Result<(DatumType, Seq<usize>, Seq<GemmDispatchParams>), CoreError> {
    match gemm_output_dt(a.0, b.0) {
        Err(e) => Err(e),
        Ok(c_dt) => if !ranks_ok(a.1, b.1) {
            Err(CoreError::InvalidShape)
        } else {
            let c_shape = output_shape_spec(a.1, b.1, transpose_a, transpose_b);
            match dispatch_plan(transpose_a, transpose_b, a, b, (c_dt, c_shape, 0)) {
                Ok(ds) => Ok((c_dt, c_shape, ds)),
                Err(e) => Err(e),
            }
        },
    }
}

/// The output's type and shape and the dispatches, for an output at offset 0.
pub open spec fn eval_view(r: Result<(TensorDesc, Vec<GemmDispatchParams>), CoreError>) -> Result<
    (DatumType, Seq<usize>, Seq<GemmDispatchParams>),
    CoreError,
> {
    match r {
        Ok((c, ds)) => Ok((c.dt, c.shape@, ds@)),
        Err(e) => Err(e),
    }
}

/// A matrix-multiply operator over one kernel family, with its transposition
/// flags.
#[derive(Debug, Clone, Default)]
pub struct GemmImpl<M: GemmKernel> {
    pub transpose_a: bool,
    pub transpose_b: bool,
    pub matmul: M,
}

impl<M: GemmKernel> GemmImpl<M> {
    pub fn new(transpose_a: bool, transpose_b: bool) -> (r: Self)
        ensures
            r.transpose_a == transpose_a,
            r.transpose_b == transpose_b,
    {
        GemmImpl { transpose_a, transpose_b, matmul: M::create() }
    }

    pub fn output_shape(&self, a: &Vec<usize>, b: &Vec<usize>) -> (r: Vec<usize>)
        requires
            ranks_ok(a@, b@),
        ensures
            r@ == output_shape_spec(a@, b@, self.transpose_a, self.transpose_b),
    {
        let rank = a.len();
        let mut output: Vec<usize> = Vec::new();
        let mut ix: usize = 0;
        while ix < rank - 2
            invariant
                ranks_ok(a@, b@),
                rank == a@.len(),
                ix <= rank - 2,
                output@ =~= Seq::new(ix as nat, |i: int| if a@[i] == 1 { b@[i] } else { a@[i] }),
            decreases rank - 2 - ix,
        {
            if a[ix] == 1 {
                output.push(b[ix]);
            } else {
                output.push(a[ix]);
            }
            ix = ix + 1;
        }
        if self.transpose_a {
            output.push(a[rank - 1]);
        } else {
            output.push(a[rank - 2]);
        }
        if self.transpose_b {
            output.push(b[rank - 2]);
        } else {
            output.push(b[rank - 1]);
        }
        output
    }

    /// Facts of the product of `a` by `b`.
    pub fn output_facts(&self, a: &Fact, b: &Fact) -> (r: Result<Vec<Fact>, CoreError>)
        ensures
            facts_result(r) == gemm_facts_spec(
                self.transpose_a,
                self.transpose_b,
                a.shape@,
                a.dt,
                b.shape@,
                b.dt,
            ),
    {
        if !(2 <= a.shape.len() && a.shape.len() <= b.shape.len()) {
            return Err(CoreError::InvalidShape);
        }
        let out_shape = self.output_shape(&a.shape, &b.shape);
        let out_dt = self.matmul.output_dt(a.dt, b.dt)?;
        let r = vec![Fact::new(out_dt, out_shape)];
        assert(r@.map_values(|f: Fact| f@) =~= seq![plain_fact(out_dt, output_shape_spec(a.shape@, b.shape@, self.transpose_a, self.transpose_b))]);
        Ok(r)
    }

    /// Evaluates A by B into a new tensor: returns the output's description
    /// (offset 0 in a fresh buffer) and the dispatches to issue.
    pub fn eval(&self, a: &TensorDesc, b: &TensorDesc) -> (r: Result<
        (TensorDesc, Vec<GemmDispatchParams>),
        CoreError,
    >)
        ensures
            eval_view(r) == eval_outcome(self.transpose_a, self.transpose_b, desc(a), desc(b)),
            r is Ok ==> r->Ok_0.0.offset == 0,
    {
        let c_dt = self.matmul.output_dt(a.dt, b.dt)?;
        if !(2 <= a.shape.len() && a.shape.len() <= b.shape.len()) {
            return Err(CoreError::InvalidShape);
        }
        let c_shape = self.output_shape(&a.shape, &b.shape);
        let c = TensorDesc { dt: c_dt, shape: c_shape, offset: 0 };
        let dispatches = self.dispatch_eval(a, b, &c)?;
        Ok((c, dispatches))
    }

    /// The dispatches that evaluating A by B into the existing tensor C issues.
    pub fn dispatch_eval(&self, a: &TensorDesc, b: &TensorDesc, c: &TensorDesc) -> (r: Result<Vec<GemmDispatchParams>, CoreError>)
        ensures
            view_result(r) == dispatch_plan(self.transpose_a, self.transpose_b, desc(a), desc(b), desc(c)),
    {
        if !(2 <= a.shape.len() && a.shape.len() <= b.shape.len()) {
            return Err(CoreError::InvalidShape);
        }
        let expected = self.output_shape(&a.shape, &b.shape);
        if !same_shape(&c.shape, &expected) {
            return Err(CoreError::InvalidShape);
        }
        if has_zero_dim(&c.shape) {
            let r: Vec<GemmDispatchParams> = Vec::new();
            assert(r@ =~= Seq::<GemmDispatchParams>::empty());
            return Ok(r);
        }
        GemmDispatchParams::compute_dispatches_params(
            [a.dt, b.dt, c.dt],
            a.offset,
            a.shape.as_slice(),
            self.transpose_a,
            b.offset,
            b.shape.as_slice(),
            self.transpose_b,
            c.offset,
            c.shape.as_slice(),
        )
    }
}

/// Index of the contraction axis of A (`is_a`) or of B among the last two.
pub open spec fn k_axis(rank: nat, transposed: bool, is_a: bool) -> int {
    if transposed == is_a {
        rank - 2
    } else {
        rank - 1
    }
}

/// Output facts of the GPU product for host-side input facts: numeric
/// operands must have equal ranks of at least 2 and equal contraction
/// lengths; an opaque block-quantized operand contributes its payload's
/// shape; anything else is refused.
pub open spec fn resolve_spec(transpose_a: bool, transpose_b: bool, inputs: Seq<FactView>) -> Result<
    Seq<FactView>,
    CoreError,
> {
    if inputs.len() != 2 {
        Err(CoreError::InvalidShape)
    } else {
        let (a, b) = (inputs[0], inputs[1]);
        let rank = a.shape.len();
        if is_number_spec(a.dt) && is_number_spec(b.dt) {
            if rank != b.shape.len() || rank < 2 || a.shape[k_axis(rank, transpose_a, true)]
                != b.shape[k_axis(rank, transpose_b, false)] {
                Err(CoreError::InvalidShape)
            } else {
                gemm_facts_spec(transpose_a, transpose_b, a.shape, a.dt, b.shape, b.dt)
            }
        } else if a.opaque_shape is Some {
            gemm_facts_spec(transpose_a, transpose_b, a.shape + a.opaque_shape->Some_0, a.dt, b.shape, b.dt)
        } else if b.opaque_shape is Some {
            gemm_facts_spec(transpose_a, transpose_b, a.shape, a.dt, b.shape + b.opaque_shape->Some_0, b.dt)
        } else if !is_number_spec(a.dt) {
            Err(CoreError::UnsupportedDatumType(a.dt))
        } else {
            Err(CoreError::UnsupportedDatumType(b.dt))
        }
    }
}

pub open spec fn on_host(f: FactView) -> FactView {
    FactView { on_gpu: false, ..f }
}

pub open spec fn on_device(f: FactView) -> FactView {
    FactView { on_gpu: true, ..f }
}

/// Facts of the operator's outputs: computed on the host-side view of the
/// inputs, and device-resident where some input is.
pub open spec fn op_facts_spec(transpose_a: bool, transpose_b: bool, inputs: Seq<FactView>) -> Result<
    Seq<FactView>,
    CoreError,
> {
    match resolve_spec(transpose_a, transpose_b, inputs.map_values(|f: FactView| on_host(f))) {
        Ok(fs) => if exists|i: int| 0 <= i < inputs.len() && #[trigger] inputs[i].on_gpu {
            Ok(fs.map_values(|f: FactView| on_device(f)))
        } else {
            Ok(fs)
        },
        Err(e) => Err(e),
    }
}

/// Kind of arithmetic work counted by a cost estimate.
#[derive(Debug, Clone, Copy, PartialEq, Eq, Structural)]
pub enum Cost {
    /// Fused multiply-adds in the given element type.
    FMA(DatumType),
}

/// Multiply-adds of the product: one per output element and step along A's
/// last axis, tagged f16 for f16 operands and f32 otherwise.
pub open spec fn cost_spec(transpose_a: bool, transpose_b: bool, inputs: Seq<FactView>) -> Result<
    (Cost, nat),
    CoreError,
> {
    if inputs.len() < 2 || !ranks_ok(inputs[0].shape, inputs[1].shape) {
        Err(CoreError::InvalidShape)
    } else {
        let a = inputs[0];
        let fma = shape_product(output_shape_spec(a.shape, inputs[1].shape, transpose_a, transpose_b))
            * (a.shape.last() as nat);
        if fma > usize::MAX {
            Err(CoreError::SizeOverflow)
        } else if a.dt == DatumType::F16 {
            Ok((Cost::FMA(DatumType::F16), fma))
        } else {
            Ok((Cost::FMA(DatumType::F32), fma))
        }
    }
}

pub open spec fn fact_views(v: Seq<Fact>) -> Seq<FactView> {
    v.map_values(|f: Fact| f@)
}

fn concat_shape(x: &Vec<usize>, y: &Vec<usize>) -> (r: Vec<usize>)
    ensures
        r@ == x@ + y@,
{
    let mut r = x.clone();
    let mut i: usize = 0;
    while i < y.len()
        invariant
            i <= y@.len(),
            r@ =~= x@ + y@.take(i as int),
        decreases y@.len() - i,
    {
        r.push(y[i]);
        i = i + 1;
        assert(y@.take(i as int) =~= y@.take(i - 1).push(y@[i - 1]));
    }
    assert(y@.take(y@.len() as int) =~= y@);
    r
}

/// `product(shape) * last`, where it fits in `usize`.
fn fma_count(shape: &Vec<usize>, last: usize) -> (r: Option<usize>)
    ensures
        shape_product(shape@) * (last as nat) <= usize::MAX ==> r == Some(
            (shape_product(shape@) * (last as nat)) as usize,
        ),
        shape_product(shape@) * (last as nat) > usize::MAX ==> r is None,
{
    if last == 0 {
        assert(shape_product(shape@) * 0 == 0) by (nonlinear_arith);
        return Some(0);
    }
    assert(shape@.subrange(0, shape@.len() as int) =~= shape@);
    match checked_product(shape.as_slice(), shape.len()) {
        Some(p) => p.checked_mul(last),
        None => {
            assert(shape_product(shape@) * (last as nat) >= shape_product(shape@)) by (nonlinear_arith)
                requires
                    last > 0,
            ;
            None
        },
    }
}

/// The GPU matrix-multiply graph operator.
#[derive(Debug, Clone, Default)]
pub struct MetalGemm<K: GemmKernel> {
    pub kernel: GemmImpl<K>,
}

impl<K: GemmKernel> MetalGemm<K> {
    pub fn new(transpose_a: bool, transpose_b: bool) -> (r: Self)
        ensures
            r.kernel.transpose_a == transpose_a,
            r.kernel.transpose_b == transpose_b,
    {
        MetalGemm { kernel: GemmImpl::new(transpose_a, transpose_b) }
    }

    pub fn transpose_a(&self) -> (r: bool)
        ensures
            r == self.kernel.transpose_a,
    {
        self.kernel.transpose_a
    }

    pub fn transpose_b(&self) -> (r: bool)
        ensures
            r == self.kernel.transpose_b,
    {
        self.kernel.transpose_b
    }

    /// Output facts for host-side input facts.
    pub fn resolve_output_facts(&self, inputs: &Vec<Fact>) -> (r: Result<Vec<Fact>, CoreError>)
        ensures
            facts_result(r) == resolve_spec(self.kernel.transpose_a, self.kernel.transpose_b, fact_views(inputs@)),
    {
        if inputs.len() != 2 {
            return Err(CoreError::InvalidShape);
        }
        let a = &inputs[0];
        let b = &inputs[1];
        assert(fact_views(inputs@)[0] == a@ && fact_views(inputs@)[1] == b@);
        if a.dt.is_number() && b.dt.is_number() {
            let rank = a.shape.len();
            if rank != b.shape.len() || rank < 2 {
                return Err(CoreError::InvalidShape);
            }
            let a_k = if self.transpose_a() { a.shape[rank - 2] } else { a.shape[rank - 1] };
            let b_k = if self.transpose_b() { b.shape[rank - 1] } else { b.shape[rank - 2] };
            if a_k != b_k {
                return Err(CoreError::InvalidShape);
            }
            self.kernel.output_facts(a, b)
        } else if let Some(opf) = &a.opaque_shape {
            let a_full = Fact { dt: a.dt, shape: concat_shape(&a.shape, opf), on_gpu: a.on_gpu, konst: a.konst, opaque_shape: None };
            self.kernel.output_facts(&a_full, b)
        } else if let Some(opf) = &b.opaque_shape {
            let b_full = Fact { dt: b.dt, shape: concat_shape(&b.shape, opf), on_gpu: b.on_gpu, konst: b.konst, opaque_shape: None };
            self.kernel.output_facts(a, &b_full)
        } else if !a.dt.is_number() {
            Err(CoreError::UnsupportedDatumType(a.dt))
        } else {
            Err(CoreError::UnsupportedDatumType(b.dt))
        }
    }

    /// Output facts for input facts that may be device-resident.
    pub fn output_facts(&self, inputs: &Vec<Fact>) -> (r: Result<Vec<Fact>, CoreError>)
        ensures
            facts_result(r) == op_facts_spec(self.kernel.transpose_a, self.kernel.transpose_b, fact_views(inputs@)),
    {
        let ghost views = fact_views(inputs@);
        let mut host: Vec<Fact> = Vec::new();
        let mut any_gpu = false;
        let mut i: usize = 0;
        while i < inputs.len()
            invariant
                i <= inputs@.len(),
                views == fact_views(inputs@),
                host@.len() == i,
                forall|j: int| 0 <= j < i ==> (#[trigger] host@[j])@ == on_host(views[j]),
                any_gpu == exists|j: int| 0 <= j < i && #[trigger] views[j].on_gpu,
            decreases inputs@.len() - i,
        {
            let mut f = inputs[i].duplicate();
            assert(f@ == views[i as int]);
            if f.on_gpu {
                any_gpu = true;
            }
            f.on_gpu = false;
            host.push(f);
            proof {
                if views[i as int].on_gpu {
                    assert(0 <= i < i + 1 && views[i as int].on_gpu);
                }
            }
            i = i + 1;
        }
        assert(fact_views(host@) =~= views.map_values(|f: FactView| on_host(f)));
        let facts = self.resolve_output_facts(&host)?;
        if !any_gpu {
            return Ok(facts);
        }
        let mut out: Vec<Fact> = Vec::new();
        let mut j: usize = 0;
        while j < facts.len()
            invariant
                j <= facts@.len(),
                out@.len() == j,
                forall|t: int| 0 <= t < j ==> (#[trigger] out@[t])@ == on_device(facts@[t]@),
            decreases facts@.len() - j,
        {
            let mut f = facts[j].duplicate();
            f.on_gpu = true;
            out.push(f);
            j = j + 1;
        }
        assert(fact_views(out@) =~= fact_views(facts@).map_values(|f: FactView| on_device(f)));
        Ok(out)
    }

    /// Estimated work of the product, on host-side facts.
    pub fn cost(&self, inputs: &Vec<Fact>) -> (r: Result<(Cost, usize), CoreError>)
        ensures
            match r {
                Ok((c, n)) => cost_spec(self.kernel.transpose_a, self.kernel.transpose_b, fact_views(inputs@))
                    == Ok::<(Cost, nat), CoreError>((c, n as nat)),
                Err(e) => cost_spec(self.kernel.transpose_a, self.kernel.transpose_b, fact_views(inputs@))
                    == Err::<(Cost, nat), CoreError>(e),
            },
    {
        if inputs.len() < 2 {
            return Err(CoreError::InvalidShape);
        }
        let a = &inputs[0];
        let b = &inputs[1];
        assert(fact_views(inputs@)[0] == a@ && fact_views(inputs@)[1] == b@);
        if !(2 <= a.shape.len() && a.shape.len() <= b.shape.len()) {
            return Err(CoreError::InvalidShape);
        }
        let out_shape = self.kernel.output_shape(&a.shape, &b.shape);
        let fma = match fma_count(&out_shape, a.shape[a.shape.len() - 1]) {
            Some(v) => v,
            None => return Err(CoreError::SizeOverflow),
        };
        if a.dt == DatumType::F16 {
            Ok((Cost::FMA(DatumType::F16), fma))
        } else {
            Ok((Cost::FMA(DatumType::F32), fma))
        }
    }

    /// Evaluates the operator on device tensors: the output tensor and the
    /// dispatches to issue.
    pub fn metal_eval(&self, a: &TensorDesc, b: &TensorDesc) -> (r: Result<
        (TensorDesc, Vec<GemmDispatchParams>),
        CoreError,
    >)
        ensures
            eval_view(r) == eval_outcome(self.kernel.transpose_a, self.kernel.transpose_b, desc(a), desc(b)),
            r is Ok ==> r->Ok_0.0.offset == 0,
    {
        self.kernel.eval(a, b)
    }
}

} // verus!
