//! Batched matrix-multiply dispatch: the decomposition of a broadcast batched
//! product into primitive 3-D calls, and what those calls compute.
use vstd::prelude::*;

use crate::datum::{size_of_spec, DatumType};
use crate::error::CoreError;

verus! {

/// Product of all dimensions of a shape (1 for the empty shape).
pub open spec fn shape_product(s: Seq<usize>) -> nat
    decreases s.len(),
{
    if s.len() == 0 {
        1
    } else {
        shape_product(s.drop_last()) * (s.last() as nat)
    }
}

/// Product of the leading (batch) dimensions of a shape of rank at least 2.
pub open spec fn batch_of(s: Seq<usize>) -> nat {
    shape_product(s.subrange(0, s.len() - 2))
}

/// A shape that folds to rank 3 with a batch count that fits in `usize`.
pub open spec fn squeezable(s: Seq<usize>) -> bool {
    s.len() >= 2 && batch_of(s) <= usize::MAX
}

/// The error raised for a shape that does not fold to rank 3.
pub open spec fn squeeze_error(s: Seq<usize>) -> CoreError {
    if s.len() < 2 {
        CoreError::InvalidShape
    } else {
        CoreError::SizeOverflow
    }
}

/// `off + count * x * y * z`, as a mathematical integer.
pub open spec fn span_end(off: nat, count: nat, x: nat, y: nat, z: nat) -> nat {
    off + count * (x * y * z)
}

proof fn lemma_product_push(s: Seq<usize>, d: usize)
    ensures
        shape_product(s.push(d)) == shape_product(s) * (d as nat),
{
    assert(s.push(d).drop_last() =~= s);
}

proof fn lemma_mul_grows(a: nat, b: nat)
    requires
        b >= 1,
    ensures
        a * b >= a,
{
    assert(a * b >= a) by (nonlinear_arith)
        requires
            b >= 1,
    ;
}

proof fn lemma_mul_le(i: nat, n: nat, x: nat)
    requires
        i <= n,
    ensures
        i * x <= n * x,
{
    assert(i * x <= n * x) by (nonlinear_arith)
        requires
            i <= n,
    ;
}

/// Product of `s[..to]`, or `None` where it does not fit in `usize`.
pub(crate) fn checked_product(s: &[usize], to: usize) -> (r: Option<usize>)
    requires
        to <= s@.len(),
    ensures
        shape_product(s@.subrange(0, to as int)) <= usize::MAX ==> r == Some(
            shape_product(s@.subrange(0, to as int)) as usize,
        ),
        shape_product(s@.subrange(0, to as int)) > usize::MAX ==> r is None,
{
    let mut acc: usize = 1;
    let mut i: usize = 0;
    assert(s@.subrange(0, 0) =~= Seq::<usize>::empty());
    while i < to
        invariant
            i <= to <= s@.len(),
            acc as nat == shape_product(s@.subrange(0, i as int)),
        decreases to - i,
    {
        proof {
            assert(s@.subrange(0, i + 1) =~= s@.subrange(0, i as int).push(s@[i as int]));
            lemma_product_push(s@.subrange(0, i as int), s@[i as int]);
        }
        match acc.checked_mul(s[i]) {
            Some(p) => {
                acc = p;
                i = i + 1;
            },
            None => {
                // Once the running product has overflowed it stays too large,
                // unless a later zero dimension brings it back.
                let mut j: usize = i + 1;
                let mut zero = false;
                while j < to
                    invariant
                        i < j <= to <= s@.len(),
                        zero == exists|t: int| i < t < j && s@[t] == 0,
                    decreases to - j,
                {
                    if s[j] == 0 {
                        zero = true;
                    }
                    j = j + 1;
                }
                proof {
                    lemma_product_overflow_or_zero(s@, i as int, to as int);
                }
                if zero {
                    return Some(0);
                }
                return None;
            },
        }
    }
    Some(acc)
}

/// Once the product of `s[..i+1]` exceeds `usize::MAX`, the product of
/// `s[..to]` is either zero (a later zero dimension) or too large as well.
proof fn lemma_product_overflow_or_zero(s: Seq<usize>, i: int, to: int)
    requires
        0 <= i < to <= s.len(),
        shape_product(s.subrange(0, i + 1)) > usize::MAX,
    ensures
        (exists|t: int| i < t < to && s[t] == 0) ==> shape_product(s.subrange(0, to)) == 0,
        !(exists|t: int| i < t < to && s[t] == 0) ==> shape_product(s.subrange(0, to))
            > usize::MAX,
    decreases to - i,
{
    if to == i + 1 {
    } else {
        lemma_product_overflow_or_zero(s, i, to - 1);
        assert(s.subrange(0, to) =~= s.subrange(0, to - 1).push(s[to - 1]));
        lemma_product_push(s.subrange(0, to - 1), s[to - 1]);
        let p = shape_product(s.subrange(0, to - 1));
        if s[to - 1] == 0 {
            assert(p * 0 == 0) by (nonlinear_arith);
        } else {
            lemma_mul_grows(p, s[to - 1] as nat);
        }
        if exists|t: int| i < t < to - 1 && s[t] == 0 {
            assert(p * (s[to - 1] as nat) == 0) by (nonlinear_arith)
                requires
                    p == 0,
            ;
        }
    }
}

/// Folds all leading dimensions of a shape into one batch dimension,
/// returning a shape of rank 3 (a rank-2 shape gets a batch of 1).
pub fn squeeze_batch_axes(s: &[usize]) -> (r: Result<Vec<usize>, CoreError>)
    ensures
        !squeezable(s@) ==> r == Err::<Vec<usize>, CoreError>(squeeze_error(s@)),
        squeezable(s@) ==> r is Ok && r->Ok_0@ == seq![
            batch_of(s@) as usize,
            s@[s@.len() - 2],
            s@[s@.len() - 1],
        ],
{
    if s.len() < 2 {
        return Err(CoreError::InvalidShape);
    }
    let rank = s.len();
    match checked_product(s, rank - 2) {
        Some(batch) => {
            let r = vec![batch, s[rank - 2], s[rank - 1]];
            assert(r@ =~= seq![batch_of(s@) as usize, s@[s@.len() - 2], s@[s@.len() - 1]]);
            Ok(r)
        },
        None => Err(CoreError::SizeOverflow),
    }
}

/// Returns `off + count * x * y * z` where it fits in `usize`.
fn checked_span(off: usize, count: usize, x: usize, y: usize, z: usize) -> (r: Option<usize>)
    requires
        z >= 1,
    ensures
        span_end(off as nat, count as nat, x as nat, y as nat, z as nat) <= usize::MAX ==> r
            == Some(span_end(off as nat, count as nat, x as nat, y as nat, z as nat) as usize),
        span_end(off as nat, count as nat, x as nat, y as nat, z as nat) > usize::MAX ==> r is None,
{
    if count == 0 {
        assert(0 * ((x as nat) * (y as nat) * (z as nat)) == 0) by (nonlinear_arith);
        return Some(off);
    }
    let xy = match x.checked_mul(y) {
        Some(v) => v,
        None => {
            proof {
                lemma_mul_grows((x as nat) * (y as nat), z as nat);
                lemma_mul_grows((x as nat) * (y as nat) * (z as nat), count as nat);
                assert((count as nat) * ((x as nat) * (y as nat) * (z as nat)) == ((x as nat)
                    * (y as nat) * (z as nat)) * (count as nat)) by (nonlinear_arith);
            }
            return None;
        },
    };
    let xyz = match xy.checked_mul(z) {
        Some(v) => v,
        None => {
            proof {
                lemma_mul_grows((x as nat) * (y as nat) * (z as nat), count as nat);
                assert((count as nat) * ((x as nat) * (y as nat) * (z as nat)) == ((x as nat)
                    * (y as nat) * (z as nat)) * (count as nat)) by (nonlinear_arith);
            }
            return None;
        },
    };
    match count.checked_mul(xyz) {
        Some(total) => off.checked_add(total),
        None => None,
    }
}

/// One fully resolved, non-broadcasting 3-D matrix multiply: element types
/// of A, B and C, sizes, transposition flags and byte offsets into each buffer.
#[derive(Debug, Clone, Copy, PartialEq, Eq, Hash)]
pub struct GemmDispatchParams {
    pub dts: [DatumType; 3],
    pub batch: usize,
    pub m: usize,
    pub k: usize,
    pub n: usize,
    pub transpose_a: bool,
    pub a_offset: usize,
    pub transpose_b: bool,
    pub b_offset: usize,
    pub c_offset: usize,
}

/// Rows of the output, read from C's shape.
pub open spec fn gemm_m(c: Seq<usize>) -> nat {
    c[c.len() - 2] as nat
}

/// Columns of the output, read from C's shape.
pub open spec fn gemm_n(c: Seq<usize>) -> nat {
    c[c.len() - 1] as nat
}

/// Contraction length, read from A's shape.
pub open spec fn gemm_k(a: Seq<usize>, transpose_a: bool) -> nat {
    if transpose_a {
        a[a.len() - 2] as nat
    } else {
        a[a.len() - 1] as nat
    }
}

pub open spec fn make_params(
    dts: [DatumType; 3],
    batch: nat,
    m: nat,
    k: nat,
    n: nat,
    transpose_a: bool,
    a_offset: nat,
    transpose_b: bool,
    b_offset: nat,
    c_offset: nat,
) -> GemmDispatchParams {
    GemmDispatchParams {
        dts,
        batch: batch as usize,
        m: m as usize,
        k: k as usize,
        n: n as usize,
        transpose_a,
        a_offset: a_offset as usize,
        transpose_b,
        b_offset: b_offset as usize,
        c_offset: c_offset as usize,
    }
}

/// How a batched product is split.
pub enum Decomposition {
    /// A's batch folded into M: one dispatch.
    FoldIntoM,
    /// One dispatch per batch index of A.
    PerBatchOfA,
    /// One dispatch per batch index of B.
    PerBatchOfB,
    /// One dispatch over the common batch.
    Whole,
}

pub open spec fn decomposition(a_batch: nat, b_batch: nat, transpose_a: bool) -> Decomposition {
    if b_batch == 1 && a_batch != 1 && !transpose_a {
        Decomposition::FoldIntoM
    } else if b_batch == 1 && a_batch != 1 {
        Decomposition::PerBatchOfA
    } else if a_batch == 1 && b_batch != 1 {
        Decomposition::PerBatchOfB
    } else {
        Decomposition::Whole
    }
}

/// Batch counts that broadcasting reconciles, with C's batch one of them.
pub open spec fn batches_reconcile(a_batch: nat, b_batch: nat, c_batch: nat) -> bool {
    (c_batch == a_batch || c_batch == b_batch) && (a_batch == b_batch || a_batch == 1 || b_batch
        == 1)
}

/// The sizes that a decomposition reads from the three shapes.
pub struct GemmDims {
    pub a_batch: nat,
    pub b_batch: nat,
    pub m: nat,
    pub k: nat,
    pub n: nat,
}

pub open spec fn gemm_dims(
    a_shape: Seq<usize>,
    transpose_a: bool,
    b_shape: Seq<usize>,
    c_shape: Seq<usize>,
) -> GemmDims {
    GemmDims {
        a_batch: batch_of(a_shape),
        b_batch: batch_of(b_shape),
        m: gemm_m(c_shape),
        k: gemm_k(a_shape, transpose_a),
        n: gemm_n(c_shape),
    }
}

/// Every size and byte offset that the decomposition computes fits in `usize`.
pub open spec fn fits(
    dts: [DatumType; 3],
    d: GemmDims,
    transpose_a: bool,
    a_offset: nat,
    b_offset: nat,
    c_offset: nat,
) -> bool {
    match decomposition(d.a_batch, d.b_batch, transpose_a) {
        Decomposition::FoldIntoM => d.m * d.a_batch <= usize::MAX,
        Decomposition::PerBatchOfA => span_end(a_offset, d.a_batch, d.m, d.k, size_of_spec(dts[0]))
            <= usize::MAX && span_end(c_offset, d.a_batch, d.m, d.n, size_of_spec(dts[2]))
            <= usize::MAX,
        Decomposition::PerBatchOfB => span_end(b_offset, d.b_batch, d.n, d.k, size_of_spec(dts[1]))
            <= usize::MAX && span_end(c_offset, d.b_batch, d.m, d.n, size_of_spec(dts[2]))
            <= usize::MAX,
        Decomposition::Whole => true,
    }
}

/// The dispatch list for batches that reconcile and offsets that fit.
pub open spec fn planned(
    dts: [DatumType; 3],
    d: GemmDims,
    transpose_a: bool,
    a_offset: nat,
    transpose_b: bool,
    b_offset: nat,
    c_offset: nat,
) -> Seq<GemmDispatchParams> {
    let whole = make_params(
        dts,
        d.a_batch,
        d.m,
        d.k,
        d.n,
        transpose_a,
        a_offset,
        transpose_b,
        b_offset,
        c_offset,
    );
    let single = GemmDispatchParams { batch: 1, ..whole };
    let c_stride = (d.m * d.n * size_of_spec(dts[2])) as usize;
    match decomposition(d.a_batch, d.b_batch, transpose_a) {
        Decomposition::FoldIntoM => seq![GemmDispatchParams { m: (d.m * d.a_batch) as usize, ..single }],
        Decomposition::PerBatchOfA => Seq::new(
            d.a_batch,
            |i: int| shifted(single, true, (d.m * d.k * size_of_spec(dts[0])) as usize, c_stride, i),
        ),
        Decomposition::PerBatchOfB => Seq::new(
            d.b_batch,
            |i: int| shifted(single, false, (d.n * d.k * size_of_spec(dts[1])) as usize, c_stride, i),
        ),
        Decomposition::Whole => seq![whole],
    }
}

/// `template` moved to batch index `i`: A's (or B's) offset advanced by
/// `i * stride` bytes and C's by `i * c_stride` bytes.
pub open spec fn shifted(
    template: GemmDispatchParams,
    on_a: bool,
    stride: usize,
    c_stride: usize,
    i: int,
) -> GemmDispatchParams {
    let c_offset = (template.c_offset + i * c_stride) as usize;
    if on_a {
        GemmDispatchParams {
            a_offset: (template.a_offset + i * stride) as usize,
            c_offset,
            ..template
        }
    } else {
        GemmDispatchParams {
            b_offset: (template.b_offset + i * stride) as usize,
            c_offset,
            ..template
        }
    }
}

/// `Ok` with the vector's contents, or the same error.
pub open spec fn view_result<T>(r: Result<Vec<T>, CoreError>) -> Result<Seq<T>, CoreError> {
    match r {
        Ok(v) => Ok(v@),
        Err(e) => Err(e),
    }
}

/// Dispatches `off + i * stride` for `i` in `0..count`, the other fields fixed.
fn per_batch_dispatches(
    template: GemmDispatchParams,
    count: usize,
    on_a: bool,
    stride: usize,
    c_stride: usize,
) -> (r: Vec<GemmDispatchParams>)
    requires
        on_a ==> template.a_offset + count * stride <= usize::MAX,
        !on_a ==> template.b_offset + count * stride <= usize::MAX,
        template.c_offset + count * c_stride <= usize::MAX,
    ensures
        r@.len() == count,
        forall|i: int|
            0 <= i < count ==> #[trigger] r@[i] == shifted(template, on_a, stride, c_stride, i),
{
    let mut r: Vec<GemmDispatchParams> = Vec::new();
    let mut i: usize = 0;
    while i < count
        invariant
            i <= count,
            r@.len() == i,
            on_a ==> template.a_offset + count * stride <= usize::MAX,
            !on_a ==> template.b_offset + count * stride <= usize::MAX,
            template.c_offset + count * c_stride <= usize::MAX,
            forall|j: int|
                0 <= j < i ==> #[trigger] r@[j] == shifted(template, on_a, stride, c_stride, j),
        decreases count - i,
    {
        proof {
            lemma_mul_le(i as nat, count as nat, stride as nat);
            lemma_mul_le(i as nat, count as nat, c_stride as nat);
        }
        let c_offset = template.c_offset + i * c_stride;
        let d = if on_a {
            GemmDispatchParams { a_offset: template.a_offset + i * stride, c_offset, ..template }
        } else {
            GemmDispatchParams { b_offset: template.b_offset + i * stride, c_offset, ..template }
        };
        r.push(d);
        i = i + 1;
    }
    r
}

/// What the decomposition returns: the first shape (A, B, then C) that does not
/// fold to rank 3 gives its error; then batches that do not reconcile give
/// `IncompatibleBatchDims`, offsets that do not fit `SizeOverflow`, and
/// otherwise the planned dispatches.
pub open spec fn dispatch_outcome(
    dts: [DatumType; 3],
    a_offset: usize,
    a_shape: Seq<usize>,
    transpose_a: bool,
    b_offset: usize,
    b_shape: Seq<usize>,
    transpose_b: bool,
    c_offset: usize,
    c_shape: Seq<usize>,
) -> Result<Seq<GemmDispatchParams>, CoreError> {
    let d = gemm_dims(a_shape, transpose_a, b_shape, c_shape);
    if !squeezable(a_shape) {
        Err(squeeze_error(a_shape))
    } else if !squeezable(b_shape) {
        Err(squeeze_error(b_shape))
    } else if !squeezable(c_shape) {
        Err(squeeze_error(c_shape))
    } else if !batches_reconcile(d.a_batch, d.b_batch, batch_of(c_shape)) {
        Err(CoreError::IncompatibleBatchDims)
    } else if !fits(dts, d, transpose_a, a_offset as nat, b_offset as nat, c_offset as nat) {
        Err(CoreError::SizeOverflow)
    } else {
        Ok(planned(dts, d, transpose_a, a_offset as nat, transpose_b, b_offset as nat, c_offset as nat))
    }
}

/// The outcome of the per-batch-index decomposition for dimensions `d`.
pub open spec fn per_batch_outcome(whole: GemmDispatchParams, d: GemmDims) -> Result<
    Seq<GemmDispatchParams>,
    CoreError,
> {
    let (a_off, b_off, c_off) = (whole.a_offset as nat, whole.b_offset as nat, whole.c_offset as nat);
    if fits(whole.dts, d, whole.transpose_a, a_off, b_off, c_off) {
        Ok(planned(whole.dts, d, whole.transpose_a, a_off, whole.transpose_b, b_off, c_off))
    } else {
        Err(CoreError::SizeOverflow)
    }
}

/// The per-batch-index decomposition, along A (`on_a`) or along B.
fn per_batch(whole: GemmDispatchParams, count: usize, on_a: bool, dims: Ghost<GemmDims>) -> (r:
    Result<Vec<GemmDispatchParams>, CoreError>)
    requires
        dims@.m == whole.m,
        dims@.n == whole.n,
        dims@.k == whole.k,
        on_a ==> dims@.a_batch == count && dims@.b_batch == 1 && count != 1 && whole.transpose_a,
        !on_a ==> dims@.b_batch == count && dims@.a_batch == 1 && count != 1,
    ensures
        view_result(r) == per_batch_outcome(whole, dims@),
{
    let ghost d = dims@;
    let (m, n, k) = (whole.m, whole.n, whole.k);
    let ghost target = planned(
        whole.dts,
        d,
        whole.transpose_a,
        whole.a_offset as nat,
        whole.transpose_b,
        whole.b_offset as nat,
        whole.c_offset as nat,
    );
    let sx = if on_a {
        whole.dts[0].size_of()
    } else {
        whole.dts[1].size_of()
    };
    let sc = whole.dts[2].size_of();
    let x = if on_a {
        m
    } else {
        n
    };
    let off = if on_a {
        whole.a_offset
    } else {
        whole.b_offset
    };
    let x_end = checked_span(off, count, x, k, sx);
    let c_end = checked_span(whole.c_offset, count, m, n, sc);
    if x_end.is_none() || c_end.is_none() {
        return Err(CoreError::SizeOverflow);
    }
    if count == 0 {
        let r: Vec<GemmDispatchParams> = Vec::new();
        assert(r@ =~= target);
        return Ok(r);
    }
    proof {
        let (xn, kn, sxn, mn, nn, scn) = (
            x as nat,
            k as nat,
            sx as nat,
            m as nat,
            n as nat,
            sc as nat,
        );
        lemma_mul_grows(xn * kn * sxn, count as nat);
        lemma_mul_grows(mn * nn * scn, count as nat);
        assert(count as nat * (xn * kn * sxn) == (xn * kn * sxn) * count as nat) by (nonlinear_arith);
        assert(count as nat * (mn * nn * scn) == (mn * nn * scn) * count as nat) by (nonlinear_arith);
        lemma_mul_grows(xn * kn, sxn);
        lemma_mul_grows(mn * nn, scn);
    }
    let stride = x * k * sx;
    let c_stride = m * n * sc;
    let r = per_batch_dispatches(
        GemmDispatchParams { batch: 1, ..whole },
        count,
        on_a,
        stride,
        c_stride,
    );
    assert(r@ =~= target);
    Ok(r)
}

impl GemmDispatchParams {
    /// Turns a batched product of A (`a_shape`) by B (`b_shape`) into C
    /// (`c_shape`) into the list of primitive dispatches that covers every
    /// output batch slice exactly once. Offsets are in bytes.
    pub fn compute_dispatches_params(
        dts: [DatumType; 3],
        a_offset: usize,
        a_shape: &[usize],
        transpose_a: bool,
        b_offset: usize,
        b_shape: &[usize],
        transpose_b: bool,
        c_offset: usize,
        c_shape: &[usize],
    ) -> (r: Result<Vec<GemmDispatchParams>, CoreError>)
        ensures
            view_result(r) == dispatch_outcome(
                dts,
                a_offset,
                a_shape@,
                transpose_a,
                b_offset,
                b_shape@,
                transpose_b,
                c_offset,
                c_shape@,
            ),
    {
        let rank = c_shape.len();
        let squeezed_a_shape = squeeze_batch_axes(a_shape)?;
        let squeezed_b_shape = squeeze_batch_axes(b_shape)?;
        let squeezed_c_shape = squeeze_batch_axes(c_shape)?;

        let a_batch = squeezed_a_shape[0];
        let b_batch = squeezed_b_shape[0];

        if !(squeezed_c_shape[0] == a_batch || squeezed_c_shape[0] == b_batch) {
            return Err(CoreError::IncompatibleBatchDims);
        }
        let m = c_shape[rank - 2];
        let n = c_shape[rank - 1];
        let k = if transpose_a {
            a_shape[a_shape.len() - 2]
        } else {
            a_shape[a_shape.len() - 1]
        };
        let ghost d = gemm_dims(a_shape@, transpose_a, b_shape@, c_shape@);
        let ghost target = planned(
            dts,
            d,
            transpose_a,
            a_offset as nat,
            transpose_b,
            b_offset as nat,
            c_offset as nat,
        );
        let whole = GemmDispatchParams {
            dts,
            batch: a_batch,
            m,
            n,
            k,
            transpose_a,
            a_offset,
            transpose_b,
            b_offset,
            c_offset,
        };
        if b_batch == 1 && a_batch != 1 && !transpose_a {
            // A's batch and M axes are contiguous in memory: fold them.
            match m.checked_mul(a_batch) {
                Some(folded) => {
                    let r = vec![GemmDispatchParams { batch: 1, m: folded, ..whole }];
                    assert(r@ =~= target);
                    Ok(r)
                },
                None => Err(CoreError::SizeOverflow),
            }
        } else if b_batch == 1 && a_batch != 1 {
            // Transposed A: batch and M are not contiguous, one dispatch per
            // batch index of A.
            per_batch(whole, a_batch, true, Ghost(d))
        } else if a_batch == 1 && b_batch != 1 {
            // One dispatch per batch index of B.
            per_batch(whole, b_batch, false, Ghost(d))
        } else {
            if a_batch != b_batch {
                return Err(CoreError::IncompatibleBatchDims);
            }
            let r = vec![whole];
            assert(r@ =~= target);
            Ok(r)
        }
    }
}

/// Bytes of C that one dispatch writes.
pub open spec fn c_span(d: GemmDispatchParams) -> nat {
    d.batch as nat * d.m as nat * d.n as nat * size_of_spec(d.dts[2])
}

/// Bytes of C that a list of dispatches writes, in total.
pub open spec fn c_spans_total(ds: Seq<GemmDispatchParams>) -> nat
    decreases ds.len(),
{
    if ds.len() == 0 {
        0
    } else {
        c_spans_total(ds.drop_last()) + c_span(ds.last())
    }
}

/// The batch count of the output under broadcasting.
pub open spec fn broadcast_batch(a_batch: nat, b_batch: nat) -> nat {
    if a_batch == 1 {
        b_batch
    } else {
        a_batch
    }
}

/// C's byte ranges of `ds`, taken in order, lie end to end from `c_offset`
/// and together span `total` bytes.
pub open spec fn tiles_output(ds: Seq<GemmDispatchParams>, c_offset: nat, total: nat) -> bool {
    &&& forall|i: int|
        0 <= i < ds.len() ==> #[trigger] ds[i].c_offset == c_offset + c_spans_total(ds.take(i))
    &&& c_spans_total(ds) == total
}

proof fn lemma_per_batch_tiles(
    single: GemmDispatchParams,
    on_a: bool,
    stride: usize,
    count: nat,
    m: nat,
    n: nat,
    sz: nat,
)
    requires
        single.batch == 1,
        single.m == m,
        single.n == n,
        size_of_spec(single.dts[2]) == sz,
        single.c_offset + count * (m * n * sz) <= usize::MAX,
    ensures
        tiles_output(
            Seq::new(count, |i: int| shifted(single, on_a, stride, (m * n * sz) as usize, i)),
            single.c_offset as nat,
            count * (m * n * sz),
        ),
    decreases count,
{
    let c_stride = m * n * sz;
    let ds = Seq::new(count, |i: int| shifted(single, on_a, stride, c_stride as usize, i));
    if count == 0 {
        assert(ds.take(0) =~= ds);
        assert(0 * c_stride == 0) by (nonlinear_arith);
        return;
    }
    assert(c_stride <= usize::MAX) by {
        lemma_mul_grows(c_stride, count);
        assert(count * c_stride == c_stride * count) by (nonlinear_arith);
    }
    assert forall|i: int| 0 <= i <= count implies c_spans_total(#[trigger] ds.take(i)) == i * c_stride by {
        lemma_prefix_spans(single, on_a, stride, c_stride, count, i);
    }
    assert(ds.take(count as int) =~= ds);
    assert forall|i: int| 0 <= i < ds.len() implies #[trigger] ds[i].c_offset == single.c_offset
        + c_spans_total(ds.take(i)) by {
        lemma_mul_le(i as nat, count, c_stride);
    }
}

proof fn lemma_prefix_spans(
    single: GemmDispatchParams,
    on_a: bool,
    stride: usize,
    c_stride: nat,
    count: nat,
    i: int,
)
    requires
        0 <= i <= count,
        single.batch == 1,
        c_stride == single.m as nat * single.n as nat * size_of_spec(single.dts[2]),
        c_stride <= usize::MAX,
    ensures
        c_spans_total(
            Seq::new(count, |j: int| shifted(single, on_a, stride, c_stride as usize, j)).take(i),
        ) == i * c_stride,
    decreases i,
{
    let ds = Seq::new(count, |j: int| shifted(single, on_a, stride, c_stride as usize, j));
    if i > 0 {
        lemma_prefix_spans(single, on_a, stride, c_stride, count, i - 1);
        assert(ds.take(i).drop_last() =~= ds.take(i - 1));
        let last = ds[i - 1];
        assert(last == shifted(single, on_a, stride, c_stride as usize, i - 1));
        assert(last.batch == 1 && last.m == single.m && last.n == single.n && last.dts == single.dts);
        assert(c_span(last) == c_stride);
        assert(ds.take(i).last() == last);
        assert((i - 1) * c_stride + c_stride == i * c_stride) by (nonlinear_arith);
    } else {
        assert(ds.take(0) =~= Seq::<GemmDispatchParams>::empty());
        assert(0 * c_stride == 0) by (nonlinear_arith);
    }
}

/// Coverage of the output: for shapes whose output batch is the broadcast of
/// A's and B's, the C byte ranges of the emitted dispatches lie end to end from
/// C's offset, with no gap and no overlap, and span exactly the whole output
/// buffer (`batch * m * n` elements of C's type).
pub proof fn lemma_dispatches_cover_output(
    dts: [DatumType; 3],
    a_offset: usize,
    a_shape: Seq<usize>,
    transpose_a: bool,
    b_offset: usize,
    b_shape: Seq<usize>,
    transpose_b: bool,
    c_offset: usize,
    c_shape: Seq<usize>,
)
    requires
        dispatch_outcome(
            dts,
            a_offset,
            a_shape,
            transpose_a,
            b_offset,
            b_shape,
            transpose_b,
            c_offset,
            c_shape,
        ) is Ok,
        batch_of(c_shape) == broadcast_batch(batch_of(a_shape), batch_of(b_shape)),
    ensures
        tiles_output(
            dispatch_outcome(
                dts,
                a_offset,
                a_shape,
                transpose_a,
                b_offset,
                b_shape,
                transpose_b,
                c_offset,
                c_shape,
            )->Ok_0,
            c_offset as nat,
            batch_of(c_shape) * gemm_m(c_shape) * gemm_n(c_shape) * size_of_spec(dts[2]),
        ),
{
    let d = gemm_dims(a_shape, transpose_a, b_shape, c_shape);
    let ds = planned(dts, d, transpose_a, a_offset as nat, transpose_b, b_offset as nat, c_offset as nat);
    let sz = size_of_spec(dts[2]);
    let whole = make_params(dts, d.a_batch, d.m, d.k, d.n, transpose_a, a_offset as nat, transpose_b, b_offset as nat, c_offset as nat);
    let single = GemmDispatchParams { batch: 1, ..whole };
    let total = batch_of(c_shape) * d.m * d.n * sz;
    assert(d.a_batch <= usize::MAX && d.b_batch <= usize::MAX);
    match decomposition(d.a_batch, d.b_batch, transpose_a) {
        Decomposition::FoldIntoM => {
            assert(ds.take(0) =~= Seq::<GemmDispatchParams>::empty());
            assert(ds.drop_last() =~= Seq::<GemmDispatchParams>::empty());
            assert(1 * (d.m * d.a_batch) * d.n * sz == d.a_batch * d.m * d.n * sz) by (nonlinear_arith);
            assert(batch_of(c_shape) == d.a_batch);
            assert(c_span(ds.last()) == total);
            assert(c_spans_total(ds) == c_spans_total(ds.drop_last()) + c_span(ds.last()));
            assert(c_spans_total(ds) == total);
            assert(tiles_output(ds, c_offset as nat, total));
        },
        Decomposition::PerBatchOfA => {
            let stride = (d.m * d.k * size_of_spec(dts[0])) as usize;
            lemma_per_batch_tiles(single, true, stride, d.a_batch, d.m, d.n, sz);
            assert(ds =~= Seq::new(d.a_batch, |i: int| shifted(single, true, stride, (d.m * d.n * sz) as usize, i)));
            assert(d.a_batch * (d.m * d.n * sz) == d.a_batch * d.m * d.n * sz) by (nonlinear_arith);
        },
        Decomposition::PerBatchOfB => {
            let stride = (d.n * d.k * size_of_spec(dts[1])) as usize;
            lemma_per_batch_tiles(single, false, stride, d.b_batch, d.m, d.n, sz);
            assert(ds =~= Seq::new(d.b_batch, |i: int| shifted(single, false, stride, (d.m * d.n * sz) as usize, i)));
            assert(d.b_batch * (d.m * d.n * sz) == d.b_batch * d.m * d.n * sz) by (nonlinear_arith);
        },
        Decomposition::Whole => {
            assert(ds.take(0) =~= Seq::<GemmDispatchParams>::empty());
            assert(ds.drop_last() =~= Seq::<GemmDispatchParams>::empty());
            assert(batch_of(c_shape) == d.a_batch);
            assert(c_span(ds.last()) == total);
            assert(c_spans_total(ds) == c_spans_total(ds.drop_last()) + c_span(ds.last()));
            assert(c_spans_total(ds) == total);
            assert(tiles_output(ds, c_offset as nat, total));
        },
    }
}

/// Element position in A of row `i`, step `l` of batch `bc` in a direct
/// batched product over dimensions `d` (A's batch broadcast when it is 1),
/// with A starting at element `a0`.
pub open spec fn ref_a_index(d: GemmDims, a0: int, transpose_a: bool, bc: int, i: int, l: int) -> int {
    let b = if d.a_batch == 1 { 0 } else { bc };
    a0 + b * (d.m * d.k) + if transpose_a { l * d.m + i } else { i * d.k + l }
}

/// Element position in B of step `l`, column `j` of batch `bc` in a direct
/// batched product (B's batch broadcast when it is 1).
pub open spec fn ref_b_index(d: GemmDims, b0: int, transpose_b: bool, bc: int, l: int, j: int) -> int {
    let b = if d.b_batch == 1 { 0 } else { bc };
    b0 + b * (d.k * d.n) + if transpose_b { j * d.k + l } else { l * d.n + j }
}

/// Element position in C of row `i`, column `j` of batch `bc`.
pub open spec fn ref_c_index(d: GemmDims, c0: int, bc: int, i: int, j: int) -> int {
    c0 + bc * (d.m * d.n) + i * d.n + j
}

/// Element position in A that dispatch `p` reads for row `i`, step `l` of its
/// batch `b`.
pub open spec fn disp_a_index(p: GemmDispatchParams, b: int, i: int, l: int) -> int {
    p.a_offset as int / size_of_spec(p.dts[0]) as int + b * (p.m * p.k) + if p.transpose_a {
        l * p.m + i
    } else {
        i * p.k + l
    }
}

pub open spec fn disp_b_index(p: GemmDispatchParams, b: int, l: int, j: int) -> int {
    p.b_offset as int / size_of_spec(p.dts[1]) as int + b * (p.k * p.n) + if p.transpose_b {
        j * p.k + l
    } else {
        l * p.n + j
    }
}

pub open spec fn disp_c_index(p: GemmDispatchParams, b: int, i: int, j: int) -> int {
    p.c_offset as int / size_of_spec(p.dts[2]) as int + b * (p.m * p.n) + i * p.n + j
}

/// Dispatch `p`, at its batch `b` and row `i2`, computes output element
/// (`bc`, `i`, `j`) of the direct product, from the same elements of A and B.
pub open spec fn computes_as_reference(
    p: GemmDispatchParams,
    b: int,
    i2: int,
    d: GemmDims,
    a0: int,
    b0: int,
    c0: int,
    bc: int,
    i: int,
    j: int,
) -> bool {
    &&& 0 <= b < p.batch && 0 <= i2 < p.m && j < p.n && p.k == d.k
    &&& disp_c_index(p, b, i2, j) == ref_c_index(d, c0, bc, i, j)
    &&& forall|l: int|
        0 <= l < d.k ==> #[trigger] disp_a_index(p, b, i2, l) == ref_a_index(d, a0, p.transpose_a, bc, i, l)
            && disp_b_index(p, b, l, j) == ref_b_index(d, b0, p.transpose_b, bc, l, j)
}

proof fn lemma_offset_div(off: int, t: int, stride: int, sz: int)
    requires
        sz > 0,
        off >= 0,
        t >= 0,
        stride >= 0,
        off % sz == 0,
    ensures
        (off + t * (stride * sz)) / sz == off / sz + t * stride,
{
    vstd::arithmetic::div_mod::lemma_fundamental_div_mod(off, sz);
    let q = off / sz;
    assert(off + t * (stride * sz) == (q + t * stride) * sz + 0) by (nonlinear_arith)
        requires
            off == sz * q + off % sz,
            off % sz == 0,
    ;
    vstd::arithmetic::div_mod::lemma_fundamental_div_mod_converse(off + t * (stride * sz), sz, q + t * stride, 0);
}

/// Equivalence with a direct batched product: for shapes whose output batch
/// is the broadcast of A's and B's and offsets that are whole elements, each
/// output element is computed by one emitted dispatch from exactly the
/// elements of A and B that a direct batched product reads for it, in the
/// same order along the contraction axis.
pub proof fn lemma_dispatches_compute_reference(
    dts: [DatumType; 3],
    a_offset: usize,
    a_shape: Seq<usize>,
    transpose_a: bool,
    b_offset: usize,
    b_shape: Seq<usize>,
    transpose_b: bool,
    c_offset: usize,
    c_shape: Seq<usize>,
    bc: int,
    i: int,
    j: int,
)
    requires
        dispatch_outcome(
            dts,
            a_offset,
            a_shape,
            transpose_a,
            b_offset,
            b_shape,
            transpose_b,
            c_offset,
            c_shape,
        ) is Ok,
        batch_of(c_shape) == broadcast_batch(batch_of(a_shape), batch_of(b_shape)),
        a_offset as int % size_of_spec(dts[0]) as int == 0,
        b_offset as int % size_of_spec(dts[1]) as int == 0,
        c_offset as int % size_of_spec(dts[2]) as int == 0,
        0 <= bc < batch_of(c_shape),
        0 <= i < gemm_m(c_shape),
        0 <= j < gemm_n(c_shape),
    ensures
        ({
            let ds = dispatch_outcome(
                dts,
                a_offset,
                a_shape,
                transpose_a,
                b_offset,
                b_shape,
                transpose_b,
                c_offset,
                c_shape,
            )->Ok_0;
            let d = gemm_dims(a_shape, transpose_a, b_shape, c_shape);
            exists|t: int, b: int, i2: int|
                0 <= t < ds.len() && #[trigger] computes_as_reference(
                    ds[t],
                    b,
                    i2,
                    d,
                    a_offset as int / size_of_spec(dts[0]) as int,
                    b_offset as int / size_of_spec(dts[1]) as int,
                    c_offset as int / size_of_spec(dts[2]) as int,
                    bc,
                    i,
                    j,
                )
        }),
{
    let d = gemm_dims(a_shape, transpose_a, b_shape, c_shape);
    let ds = planned(dts, d, transpose_a, a_offset as nat, transpose_b, b_offset as nat, c_offset as nat);
    assert(dispatch_outcome(
        dts,
        a_offset,
        a_shape,
        transpose_a,
        b_offset,
        b_shape,
        transpose_b,
        c_offset,
        c_shape,
    )->Ok_0 == ds);
    let (sa, sb, sc) = (size_of_spec(dts[0]) as int, size_of_spec(dts[1]) as int, size_of_spec(dts[2]) as int);
    let (a0, b0, c0) = (a_offset as int / sa, b_offset as int / sb, c_offset as int / sc);
    let (m, k, n) = (d.m as int, d.k as int, d.n as int);
    assert(sa > 0 && sb > 0 && sc > 0);
    assert(d.a_batch <= usize::MAX && d.b_batch <= usize::MAX);
    lemma_offset_div(a_offset as int, 0, 0, sa);
    lemma_offset_div(b_offset as int, 0, 0, sb);
    lemma_offset_div(c_offset as int, 0, 0, sc);
    match decomposition(d.a_batch, d.b_batch, transpose_a) {
        Decomposition::FoldIntoM => {
            let p = ds[0];
            let i2 = bc * m + i;
            let ab = d.a_batch as int;
            assert(bc < ab);
            assert(0 <= i2 < m * ab) by (nonlinear_arith)
                requires
                    i2 == bc * m + i,
                    0 <= bc < ab,
                    0 <= i < m,
            ;
            assert(p.m == m * d.a_batch);
            assert(disp_c_index(p, 0, i2, j) == ref_c_index(d, c0, bc, i, j)) by (nonlinear_arith)
                requires
                    disp_c_index(p, 0, i2, j) == c0 + 0 * (p.m * p.n) + i2 * n + j,
                    ref_c_index(d, c0, bc, i, j) == c0 + bc * (m * n) + i * n + j,
                    i2 == bc * m + i,
            ;
            assert forall|l: int| 0 <= l < d.k implies #[trigger] disp_a_index(p, 0, i2, l) == ref_a_index(d, a0, p.transpose_a, bc, i, l)
                && disp_b_index(p, 0, l, j) == ref_b_index(d, b0, p.transpose_b, bc, l, j) by {
                assert(disp_a_index(p, 0, i2, l) == ref_a_index(d, a0, p.transpose_a, bc, i, l)) by (nonlinear_arith)
                    requires
                        disp_a_index(p, 0, i2, l) == a0 + 0 * (p.m * k) + (i2 * k + l),
                        ref_a_index(d, a0, p.transpose_a, bc, i, l) == a0 + bc * (m * k) + (i * k + l),
                        i2 == bc * m + i,
                ;
            }
            assert(computes_as_reference(p, 0, i2, d, a0, b0, c0, bc, i, j));
        },
        Decomposition::PerBatchOfA => {
            let p = ds[bc];
            lemma_offset_div(a_offset as int, bc, m * k, sa);
            lemma_offset_div(c_offset as int, bc, m * n, sc);
            assert(bc * (m * k * sa) == bc * ((m * k) * sa) && bc * (m * n * sc) == bc * ((m * n) * sc));
            assert(bc < d.a_batch);
            assert(p.a_offset as int == a_offset + bc * (m * k * sa)) by {
                lemma_mul_le(bc as nat, d.a_batch, (m * k * sa) as nat);
                lemma_mul_grows((m * k * sa) as nat, d.a_batch);
                assert(d.a_batch * ((m * k * sa) as nat) == ((m * k * sa) as nat) * d.a_batch) by (nonlinear_arith);
            }
            assert(p.c_offset as int == c_offset + bc * (m * n * sc)) by {
                lemma_mul_le(bc as nat, d.a_batch, (m * n * sc) as nat);
                lemma_mul_grows((m * n * sc) as nat, d.a_batch);
                assert(d.a_batch * ((m * n * sc) as nat) == ((m * n * sc) as nat) * d.a_batch) by (nonlinear_arith);
            }
            assert(computes_as_reference(p, 0, i, d, a0, b0, c0, bc, i, j));
        },
        Decomposition::PerBatchOfB => {
            let p = ds[bc];
            lemma_offset_div(b_offset as int, bc, k * n, sb);
            lemma_offset_div(c_offset as int, bc, m * n, sc);
            assert(bc < d.b_batch);
            assert(p.b_offset as int == b_offset + bc * (n * k * sb)) by {
                lemma_mul_le(bc as nat, d.b_batch, (n * k * sb) as nat);
                lemma_mul_grows((n * k * sb) as nat, d.b_batch);
                assert(d.b_batch * ((n * k * sb) as nat) == ((n * k * sb) as nat) * d.b_batch) by (nonlinear_arith);
            }
            assert(p.c_offset as int == c_offset + bc * (m * n * sc)) by {
                lemma_mul_le(bc as nat, d.b_batch, (m * n * sc) as nat);
                lemma_mul_grows((m * n * sc) as nat, d.b_batch);
                assert(d.b_batch * ((m * n * sc) as nat) == ((m * n * sc) as nat) * d.b_batch) by (nonlinear_arith);
            }
            assert(n * k * sb == (k * n) * sb) by (nonlinear_arith);
            assert(computes_as_reference(p, 0, i, d, a0, b0, c0, bc, i, j));
        },
        Decomposition::Whole => {
            let p = ds[0];
            assert(d.a_batch == d.b_batch);
            assert(d.a_batch == 1 ==> bc == 0);
            assert(computes_as_reference(p, bc, i, d, a0, b0, c0, bc, i, j));
        },
    }
}

proof fn lemma_spans_prefix_grow(ds: Seq<GemmDispatchParams>, i: int, j: int)
    requires
        0 <= i < j <= ds.len(),
    ensures
        c_spans_total(ds.take(i)) + c_span(ds[i]) <= c_spans_total(ds.take(j)),
    decreases j - i,
{
    assert(ds.take(j).drop_last() =~= ds.take(j - 1));
    assert(ds.take(j).last() == ds[j - 1]);
    if j > i + 1 {
        lemma_spans_prefix_grow(ds, i, j - 1);
    }
}

/// No output byte is written by two dispatches: for shapes whose output batch
/// is the broadcast of A's and B's, the C byte ranges of any two emitted
/// dispatches are disjoint, the earlier one ending where or before the later
/// one starts.
pub proof fn lemma_dispatch_ranges_disjoint(
    dts: [DatumType; 3],
    a_offset: usize,
    a_shape: Seq<usize>,
    transpose_a: bool,
    b_offset: usize,
    b_shape: Seq<usize>,
    transpose_b: bool,
    c_offset: usize,
    c_shape: Seq<usize>,
    i: int,
    j: int,
)
    requires
        dispatch_outcome(
            dts,
            a_offset,
            a_shape,
            transpose_a,
            b_offset,
            b_shape,
            transpose_b,
            c_offset,
            c_shape,
        ) is Ok,
        batch_of(c_shape) == broadcast_batch(batch_of(a_shape), batch_of(b_shape)),
        0 <= i < j < dispatch_outcome(
            dts,
            a_offset,
            a_shape,
            transpose_a,
            b_offset,
            b_shape,
            transpose_b,
            c_offset,
            c_shape,
        )->Ok_0.len(),
    ensures
        ({
            let ds = dispatch_outcome(
                dts,
                a_offset,
                a_shape,
                transpose_a,
                b_offset,
                b_shape,
                transpose_b,
                c_offset,
                c_shape,
            )->Ok_0;
            ds[i].c_offset + c_span(ds[i]) <= ds[j].c_offset
        }),
{
    let ds = dispatch_outcome(
        dts,
        a_offset,
        a_shape,
        transpose_a,
        b_offset,
        b_shape,
        transpose_b,
        c_offset,
        c_shape,
    )->Ok_0;
    lemma_dispatches_cover_output(dts, a_offset, a_shape, transpose_a, b_offset, b_shape, transpose_b, c_offset, c_shape);
    lemma_spans_prefix_grow(ds, i, j);
    assert(ds[i].c_offset == c_offset + c_spans_total(ds.take(i)));
    assert(ds[j].c_offset == c_offset + c_spans_total(ds.take(j)));
}

} // verus!
