//! Packing of an operand into the panel layout a kernel consumes: rows of the
//! free (M or N) axis grouped in panels of `r`, each panel holding, for each
//! step of the contraction (K) axis, `r` consecutive values; rows past the
//! end of the operand are padded.
use vstd::prelude::*;

use vstd::arithmetic::div_mod::{lemma_fundamental_div_mod, lemma_fundamental_div_mod_converse};

use crate::fused::dot;

verus! {

/// Number of panels of `r` rows that hold `mn` rows.
pub open spec fn panel_count(mn: nat, r: nat) -> nat {
    ((mn + r - 1) as nat / r) as nat
}

/// Length of the packed operand.
pub open spec fn packed_len(mn: nat, k: nat, r: nat) -> nat {
    panel_count(mn, r) * r * k
}

/// The operand's value at row `i` of the free axis and step `kk` of the
/// contraction axis, for an operand laid out with the given strides.
pub open spec fn logical_at<T>(src: Seq<T>, i: int, kk: int, mn_stride: nat, k_stride: nat) -> T {
    src[i * mn_stride + kk * k_stride]
}

/// The packed operand: position `q` holds row `(q / r / k) * r + q % r` at
/// step `(q / r) % k`, or `pad` past the last row.
pub open spec fn pack_spec<T>(
    src: Seq<T>,
    r: nat,
    mn: nat,
    k: nat,
    mn_stride: nat,
    k_stride: nat,
    pad: T,
) -> Seq<T> {
    Seq::new(
        packed_len(mn, k, r),
        |q: int|
            {
                let row = (q / r as int) / k as int * r as int + q % r as int;
                if row < mn {
                    logical_at(src, row, (q / r as int) % k as int, mn_stride, k_stride)
                } else {
                    pad
                }
            },
    )
}

/// Position in the packed operand of row `i`, step `kk`.
pub open spec fn packed_index(i: int, kk: int, r: nat, k: nat) -> int {
    ((i / r as int) * k as int + kk) * r as int + i % r as int
}

/// The packed operand read back row by row: row-major, `mn` rows of `k`.
pub open spec fn unpack_spec<T>(packed: Seq<T>, r: nat, mn: nat, k: nat) -> Seq<T> {
    Seq::new(mn * k, |idx: int| packed[packed_index(idx / k as int, idx % k as int, r, k)])
}

/// The operand read row by row through its strides.
pub open spec fn logical_rows<T>(src: Seq<T>, mn: nat, k: nat, mn_stride: nat, k_stride: nat) -> Seq<T> {
    Seq::new(mn * k, |idx: int| logical_at(src, idx / k as int, idx % k as int, mn_stride, k_stride))
}

/// Every element the operand addresses lies in `src`.
pub open spec fn addressable(len: nat, mn: nat, k: nat, mn_stride: nat, k_stride: nat) -> bool {
    mn == 0 || k == 0 || (mn - 1) * mn_stride + (k - 1) * k_stride < len
}

proof fn lemma_packed_index(i: int, kk: int, r: nat, k: nat, mn: nat)
    requires
        r > 0,
        k > 0,
        0 <= i < mn,
        0 <= kk < k,
    ensures
        0 <= packed_index(i, kk, r, k) < packed_len(mn, k, r),
        packed_index(i, kk, r, k) % r as int == i % r as int,
        packed_index(i, kk, r, k) / r as int == (i / r as int) * k as int + kk,
        (packed_index(i, kk, r, k) / r as int) % k as int == kk,
        (packed_index(i, kk, r, k) / r as int) / k as int == i / r as int,
        (i / r as int) * r as int + i % r as int == i,
{
    let (ri, ki) = (r as int, k as int);
    let p = i / ri;
    let x = i % ri;
    lemma_fundamental_div_mod(i, ri);
    assert(0 <= x < ri) by {
        vstd::arithmetic::div_mod::lemma_mod_pos_bound(i, ri);
    }
    assert(p >= 0) by {
        vstd::arithmetic::div_mod::lemma_div_pos_is_pos(i, ri);
    }
    let t = p * ki + kk;
    let q = t * ri + x;
    lemma_fundamental_div_mod_converse(q, ri, t, x);
    lemma_fundamental_div_mod_converse(t, ki, p, kk);
    assert(p * ri + x == i) by (nonlinear_arith)
        requires
            i == ri * p + x,
    ;
    // the panel of row i exists
    let pc = panel_count(mn, r) as int;
    lemma_fundamental_div_mod(mn + ri - 1, ri);
    vstd::arithmetic::div_mod::lemma_mod_pos_bound(mn + ri - 1, ri);
    assert(p < pc) by (nonlinear_arith)
        requires
            i == ri * p + x,
            0 <= x,
            i < mn,
            mn + ri - 1 == ri * pc + (mn + ri - 1) % ri,
            (mn + ri - 1) % ri < ri,
            ri > 0,
    ;
    assert(0 <= q < pc * ri * ki) by (nonlinear_arith)
        requires
            q == (p * ki + kk) * ri + x,
            0 <= p < pc,
            0 <= kk < ki,
            0 <= x < ri,
            ri > 0,
            ki > 0,
    ;
}

/// Packing round trip: reading the packed operand back row by row gives the
/// operand's values, for any panel width, sizes and strides.
pub proof fn lemma_pack_round_trip<T>(
    src: Seq<T>,
    r: nat,
    mn: nat,
    k: nat,
    mn_stride: nat,
    k_stride: nat,
    pad: T,
)
    requires
        r > 0,
    ensures
        unpack_spec(pack_spec(src, r, mn, k, mn_stride, k_stride, pad), r, mn, k) == logical_rows(
            src,
            mn,
            k,
            mn_stride,
            k_stride,
        ),
{
    let packed = pack_spec(src, r, mn, k, mn_stride, k_stride, pad);
    let lhs = unpack_spec(packed, r, mn, k);
    let rhs = logical_rows(src, mn, k, mn_stride, k_stride);
    assert forall|idx: int| 0 <= idx < mn * k implies lhs[idx] == rhs[idx] by {
        let ki = k as int;
        assert(ki > 0) by (nonlinear_arith)
            requires
                0 <= idx < mn as int * ki,
                ki >= 0,
        ;
        let i = idx / ki;
        let kk = idx % ki;
        lemma_fundamental_div_mod(idx, ki);
        vstd::arithmetic::div_mod::lemma_mod_pos_bound(idx, ki);
        vstd::arithmetic::div_mod::lemma_div_pos_is_pos(idx, ki);
        assert(i < mn) by (nonlinear_arith)
            requires
                idx == ki * i + kk,
                0 <= kk,
                idx < mn * ki,
                ki > 0,
        ;
        lemma_packed_index(i, kk, r, k, mn);
    }
    assert(lhs =~= rhs);
}

/// Packs an `mn` by `k` operand, read through its strides, into panels of
/// `r` rows, padding the last panel with `pad`.
pub fn pack<T: Copy>(
    src: &Vec<T>,
    r: usize,
    mn: usize,
    k: usize,
    mn_stride: usize,
    k_stride: usize,
    pad: T,
) -> (out: Vec<T>)
    requires
        r > 0,
        mn + r - 1 <= usize::MAX,
        packed_len(mn as nat, k as nat, r as nat) <= usize::MAX,
        addressable(src@.len(), mn as nat, k as nat, mn_stride as nat, k_stride as nat),
    ensures
        out@ == pack_spec(src@, r as nat, mn as nat, k as nat, mn_stride as nat, k_stride as nat, pad),
{
    let panels = (mn + (r - 1)) / r;
    proof {
        lemma_fundamental_div_mod((mn + r - 1) as int, r as int);
        vstd::arithmetic::div_mod::lemma_mod_pos_bound((mn + r - 1) as int, r as int);
        assert(panels * r <= mn + r - 1) by (nonlinear_arith)
            requires
                mn + r - 1 == r * panels + (mn + r - 1) % (r as int),
                (mn + r - 1) % (r as int) >= 0,
        ;
    }
    let len = panels * r * k;
    let src_len = src.len();
    let ghost target = pack_spec(src@, r as nat, mn as nat, k as nat, mn_stride as nat, k_stride as nat, pad);
    let mut out: Vec<T> = Vec::new();
    let mut q: usize = 0;
    while q < len
        invariant
            r > 0,
            len == packed_len(mn as nat, k as nat, r as nat),
            target == pack_spec(src@, r as nat, mn as nat, k as nat, mn_stride as nat, k_stride as nat, pad),
            src_len == src@.len(),
            addressable(src@.len(), mn as nat, k as nat, mn_stride as nat, k_stride as nat),
            q <= len,
            out@.len() == q,
            forall|j: int| 0 <= j < q ==> out@[j] == target[j],
        decreases len - q,
    {
        assert(k > 0) by (nonlinear_arith)
            requires
                q < len,
                len == panel_count(mn as nat, r as nat) * r * k,
        ;
        let x = q % r;
        let t = q / r;
        let kk = t % k;
        let p = t / k;
        proof {
            lemma_fundamental_div_mod(q as int, r as int);
            lemma_fundamental_div_mod(t as int, k as int);
            assert(p * r + x <= q) by (nonlinear_arith)
                requires
                    q == r * t + x,
                    t == k * p + kk,
                    kk >= 0,
                    x >= 0,
                    k > 0,
                    r > 0,
            ;
        }
        let row = p * r + x;
        if row < mn {
            proof {
                assert(kk < k) by {
                    vstd::arithmetic::div_mod::lemma_mod_pos_bound(t as int, k as int);
                }
                assert(row * mn_stride + kk * k_stride <= (mn - 1) * mn_stride + (k - 1) * k_stride)
                    by (nonlinear_arith)
                    requires
                        row < mn,
                        kk < k,
                ;
            }
            out.push(src[row * mn_stride + kk * k_stride]);
        } else {
            out.push(pad);
        }
        q = q + 1;
    }
    assert(out@ =~= target);
    out
}

/// Reads a packed operand back row by row.
pub fn unpack<T: Copy>(packed: &Vec<T>, r: usize, mn: usize, k: usize) -> (out: Vec<T>)
    requires
        r > 0,
        packed@.len() == packed_len(mn as nat, k as nat, r as nat),
        mn * k <= usize::MAX,
    ensures
        out@ == unpack_spec(packed@, r as nat, mn as nat, k as nat),
{
    let total = mn * k;
    let packed_len_exec = packed.len();
    let ghost target = unpack_spec(packed@, r as nat, mn as nat, k as nat);
    let mut out: Vec<T> = Vec::new();
    let mut idx: usize = 0;
    while idx < total
        invariant
            r > 0,
            total == mn * k,
            packed_len_exec == packed@.len(),
            packed@.len() == packed_len(mn as nat, k as nat, r as nat),
            target == unpack_spec(packed@, r as nat, mn as nat, k as nat),
            idx <= total,
            out@.len() == idx,
            forall|j: int| 0 <= j < idx ==> out@[j] == target[j],
        decreases total - idx,
    {
        assert(k > 0) by (nonlinear_arith)
            requires
                idx < total,
                total == mn * k,
        ;
        let i = idx / k;
        let kk = idx % k;
        proof {
            lemma_fundamental_div_mod(idx as int, k as int);
            vstd::arithmetic::div_mod::lemma_mod_pos_bound(idx as int, k as int);
            assert(i < mn) by (nonlinear_arith)
                requires
                    idx == k * i + kk,
                    0 <= kk,
                    idx < mn * k,
                    k > 0,
            ;
            lemma_packed_index(i as int, kk as int, r as nat, k as nat, mn as nat);
            lemma_fundamental_div_mod(packed_index(i as int, kk as int, r as nat, k as nat), r as int);
            let pi = packed_index(i as int, kk as int, r as nat, k as nat);
            assert(((i / r) * k + kk) * r <= pi);
            assert((i / r) * k + kk <= ((i / r) * k + kk) * r) by (nonlinear_arith)
                requires
                    r > 0,
                    kk >= 0,
                    i / r >= 0,
                    k > 0,
            ;
        }
        let pk = (i / r) * k + kk;
        let q = pk * r + i % r;
        out.push(packed[q]);
        idx = idx + 1;
    }
    assert(out@ =~= target);
    out
}

/// Sum over the first `steps` steps of A's row `row` times B's column `col`,
/// read through their strides, wrapping as i32 arithmetic does.
pub open spec fn reference_dot(
    a: Seq<i32>,
    a_strides: (nat, nat),
    row: int,
    b: Seq<i32>,
    b_strides: (nat, nat),
    col: int,
    steps: nat,
) -> i32
    decreases steps,
{
    if steps == 0 {
        0
    } else {
        let l = steps - 1;
        reference_dot(a, a_strides, row, b, b_strides, col, (steps - 1) as nat).wrapping_add(
            logical_at(a, row, l, a_strides.0, a_strides.1).wrapping_mul(
                logical_at(b, col, l, b_strides.0, b_strides.1),
            ),
        )
    }
}

/// Panel `p` of a packed operand: `r` rows by `k` steps.
pub open spec fn panel<T>(packed: Seq<T>, p: nat, r: nat, k: nat) -> Seq<T> {
    packed.subrange((p * r * k) as int, ((p + 1) * r * k) as int)
}

proof fn lemma_panel_element<T>(
    src: Seq<T>,
    r: nat,
    mn: nat,
    k: nat,
    strides: (nat, nat),
    pad: T,
    p: nat,
    x: nat,
    l: nat,
)
    requires
        r > 0,
        x < r,
        l < k,
        p * r + x < mn,
    ensures
        (p + 1) * r * k <= packed_len(mn, k, r),
        panel(pack_spec(src, r, mn, k, strides.0, strides.1, pad), p, r, k)[(l * r + x) as int] == logical_at(
            src,
            (p * r + x) as int,
            l as int,
            strides.0,
            strides.1,
        ),
{
    let row = (p * r + x) as int;
    let (ri, ki, pi, xi, li) = (r as int, k as int, p as int, x as int, l as int);
    lemma_fundamental_div_mod_converse(row, ri, pi, xi);
    lemma_packed_index(row, li, r, k, mn);
    let q = packed_index(row, li, r, k);
    let rk = ri * ki;
    assert(rk > 0) by (nonlinear_arith)
        requires
            ri > 0,
            li < ki,
            li >= 0,
            rk == ri * ki,
    ;
    assert(q == pi * rk + (li * ri + xi)) by (nonlinear_arith)
        requires
            q == (pi * ki + li) * ri + xi,
            rk == ri * ki,
    ;
    assert(li * ri + xi < rk) by (nonlinear_arith)
        requires
            0 <= li < ki,
            0 <= xi < ri,
            rk == ri * ki,
    ;
    let pc = panel_count(mn, r) as int;
    assert(packed_len(mn, k, r) == pc * rk) by (nonlinear_arith)
        requires
            packed_len(mn, k, r) == pc * ri * ki,
            rk == ri * ki,
    ;
    assert((pi + 1) * rk <= pc * rk) by (nonlinear_arith)
        requires
            pi * rk <= q,
            q < pc * rk,
            rk > 0,
            pi >= 0,
    ;
    assert((p + 1) * r * k == (pi + 1) * rk) by (nonlinear_arith)
        requires
            rk == ri * ki,
            pi == p,
            ri == r,
            ki == k,
    ;
    assert(p * r * k == pi * rk) by (nonlinear_arith)
        requires
            rk == ri * ki,
            pi == p,
            ri == r,
            ki == k,
    ;
    assert(l * r + x == li * ri + xi);
    let packed = pack_spec(src, r, mn, k, strides.0, strides.1, pad);
    assert(packed.len() == packed_len(mn, k, r));
    assert((p + 1) * r * k <= packed.len());
    assert(p * r * k + (l * r + x) == q);
    assert(p * r * k <= (p + 1) * r * k) by (nonlinear_arith);
    assert((l * r + x) < (p + 1) * r * k - p * r * k) by (nonlinear_arith)
        requires
            li * ri + xi < rk,
            rk == ri * ki,
            pi == p,
            ri == r,
            ki == k,
            li == l,
            xi == x,
    ;
    let pan = panel(packed, p, r, k);
    assert(pan == packed.subrange((p * r * k) as int, ((p + 1) * r * k) as int));
    assert(pan[(l * r + x) as int] == packed[q]);
}

/// Feeding packed panels to the kernel: the product that the kernel's
/// multiply-accumulate step computes at tile position (`x`, `y`) from panel
/// `p` of packed A and panel `q` of packed B equals the product of A's row
/// `p * mr + x` by B's column `q * nr + y` on the unpacked operands.
pub proof fn lemma_packed_product_matches_reference(
    a: Seq<i32>,
    m: nat,
    a_strides: (nat, nat),
    b: Seq<i32>,
    n: nat,
    b_strides: (nat, nat),
    k: nat,
    mr: nat,
    nr: nat,
    p: nat,
    q: nat,
    x: nat,
    y: nat,
    steps: nat,
)
    requires
        mr > 0,
        nr > 0,
        x < mr,
        y < nr,
        p * mr + x < m,
        q * nr + y < n,
        steps <= k,
    ensures
        dot(
            panel(pack_spec(a, mr, m, k, a_strides.0, a_strides.1, 0i32), p, mr, k),
            panel(pack_spec(b, nr, n, k, b_strides.0, b_strides.1, 0i32), q, nr, k),
            mr,
            nr,
            x as int,
            y as int,
            steps,
        ) == reference_dot(a, a_strides, (p * mr + x) as int, b, b_strides, (q * nr + y) as int, steps),
    decreases steps,
{
    if steps > 0 {
        let l = (steps - 1) as nat;
        lemma_packed_product_matches_reference(a, m, a_strides, b, n, b_strides, k, mr, nr, p, q, x, y, l);
        lemma_panel_element(a, mr, m, k, a_strides, 0i32, p, x, l);
        lemma_panel_element(b, nr, n, k, b_strides, 0i32, q, y, l);
    }
}

} // verus!
