//! Fused kernel invocation: one call runs an ordered list of primitive steps
//! over an accumulator tile, reading packed operand panels and writing only
//! the destination tile.
use vstd::prelude::*;

verus! {

/// One primitive step of a fused kernel invocation.
#[derive(Debug, Clone, Copy, PartialEq, Eq, Hash, Structural)]
pub enum FusedSpec {
    /// Sets the accumulator to zero.
    Clear,
    /// Adds the product of the A panel (`mr` rows) by the B panel (`nr`
    /// columns) over `k` steps of the contraction axis.
    AddMatMul { k: usize },
    /// Adds a constant to every accumulator value.
    ScalarAdd(i32),
    /// Replaces negative accumulator values by zero.
    Relu,
    /// Copies the accumulator to the destination tile.
    Store,
}

/// Sum over the first `k` steps of `a[l * mr + i] * b[l * nr + j]`, wrapping
/// as the kernel's i32 arithmetic does.
pub open spec fn dot(a: Seq<i32>, b: Seq<i32>, mr: nat, nr: nat, i: int, j: int, k: nat) -> i32
    decreases k,
{
    if k == 0 {
        0
    } else {
        let l = k - 1;
        dot(a, b, mr, nr, i, j, (k - 1) as nat).wrapping_add(
            a[l * mr + i].wrapping_mul(b[l * nr + j]),
        )
    }
}

/// The accumulator after one step (`Store` leaves it as it is).
pub open spec fn step_acc(acc: Seq<i32>, op: FusedSpec, a: Seq<i32>, b: Seq<i32>, mr: nat, nr: nat) -> Seq<i32> {
    match op {
        FusedSpec::Clear => Seq::new(acc.len(), |x: int| 0i32),
        FusedSpec::AddMatMul { k } => Seq::new(
            acc.len(),
            |x: int| acc[x].wrapping_add(dot(a, b, mr, nr, x / nr as int, x % nr as int, k as nat)),
        ),
        FusedSpec::ScalarAdd(v) => Seq::new(acc.len(), |x: int| acc[x].wrapping_add(v)),
        FusedSpec::Relu => Seq::new(acc.len(), |x: int| if acc[x] < 0 { 0i32 } else { acc[x] }),
        FusedSpec::Store => acc,
    }
}

/// Accumulator and destination after the first `n` steps, from a cleared
/// accumulator and the destination `out`.
pub open spec fn run_spec(
    ops: Seq<FusedSpec>,
    n: nat,
    a: Seq<i32>,
    b: Seq<i32>,
    mr: nat,
    nr: nat,
    out: Seq<i32>,
) -> (Seq<i32>, Seq<i32>)
    decreases n,
{
    if n == 0 {
        (Seq::new(mr * nr, |x: int| 0i32), out)
    } else {
        let (acc, o) = run_spec(ops, (n - 1) as nat, a, b, mr, nr, out);
        let op = ops[n - 1];
        (step_acc(acc, op, a, b, mr, nr), if op == FusedSpec::Store { acc } else { o })
    }
}

/// Every product step reads inside the panels.
pub open spec fn panels_cover(ops: Seq<FusedSpec>, a_len: nat, b_len: nat, mr: nat, nr: nat) -> bool {
    forall|t: int|
        0 <= t < ops.len() ==> (#[trigger] ops[t] matches FusedSpec::AddMatMul { k } ==> k * mr <= a_len && k
            * nr <= b_len)
}

fn dot_exec(a: &Vec<i32>, b: &Vec<i32>, mr: usize, nr: usize, i: usize, j: usize, k: usize) -> (r: i32)
    requires
        i < mr,
        j < nr,
        k * mr <= a@.len(),
        k * nr <= b@.len(),
    ensures
        r == dot(a@, b@, mr as nat, nr as nat, i as int, j as int, k as nat),
{
    let mut s: i32 = 0;
    let mut l: usize = 0;
    let a_len = a.len();
    let b_len = b.len();
    while l < k
        invariant
            a_len == a@.len(),
            b_len == b@.len(),
            i < mr,
            j < nr,
            k * mr <= a@.len(),
            k * nr <= b@.len(),
            l <= k,
            s == dot(a@, b@, mr as nat, nr as nat, i as int, j as int, l as nat),
        decreases k - l,
    {
        proof {
            assert(l * mr + i < k * mr) by (nonlinear_arith)
                requires
                    l < k,
                    i < mr,
            ;
            assert(l * nr + j < k * nr) by (nonlinear_arith)
                requires
                    l < k,
                    j < nr,
            ;
        }
        s = s.wrapping_add(a[l * mr + i].wrapping_mul(b[l * nr + j]));
        l = l + 1;
    }
    s
}

fn apply_step(acc: &mut Vec<i32>, op: FusedSpec, a: &Vec<i32>, b: &Vec<i32>, mr: usize, nr: usize)
    requires
        old(acc)@.len() == mr * nr,
        op matches FusedSpec::AddMatMul { k } ==> k * mr <= a@.len() && k * nr <= b@.len(),
    ensures
        final(acc)@ == step_acc(old(acc)@, op, a@, b@, mr as nat, nr as nat),
{
    let ghost start = acc@;
    let ghost target = step_acc(start, op, a@, b@, mr as nat, nr as nat);
    let len = acc.len();
    let mut x: usize = 0;
    while x < len
        invariant
            len == acc@.len() == start.len() == mr * nr,
            target == step_acc(start, op, a@, b@, mr as nat, nr as nat),
            op matches FusedSpec::AddMatMul { k } ==> k * mr <= a@.len() && k * nr <= b@.len(),
            x <= len,
            forall|y: int| 0 <= y < x ==> acc@[y] == target[y],
            forall|y: int| x <= y < len ==> acc@[y] == start[y],
        decreases len - x,
    {
        let v = acc[x];
        let nv = match op {
            FusedSpec::Clear => 0i32,
            FusedSpec::AddMatMul { k } => {
                proof {
                    vstd::arithmetic::div_mod::lemma_fundamental_div_mod(x as int, nr as int);
                    vstd::arithmetic::div_mod::lemma_mod_pos_bound(x as int, nr as int);
                    vstd::arithmetic::div_mod::lemma_div_pos_is_pos(x as int, nr as int);
                    assert(x / nr < mr) by (nonlinear_arith)
                        requires
                            x == nr * (x / nr) + x % nr,
                            x % nr >= 0,
                            x < mr * nr,
                            nr > 0,
                    ;
                }
                v.wrapping_add(dot_exec(a, b, mr, nr, x / nr, x % nr, k))
            },
            FusedSpec::ScalarAdd(c) => v.wrapping_add(c),
            FusedSpec::Relu => if v < 0 { 0i32 } else { v },
            FusedSpec::Store => v,
        };
        acc.set(x, nv);
        x = x + 1;
    }
    assert(acc@ =~= target);
}

/// Runs the steps in order on a cleared `mr` by `nr` accumulator. Each
/// `Store` copies the accumulator to `out`; nothing else is written, and the
/// operand panels are only read.
pub fn run_fused(ops: &Vec<FusedSpec>, a: &Vec<i32>, b: &Vec<i32>, mr: usize, nr: usize, out: &mut Vec<i32>)
    requires
        mr * nr <= usize::MAX,
        old(out)@.len() == mr * nr,
        panels_cover(ops@, a@.len(), b@.len(), mr as nat, nr as nat),
    ensures
        final(out)@ == run_spec(ops@, ops@.len(), a@, b@, mr as nat, nr as nat, old(out)@).1,
{
    let ghost out0 = out@;
    let mut acc: Vec<i32> = Vec::new();
    let size = mr * nr;
    let mut z: usize = 0;
    while z < size
        invariant
            size == mr * nr,
            z <= size,
            acc@ =~= Seq::new(z as nat, |x: int| 0i32),
        decreases size - z,
    {
        acc.push(0);
        z = z + 1;
    }
    let mut t: usize = 0;
    while t < ops.len()
        invariant
            size == mr * nr,
            t <= ops@.len(),
            panels_cover(ops@, a@.len(), b@.len(), mr as nat, nr as nat),
            out0 == old(out)@,
            (acc@, out@) == run_spec(ops@, t as nat, a@, b@, mr as nat, nr as nat, out0),
            acc@.len() == size,
            out@.len() == size,
        decreases ops@.len() - t,
    {
        let op = ops[t];
        assert(ops@[t as int] == op);
        if let FusedSpec::Store = op {
            let mut x: usize = 0;
            while x < size
                invariant
                    size == acc@.len(),
                    x <= size,
                    out@.len() == size,
                    forall|y: int| 0 <= y < x ==> out@[y] == acc@[y],
                decreases size - x,
            {
                out.set(x, acc[x]);
                x = x + 1;
            }
            assert(out@ =~= acc@);
        }
        apply_step(&mut acc, op, a, b, mr, nr);
        t = t + 1;
    }
}

} // verus!
