//! Tiled executor for element-wise binary operations over two buffers whose
//! base addresses may be misaligned: an unaligned prefix and a short tail go
//! through scratch storage, the aligned bulk runs in place, tile by tile.
use vstd::prelude::*;

use core::marker::PhantomData;

use crate::datum::DatumType;
use crate::error::CoreError;

verus! {

/// An element type that the linear-algebra kernels handle.
pub trait LADatum: Copy {
    fn datum_type() -> DatumType;
}

impl LADatum for i32 {
    fn datum_type() -> DatumType {
        DatumType::I32
    }
}

/// `a[i]` replaced by `op(a[i], b[i])` for `i` in `from..to`, the rest kept.
pub open spec fn applied_on<T>(
    old_a: Seq<T>,
    new_a: Seq<T>,
    b: Seq<T>,
    from: int,
    to: int,
    op: spec_fn(T, T) -> T,
) -> bool {
    &&& new_a.len() == old_a.len()
    &&& forall|i: int| from <= i < to ==> #[trigger] new_a[i] == op(old_a[i], b[i])
    &&& forall|i: int| 0 <= i < old_a.len() && !(from <= i < to) ==> #[trigger] new_a[i] == old_a[i]
}

/// A fixed-width element-wise kernel: `nr` elements per tile, buffers
/// expected aligned to `alignment_items` elements.
pub trait UnicastKer<T: LADatum> {
    /// The element-wise function the kernel computes.
    spec fn op(x: T, y: T) -> T;

    fn name() -> &'static str;

    /// Width of the kernel's tile.
    spec fn tile() -> nat;

    fn nr() -> (r: usize)
        ensures
            r == Self::tile(),
            r > 0,
    ;

    fn alignment_items() -> (r: usize)
        ensures
            1 <= r <= 64,
    ;

    fn alignment_bytes() -> (r: usize)
        ensures
            r > 0,
    {
        Self::alignment_items() * T::datum_type().size_of()
    }

    /// Computes `a[i] = op(a[i], b[i])` for `i` in `from..from + len`, a
    /// whole number of tiles.
    fn run(a: &mut Vec<T>, b: &Vec<T>, from: usize, len: usize)
        requires
            len > 0,
            len as int % Self::tile() as int == 0,
            from + len <= old(a)@.len(),
            from + len <= b@.len(),
        ensures
            applied_on(old(a)@, final(a)@, b@, from as int, from + len, |x: T, y: T| Self::op(x, y)),
    ;
}

/// Scratch storage of one execution context: operands of an incomplete tile
/// are copied there, computed on, and copied back.
pub struct TempBuffers<T> {
    pub a: Vec<T>,
    pub b: Vec<T>,
}

impl<T> TempBuffers<T> {
    pub fn new() -> (r: Self)
        ensures
            r.a@.len() == 0,
            r.b@.len() == 0,
    {
        TempBuffers { a: Vec::new(), b: Vec::new() }
    }
}

/// Number of elements from a buffer's start (at byte address `addr`) to the
/// first address aligned to `alignment_bytes`, capped at the buffer's length.
/// An address from which no element boundary is aligned gives the length.
pub open spec fn prefix_len_spec(addr: nat, elem_size: nat, alignment_bytes: nat, len: nat) -> nat {
    let rem = addr % alignment_bytes;
    let gap: nat = (alignment_bytes - rem) as nat;
    let offset = if rem == 0 {
        0
    } else if gap % elem_size == 0 {
        gap / elem_size
    } else {
        len
    };
    if offset < len {
        offset
    } else {
        len
    }
}

pub fn unaligned_prefix_len(addr: usize, elem_size: usize, alignment_bytes: usize, len: usize) -> (r:
    usize)
    requires
        elem_size > 0,
        alignment_bytes > 0,
    ensures
        r == prefix_len_spec(addr as nat, elem_size as nat, alignment_bytes as nat, len as nat),
{
    let rem = addr % alignment_bytes;
    let offset = if rem == 0 {
        0
    } else if (alignment_bytes - rem) % elem_size == 0 {
        (alignment_bytes - rem) / elem_size
    } else {
        len
    };
    if offset < len {
        offset
    } else {
        len
    }
}

/// Length of the incomplete leading tile: where one buffer is aligned, the
/// whole unaligned prefix of the other; where both are unaligned, the shorter
/// of the two prefixes.
pub open spec fn incomplete_tile_len(a_prefix_len: nat, b_prefix_len: nat) -> nat {
    if a_prefix_len == 0 || b_prefix_len == 0 {
        if a_prefix_len >= b_prefix_len {
            a_prefix_len
        } else {
            b_prefix_len
        }
    } else if a_prefix_len <= b_prefix_len {
        a_prefix_len
    } else {
        b_prefix_len
    }
}

pub fn create_incomplete_tile(a_prefix_len: usize, b_prefix_len: usize) -> (r: usize)
    ensures
        r == incomplete_tile_len(a_prefix_len as nat, b_prefix_len as nat),
{
    if a_prefix_len == 0 || b_prefix_len == 0 {
        // One of the two buffers is aligned: the tile covers every unaligned
        // element of the other.
        if a_prefix_len >= b_prefix_len {
            a_prefix_len
        } else {
            b_prefix_len
        }
    } else {
        // Both are unaligned: the common part of the two prefixes.
        if a_prefix_len <= b_prefix_len {
            a_prefix_len
        } else {
            b_prefix_len
        }
    }
}

/// Runs the kernel on `a[from..from + len]`, at most one tile, through the
/// scratch buffers: the operands are copied there and padded to a whole
/// tile, the kernel runs on the tile, and the first `len` results are copied
/// back.
fn compute_tile<T: LADatum, K: UnicastKer<T>>(
    a: &mut Vec<T>,
    b: &Vec<T>,
    from: usize,
    len: usize,
    tmp: &mut TempBuffers<T>,
)
    requires
        0 < len <= K::tile(),
        from + len <= old(a)@.len(),
        from + len <= b@.len(),
    ensures
        applied_on(old(a)@, final(a)@, b@, from as int, from + len, |x: T, y: T| K::op(x, y)),
{
    let nr = K::nr();
    tmp.a.clear();
    tmp.b.clear();
    let a_len = a.len();
    let mut i: usize = 0;
    while i < len
        invariant
            from + len <= a@.len() == a_len,
            from + len <= b@.len(),
            i <= len,
            tmp.a@ =~= a@.subrange(from as int, from + i),
            tmp.b@ =~= b@.subrange(from as int, from + i),
        decreases len - i,
    {
        tmp.a.push(a[from + i]);
        tmp.b.push(b[from + i]);
        i = i + 1;
    }
    // pad to a whole tile; the padding's results are dropped
    let pad_a = a[from];
    let pad_b = b[from];
    while i < nr
        invariant
            len <= i <= nr,
            tmp.a@.len() == i,
            tmp.b@.len() == i,
            tmp.a@.subrange(0, len as int) =~= a@.subrange(from as int, from + len),
            tmp.b@.subrange(0, len as int) =~= b@.subrange(from as int, from + len),
        decreases nr - i,
    {
        tmp.a.push(pad_a);
        tmp.b.push(pad_b);
        i = i + 1;
    }
    let ghost staged = tmp.a@;
    proof {
        assert(nr as int % K::tile() as int == 0) by {
            vstd::arithmetic::div_mod::lemma_mod_self_0(nr as int);
        }
    }
    K::run(&mut tmp.a, &tmp.b, 0, nr);
    let ghost start = a@;
    let mut j: usize = 0;
    while j < len
        invariant
            from + len <= a@.len() == a_len,
            from + len <= b@.len(),
            j <= len <= nr,
            tmp.a@.len() == nr,
            tmp.b@.len() == nr,
            staged.len() == nr,
            staged.subrange(0, len as int) == start.subrange(from as int, from + len),
            tmp.b@.subrange(0, len as int) == b@.subrange(from as int, from + len),
            applied_on(staged, tmp.a@, tmp.b@, 0, nr as int, |x: T, y: T| K::op(x, y)),
            applied_on(start, a@, b@, from as int, from + j, |x: T, y: T| K::op(x, y)),
        decreases len - j,
    {
        let v = tmp.a[j];
        proof {
            assert(staged.subrange(0, len as int)[j as int] == staged[j as int]);
            assert(tmp.b@.subrange(0, len as int)[j as int] == tmp.b@[j as int]);
            assert(staged[j as int] == start[from + j]);
            assert(tmp.b@[j as int] == b@[from + j]);
            assert(v == K::op(start[from + j], b@[from + j]));
        }
        a.set(from + j, v);
        j = j + 1;
    }
}

/// Runs the kernel on `a[from..from + len]` through the scratch buffers, one
/// tile at a time.
fn compute_via_temp_buffer<T: LADatum, K: UnicastKer<T>>(
    a: &mut Vec<T>,
    b: &Vec<T>,
    from: usize,
    len: usize,
    tmp: &mut TempBuffers<T>,
)
    requires
        from + len <= old(a)@.len(),
        from + len <= b@.len(),
    ensures
        applied_on(old(a)@, final(a)@, b@, from as int, from + len, |x: T, y: T| K::op(x, y)),
{
    let ghost start = a@;
    let nr = K::nr();
    let a_len = a.len();
    let mut done: usize = 0;
    while done < len
        invariant
            a_len == start.len(),
            nr == K::tile(),
            nr > 0,
            from + len <= start.len(),
            from + len <= b@.len(),
            done <= len,
            applied_on(start, a@, b@, from as int, from + done, |x: T, y: T| K::op(x, y)),
        decreases len - done,
    {
        let chunk = if len - done < nr {
            len - done
        } else {
            nr
        };
        let ghost before = a@;
        compute_tile::<T, K>(a, b, from + done, chunk, tmp);
        assert forall|i: int| 0 <= i < start.len() implies #[trigger] a@[i] == (if from <= i < from + done + chunk {
            K::op(start[i], b@[i])
        } else {
            start[i]
        }) by {
            if from + done <= i < from + done + chunk {
                assert(before[i] == start[i]);
            }
        }
        done = done + chunk;
    }
}

/// `a[i] = op(a[i], b[i])` over the whole buffers, for buffers whose first
/// `a_prefix_len` (resp. `b_prefix_len`) elements lie before their first
/// aligned address.
pub fn unicast_with_alignment<T: LADatum, K: UnicastKer<T>>(
    a: &mut Vec<T>,
    b: &Vec<T>,
    a_prefix_len: usize,
    b_prefix_len: usize,
    tmp: &mut TempBuffers<T>,
)
    requires
        old(a)@.len() == b@.len(),
        a_prefix_len <= old(a)@.len(),
        b_prefix_len <= b@.len(),
    ensures
        applied_on(old(a)@, final(a)@, b@, 0, old(a)@.len() as int, |x: T, y: T| K::op(x, y)),
{
    let ghost start = a@;
    if a.len() == 0 {
        return;
    }
    let nr = K::nr();
    let mut num_element_processed: usize = 0;
    let mut applied_prefix_len: usize = 0;
    if a_prefix_len > 0 || b_prefix_len > 0 {
        // An incomplete tile covers the unaligned data.
        applied_prefix_len = create_incomplete_tile(a_prefix_len, b_prefix_len);
        compute_via_temp_buffer::<T, K>(a, b, 0, applied_prefix_len, tmp);
        num_element_processed = applied_prefix_len;
    }
    let ghost after_prefix = a@;
    let num_complete_tiles = (a.len() - applied_prefix_len) / nr;
    if num_complete_tiles > 0 {
        // All complete tiles, in place.
        proof {
            assert(num_complete_tiles * nr <= a@.len() - applied_prefix_len) by (nonlinear_arith)
                requires
                    num_complete_tiles == (a@.len() - applied_prefix_len) / (nr as int),
                    nr > 0,
                    a@.len() >= applied_prefix_len,
            ;
        }
        proof {
            vstd::arithmetic::div_mod::lemma_mod_multiples_basic(num_complete_tiles as int, nr as int);
            assert(num_complete_tiles * nr > 0) by (nonlinear_arith)
                requires
                    num_complete_tiles > 0,
                    nr > 0,
            ;
        }
        K::run(a, b, applied_prefix_len, num_complete_tiles * nr);
        num_element_processed = num_element_processed + num_complete_tiles * nr;
    }
    let ghost after_bulk = a@;
    if num_element_processed < a.len() {
        // An incomplete tile holds the remaining elements.
        let rest = a.len() - num_element_processed;
        compute_via_temp_buffer::<T, K>(a, b, num_element_processed, rest, tmp);
    }
    assert forall|i: int| 0 <= i < start.len() implies #[trigger] a@[i] == K::op(start[i], b@[i]) by {
        if i < applied_prefix_len {
            assert(after_prefix[i] == K::op(start[i], b@[i]));
            assert(after_bulk[i] == after_prefix[i]);
        } else if i < num_element_processed {
            assert(after_prefix[i] == start[i]);
            assert(after_bulk[i] == K::op(after_prefix[i], b@[i]));
        } else {
            assert(after_bulk[i] == start[i]);
        }
    }
}

/// An element-wise binary operation as seen by callers: one call over two
/// whole buffers.
pub trait Unicast<T: LADatum> {
    spec fn op(&self, x: T, y: T) -> T;

    fn name(&self) -> &'static str;

    /// `a[i] = op(a[i], b[i])` for every `i`; `a_addr` and `b_addr` are the
    /// buffers' base byte addresses, which decide how the work is tiled.
    /// Buffers of different lengths are refused.
    fn run(&self, a: &mut Vec<T>, b: &Vec<T>, a_addr: usize, b_addr: usize, tmp: &mut TempBuffers<T>) -> (r:
        Result<(), CoreError>)
        ensures
            old(a)@.len() != b@.len() ==> r == Err::<(), CoreError>(CoreError::InvalidShape)
                && final(a)@ == old(a)@,
            old(a)@.len() == b@.len() ==> r is Ok && applied_on(
                old(a)@,
                final(a)@,
                b@,
                0,
                old(a)@.len() as int,
                |x: T, y: T| self.op(x, y),
            ),
    ;
}

/// The unicast operation that drives kernel `K` through the tiled executor.
pub struct UnicastImpl<K, T> {
    phantom: PhantomData<(K, T)>,
}

impl<K: UnicastKer<T>, T: LADatum> UnicastImpl<K, T> {
    pub fn new() -> Self {
        UnicastImpl { phantom: PhantomData }
    }
}

impl<K: UnicastKer<T>, T: LADatum> Unicast<T> for UnicastImpl<K, T> {
    open spec fn op(&self, x: T, y: T) -> T {
        K::op(x, y)
    }

    fn name(&self) -> &'static str {
        K::name()
    }

    fn run(&self, a: &mut Vec<T>, b: &Vec<T>, a_addr: usize, b_addr: usize, tmp: &mut TempBuffers<T>) -> (r:
        Result<(), CoreError>)
    {
        if a.len() != b.len() {
            return Err(CoreError::InvalidShape);
        }
        let size = T::datum_type().size_of();
        let alignment = K::alignment_bytes();
        let a_prefix_len = unaligned_prefix_len(a_addr, size, alignment, a.len());
        let b_prefix_len = unaligned_prefix_len(b_addr, size, alignment, b.len());
        unicast_with_alignment::<T, K>(a, b, a_prefix_len, b_prefix_len, tmp);
        Ok(())
    }
}


/// Portable i32 kernel: `a[i] = a[i] + b[i]`, wrapping.
#[derive(Debug, Clone, Copy)]
pub struct IUnicastAdd4;

impl UnicastKer<i32> for IUnicastAdd4 {
    open spec fn op(x: i32, y: i32) -> i32 {
        x.wrapping_add(y)
    }

    fn name() -> &'static str {
        "IUnicastAdd4"
    }

    open spec fn tile() -> nat {
        4
    }

    fn nr() -> usize {
        4
    }

    fn alignment_items() -> usize {
        4
    }

    fn run(a: &mut Vec<i32>, b: &Vec<i32>, from: usize, len: usize) {
        let ghost start = a@;
        let a_len = a.len();
        let mut i: usize = from;
        while i < from + len
            invariant
                from + len <= a_len == a@.len(),
                from + len <= b@.len(),
                from <= i <= from + len,
                applied_on(start, a@, b@, from as int, i as int, |x: i32, y: i32| Self::op(x, y)),
            decreases from + len - i,
        {
            let x = a[i];
            let y = b[i];
            a.set(i, x.wrapping_add(y));
            i = i + 1;
        }
    }
}

/// Portable i32 kernel: `a[i] = a[i] - b[i]`, wrapping.
#[derive(Debug, Clone, Copy)]
pub struct IUnicastSub4;

impl UnicastKer<i32> for IUnicastSub4 {
    open spec fn op(x: i32, y: i32) -> i32 {
        x.wrapping_sub(y)
    }

    fn name() -> &'static str {
        "IUnicastSub4"
    }

    open spec fn tile() -> nat {
        4
    }

    fn nr() -> usize {
        4
    }

    fn alignment_items() -> usize {
        4
    }

    fn run(a: &mut Vec<i32>, b: &Vec<i32>, from: usize, len: usize) {
        let ghost start = a@;
        let a_len = a.len();
        let mut i: usize = from;
        while i < from + len
            invariant
                from + len <= a_len == a@.len(),
                from + len <= b@.len(),
                from <= i <= from + len,
                applied_on(start, a@, b@, from as int, i as int, |x: i32, y: i32| Self::op(x, y)),
            decreases from + len - i,
        {
            let x = a[i];
            let y = b[i];
            a.set(i, x.wrapping_sub(y));
            i = i + 1;
        }
    }
}

/// Portable i32 kernel: `a[i] = b[i] - a[i]`, wrapping.
#[derive(Debug, Clone, Copy)]
pub struct IUnicastSubF4;

impl UnicastKer<i32> for IUnicastSubF4 {
    open spec fn op(x: i32, y: i32) -> i32 {
        y.wrapping_sub(x)
    }

    fn name() -> &'static str {
        "IUnicastSubF4"
    }

    open spec fn tile() -> nat {
        4
    }

    fn nr() -> usize {
        4
    }

    fn alignment_items() -> usize {
        4
    }

    fn run(a: &mut Vec<i32>, b: &Vec<i32>, from: usize, len: usize) {
        let ghost start = a@;
        let a_len = a.len();
        let mut i: usize = from;
        while i < from + len
            invariant
                from + len <= a_len == a@.len(),
                from + len <= b@.len(),
                from <= i <= from + len,
                applied_on(start, a@, b@, from as int, i as int, |x: i32, y: i32| Self::op(x, y)),
            decreases from + len - i,
        {
            let x = a[i];
            let y = b[i];
            a.set(i, y.wrapping_sub(x));
            i = i + 1;
        }
    }
}

/// Portable i32 kernel: `a[i] = a[i] * b[i]`, wrapping.
#[derive(Debug, Clone, Copy)]
pub struct IUnicastMul4;

impl UnicastKer<i32> for IUnicastMul4 {
    open spec fn op(x: i32, y: i32) -> i32 {
        x.wrapping_mul(y)
    }

    fn name() -> &'static str {
        "IUnicastMul4"
    }

    open spec fn tile() -> nat {
        4
    }

    fn nr() -> usize {
        4
    }

    fn alignment_items() -> usize {
        4
    }

    fn run(a: &mut Vec<i32>, b: &Vec<i32>, from: usize, len: usize) {
        let ghost start = a@;
        let a_len = a.len();
        let mut i: usize = from;
        while i < from + len
            invariant
                from + len <= a_len == a@.len(),
                from + len <= b@.len(),
                from <= i <= from + len,
                applied_on(start, a@, b@, from as int, i as int, |x: i32, y: i32| Self::op(x, y)),
            decreases from + len - i,
        {
            let x = a[i];
            let y = b[i];
            a.set(i, x.wrapping_mul(y));
            i = i + 1;
        }
    }
}

/// Portable i32 kernel: `a[i] = min(a[i], b[i])`.
#[derive(Debug, Clone, Copy)]
pub struct IUnicastMin4;

impl UnicastKer<i32> for IUnicastMin4 {
    open spec fn op(x: i32, y: i32) -> i32 {
        if x <= y { x } else { y }
    }

    fn name() -> &'static str {
        "IUnicastMin4"
    }

    open spec fn tile() -> nat {
        4
    }

    fn nr() -> usize {
        4
    }

    fn alignment_items() -> usize {
        4
    }

    fn run(a: &mut Vec<i32>, b: &Vec<i32>, from: usize, len: usize) {
        let ghost start = a@;
        let a_len = a.len();
        let mut i: usize = from;
        while i < from + len
            invariant
                from + len <= a_len == a@.len(),
                from + len <= b@.len(),
                from <= i <= from + len,
                applied_on(start, a@, b@, from as int, i as int, |x: i32, y: i32| Self::op(x, y)),
            decreases from + len - i,
        {
            let x = a[i];
            let y = b[i];
            a.set(i, if x <= y { x } else { y });
            i = i + 1;
        }
    }
}

/// Portable i32 kernel: `a[i] = max(a[i], b[i])`.
#[derive(Debug, Clone, Copy)]
pub struct IUnicastMax4;

impl UnicastKer<i32> for IUnicastMax4 {
    open spec fn op(x: i32, y: i32) -> i32 {
        if x >= y { x } else { y }
    }

    fn name() -> &'static str {
        "IUnicastMax4"
    }

    open spec fn tile() -> nat {
        4
    }

    fn nr() -> usize {
        4
    }

    fn alignment_items() -> usize {
        4
    }

    fn run(a: &mut Vec<i32>, b: &Vec<i32>, from: usize, len: usize) {
        let ghost start = a@;
        let a_len = a.len();
        let mut i: usize = from;
        while i < from + len
            invariant
                from + len <= a_len == a@.len(),
                from + len <= b@.len(),
                from <= i <= from + len,
                applied_on(start, a@, b@, from as int, i as int, |x: i32, y: i32| Self::op(x, y)),
            decreases from + len - i,
        {
            let x = a[i];
            let y = b[i];
            a.set(i, if x >= y { x } else { y });
            i = i + 1;
        }
    }
}

} // verus!
