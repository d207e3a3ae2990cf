//! Carries one element of the base field over into the scalar field.
//!
//! The bits of the element are cut into chunks, one for each element asked
//! for, and each chunk is reduced modulo the group order. A chunk is read
//! `MARGIN_BITS` bits wider than asked, and the next chunk starts where the
//! asked width ends, so neighbouring chunks share their margin. The element
//! gives `STREAM_BITS` bits, of which the lowest 254 carry it; what is read
//! beyond them is zero, and `within_stream` tells whether anything is.
//!
//! How far a reduced chunk is from uniform: a chunk of `m` bits that is
//! uniform over `[0, 2^m)` hits each residue modulo the group order `n` either
//! `floor(2^m / n)` or `floor(2^m / n) + 1` times, so the reduced value is
//! within statistical distance `n / 2^(m + 2)` of uniform over `[0, n)`. For
//! the widest chunk, `m = 252` and `n < 2^251`, that bound is `2^-3`: two
//! bits of margin do not make the bias negligible, and a caller who needs that
//! asks for narrower chunks or treats the margin as a parameter to raise.

use crate::encoding::{
    bit_of, le_bits, le_bytes, le_nat, lemma_le_bytes_index, lemma_le_bytes_len,
    lemma_le_nat_of_le_bytes, lemma_low_bits_step, lemma_window_bit, lemma_window_bound, window,
};
use crate::field::{group_order, lemma_bit_lengths, FieldElement, Scalar, GROUP_ORDER_BITS};
use vstd::arithmetic::div_mod::{
    lemma_basic_div, lemma_div_denominator, lemma_div_is_ordered, lemma_div_multiples_vanish,
    lemma_div_plus_one, lemma_fundamental_div_mod, lemma_mod_bound, lemma_mod_decreases,
    lemma_mod_multiples_vanish, lemma_small_mod,
};
use vstd::arithmetic::power2::{
    lemma2_to64, lemma_pow2_adds, lemma_pow2_pos, lemma_pow2_strictly_increases,
    lemma_pow2_unfold, pow2,
};
use vstd::prelude::*;

verus! {

/// The bits read beyond the width of a chunk before it is reduced.
pub const MARGIN_BITS: usize = 2;

/// The widest chunk the scalar field takes: one bit less than the group order has.
pub const MAX_CHUNK_BITS: usize = GROUP_ORDER_BITS - 1;

/// The number of bits that one element of the base field gives.
pub const STREAM_BITS: usize = 256;

/// How many bits of the stream one element of the output is made from.
#[derive(Clone, Copy, Debug, PartialEq, Eq)]
pub enum FieldElementSize {
    /// As many bits as the scalar field takes.
    Full,
    /// This many bits.
    Truncated(usize),
}

impl FieldElementSize {
    /// The width asked for, in bits.
    pub open spec fn width(self) -> nat {
        match self {
            FieldElementSize::Full => MAX_CHUNK_BITS as nat,
            FieldElementSize::Truncated(bits) => bits as nat,
        }
    }

    /// The number of bits read for the chunk: its width and the margin.
    pub open spec fn read_width(self) -> nat {
        self.width() + MARGIN_BITS as nat
    }

    /// Whether the width is one that the scalar field takes.
    pub open spec fn fits(self) -> bool {
        self.width() <= MAX_CHUNK_BITS
    }
}

/// The bit at which chunk `i` starts: the widths of the chunks before it.
pub open spec fn chunk_offset(sizes: Seq<FieldElementSize>, i: nat) -> nat
    decreases i,
{
    if i == 0 {
        0
    } else {
        chunk_offset(sizes, (i - 1) as nat) + sizes[i - 1].width()
    }
}

/// Chunk `i` of `v`: its width and the margin, from where the chunk starts.
pub open spec fn chunk(v: nat, sizes: Seq<FieldElementSize>, i: nat) -> nat {
    window(v, chunk_offset(sizes, i), sizes[i as int].read_width())
}

/// The element made of chunk `i`.
pub open spec fn reencoded(v: nat, sizes: Seq<FieldElementSize>, i: nat) -> nat {
    chunk(v, sizes, i) % group_order()
}

/// Whether every width is one that the scalar field takes.
pub open spec fn all_fit(sizes: Seq<FieldElementSize>) -> bool {
    forall|i: int| 0 <= i < sizes.len() ==> (#[trigger] sizes[i]).fits()
}

/// Whether the stream is long enough for all the chunks and the margin of the
/// last, so that no chunk is read beyond it.
pub open spec fn stream_suffices(sizes: Seq<FieldElementSize>) -> bool {
    chunk_offset(sizes, sizes.len()) + MARGIN_BITS <= STREAM_BITS
}

/// Chunks start in the order in which they are asked for.
pub proof fn lemma_chunk_offset_increases(sizes: Seq<FieldElementSize>, i: nat, j: nat)
    requires
        i <= j,
    ensures
        chunk_offset(sizes, i) <= chunk_offset(sizes, j),
    decreases j,
{
    if i < j {
        lemma_chunk_offset_increases(sizes, i, (j - 1) as nat);
    }
}

/// The width of a chunk in bits.
pub fn num_bits(size: &FieldElementSize) -> (bits: usize)
    requires
        size.fits(),
    ensures
        bits == size.width(),
{
    match size {
        FieldElementSize::Full => MAX_CHUNK_BITS,
        FieldElementSize::Truncated(bits) => *bits,
    }
}

/// Whether `reencode` serves these widths: whether each of them fits the
/// scalar field.
pub fn accepts(sizes: &[FieldElementSize]) -> (ok: bool)
    ensures
        ok == all_fit(sizes@),
{
    let mut i: usize = 0;
    while i < sizes.len()
        invariant
            i <= sizes.len(),
            forall|j: int| 0 <= j < i ==> (#[trigger] sizes@[j]).fits(),
        decreases sizes.len() - i,
    {
        let fits: bool = match sizes[i] {
            FieldElementSize::Full => true,
            FieldElementSize::Truncated(bits) => bits <= MAX_CHUNK_BITS,
        };
        if !fits {
            assert(!sizes@[i as int].fits());
            return false;
        }
        i += 1;
    }
    true
}

/// Whether the stream is long enough for these widths.
pub fn within_stream(sizes: &[FieldElementSize]) -> (ok: bool)
    ensures
        ok == stream_suffices(sizes@),
{
    let mut total: usize = 0;
    let mut i: usize = 0;
    while i < sizes.len()
        invariant
            i <= sizes.len(),
            total == chunk_offset(sizes@, i as nat),
            total <= STREAM_BITS,
        decreases sizes.len() - i,
    {
        let width: usize = match sizes[i] {
            FieldElementSize::Full => MAX_CHUNK_BITS,
            FieldElementSize::Truncated(bits) => bits,
        };
        if width > STREAM_BITS - total {
            proof {
                lemma_chunk_offset_increases(sizes@, (i + 1) as nat, sizes@.len());
            }
            return false;
        }
        total = total + width;
        i += 1;
    }
    total + MARGIN_BITS <= STREAM_BITS
}

/// A number below `2^len` has no bit set from bit `len` on.
proof fn lemma_high_bits_are_zero(v: nat, len: nat, i: nat)
    requires
        v < pow2(len),
        len <= i,
    ensures
        v / pow2(i) == 0,
        !bit_of(v, i),
{
    if len < i {
        lemma_pow2_strictly_increases(len, i);
    }
    lemma_basic_div(v as int, pow2(i) as int);
}

/// The bytes of one window of the 256 bits of a number: bit `j` of the window
/// is bit `offset + j` of the number, eight to a byte, least significant
/// first.
fn pack_window(bits: &Vec<bool>, offset: usize, width: usize, Ghost(v): Ghost<nat>) -> (bytes:
    Vec<u8>)
    requires
        bits@ == le_bits(v, STREAM_BITS as nat),
        v < pow2(STREAM_BITS as nat),
        offset <= STREAM_BITS,
        width <= STREAM_BITS,
    ensures
        le_nat(bytes@) == window(v, offset as nat, width as nat),
{
    let count: usize = (width + 7) / 8;
    let ghost c: nat = window(v, offset as nat, width as nat);
    let mut bytes: Vec<u8> = Vec::new();
    let mut k: usize = 0;
    while k < count
        invariant
            k <= count,
            count == (width + 7) / 8,
            c == window(v, offset as nat, width as nat),
            bits@ == le_bits(v, STREAM_BITS as nat),
            v < pow2(STREAM_BITS as nat),
            offset <= STREAM_BITS,
            width <= STREAM_BITS,
            bytes@.len() == k,
            forall|t: int|
                0 <= t < k ==> (#[trigger] bytes@[t]) as nat == (c / pow2(8 * t as nat)) % 256,
        decreases count - k,
    {
        let ghost y: nat = c / pow2(8 * k as nat);
        let mut acc: u16 = 0;
        let mut weight: u16 = 1;
        let mut i: usize = 0;
        proof {
            lemma2_to64();
        }
        while i < 8
            invariant
                i <= 8,
                k < count,
                count == (width + 7) / 8,
                c == window(v, offset as nat, width as nat),
                y == c / pow2(8 * k as nat),
                bits@ == le_bits(v, STREAM_BITS as nat),
                v < pow2(STREAM_BITS as nat),
                offset <= STREAM_BITS,
                width <= STREAM_BITS,
                weight == pow2(i as nat),
                acc == y % pow2(i as nat),
                acc < weight,
            decreases 8 - i,
        {
            let j: usize = 8 * k + i;
            let bit: bool = j < width && offset + j < STREAM_BITS && bits[offset + j];
            proof {
                lemma2_to64();
                lemma_pow2_pos(8 * k as nat);
                lemma_pow2_pos(i as nat);
                lemma_pow2_adds(8 * k as nat, i as nat);
                lemma_div_denominator(c as int, pow2(8 * k as nat) as int, pow2(i as nat) as int);
                assert(bit_of(y, i as nat) == bit_of(c, j as nat));
                lemma_window_bit(v, offset as nat, width as nat, j as nat);
                if offset + j >= STREAM_BITS {
                    lemma_high_bits_are_zero(v, STREAM_BITS as nat, (offset + j) as nat);
                }
                assert(bit == bit_of(y, i as nat));
                lemma_low_bits_step(y, i as nat);
                lemma_pow2_unfold((i + 1) as nat);
                if i < 7 {
                    lemma_pow2_strictly_increases((i + 1) as nat, 8);
                }
            }
            if bit {
                acc = acc + weight;
            }
            weight = weight * 2;
            i += 1;
        }
        proof {
            lemma2_to64();
        }
        bytes.push(acc as u8);
        k += 1;
    }
    proof {
        assert forall|t: int| 0 <= t < count implies bytes@[t] == le_bytes(c, count as nat)[t] by {
            lemma_le_bytes_index(c, count as nat, t as nat);
        }
        lemma_le_bytes_len(c, count as nat);
        assert(bytes@ =~= le_bytes(c, count as nat));
        lemma_le_nat_of_le_bytes(c, count as nat);
        lemma_window_bound(v, offset as nat, width as nat);
        if width < 8 * count {
            lemma_pow2_strictly_increases(width as nat, (8 * count) as nat);
        }
        lemma_small_mod(c, pow2((8 * count) as nat));
    }
    bytes
}

/// Re-encodes an element of the base field as elements of the scalar field,
/// one for each width in `sizes`: chunk `i` of the element's bits, reduced
/// modulo the group order.
pub fn reencode(x: &FieldElement, sizes: &[FieldElementSize]) -> (out: Vec<Scalar>)
    requires
        all_fit(sizes@),
    ensures
        out@.len() == sizes@.len(),
        forall|i: int|
            0 <= i < sizes@.len() ==> (#[trigger] out@[i])@ == reencoded(x@, sizes@, i as nat),
{
    let mut out: Vec<Scalar> = Vec::new();
    if sizes.len() == 0 {
        return out;
    }
    let bits = x.to_bits_le();
    proof {
        use_type_invariant(x);
        lemma_bit_lengths();
    }
    // where the next chunk starts, or the end of the stream if that is earlier
    let mut offset: usize = 0;
    let mut i: usize = 0;
    while i < sizes.len()
        invariant
            i <= sizes.len(),
            all_fit(sizes@),
            bits@ == le_bits(x@, STREAM_BITS as nat),
            x@ < pow2(STREAM_BITS as nat),
            offset <= STREAM_BITS,
            offset <= chunk_offset(sizes@, i as nat),
            offset < STREAM_BITS ==> offset == chunk_offset(sizes@, i as nat),
            out@.len() == i,
            forall|j: int| 0 <= j < i ==> (#[trigger] out@[j])@ == reencoded(x@, sizes@, j as nat),
        decreases sizes.len() - i,
    {
        let width: usize = num_bits(&sizes[i]);
        let bytes = pack_window(&bits, offset, width + MARGIN_BITS, Ghost(x@));
        proof {
            lemma_window_past_the_stream(
                x@,
                offset as nat,
                chunk_offset(sizes@, i as nat),
                sizes@[i as int].read_width(),
            );
        }
        out.push(Scalar::from_le_bytes_mod_order(bytes.as_slice()));
        offset = if width >= STREAM_BITS - offset {
            STREAM_BITS
        } else {
            offset + width
        };
        i += 1;
    }
    out
}

/// From the end of the stream on, every window is zero.
proof fn lemma_window_past_the_stream(v: nat, capped: nat, offset: nat, width: nat)
    requires
        v < pow2(STREAM_BITS as nat),
        capped <= offset,
        capped < STREAM_BITS ==> capped == offset,
    ensures
        window(v, capped, width) == window(v, offset, width),
{
    if capped != offset {
        lemma_high_bits_are_zero(v, STREAM_BITS as nat, capped);
        lemma_high_bits_are_zero(v, STREAM_BITS as nat, offset);
        lemma_pow2_pos(width);
        lemma_small_mod(0, pow2(width));
    }
}

/// Every element that `reencode` gives is below the group order and below
/// two to the number of bits read for it; where no more bits are read than
/// the scalar field takes, the element is the chunk itself.
pub proof fn lemma_reencoded_element_bounds(v: nat, sizes: Seq<FieldElementSize>, i: nat)
    requires
        i < sizes.len(),
    ensures
        reencoded(v, sizes, i) < group_order(),
        reencoded(v, sizes, i) < pow2(sizes[i as int].read_width()),
        sizes[i as int].read_width() <= MAX_CHUNK_BITS ==> reencoded(v, sizes, i) == chunk(
            v,
            sizes,
            i,
        ),
{
    let width: nat = sizes[i as int].read_width();
    lemma_window_bound(v, chunk_offset(sizes, i), width);
    lemma_mod_bound(chunk(v, sizes, i) as int, group_order() as int);
    lemma_mod_decreases(chunk(v, sizes, i), group_order());
    if width <= MAX_CHUNK_BITS {
        lemma_bit_lengths();
        if width < MAX_CHUNK_BITS {
            lemma_pow2_strictly_increases(width, MAX_CHUNK_BITS as nat);
        }
        lemma_small_mod(chunk(v, sizes, i), group_order());
    }
}

/// How many numbers below `bound` reduce to the residue `t` modulo `modulus`.
pub open spec fn preimages(bound: nat, modulus: nat, t: nat) -> nat {
    if t < bound {
        ((bound - t - 1) / (modulus as int) + 1) as nat
    } else {
        0
    }
}

/// The numbers below `bound` that reduce to `t` are `t`, `t + modulus`,
/// `t + 2 modulus` and so on, `preimages(bound, modulus, t)` of them.
pub proof fn lemma_preimages_of_a_residue(bound: nat, modulus: nat, t: nat, v: nat)
    requires
        t < modulus,
    ensures
        (v < bound && v % modulus == t) <==> (exists|j: nat|
            j < preimages(bound, modulus, t) && v == t + #[trigger] (j * modulus)),
{
    let m: int = modulus as int;
    if v < bound && v % modulus == t {
        let j: nat = v / modulus;
        lemma_fundamental_div_mod(v as int, m);
        assert(m * (v as int / m) == j * modulus) by (nonlinear_arith)
            requires
                j == v as int / m,
                m == modulus,
        ;
        assert(v == t + j * modulus);
        assert(j <= (bound - t - 1) / m) by {
            lemma_div_is_ordered(v as int - t as int, bound - t - 1, m);
            lemma_div_multiples_vanish(j as int, m);
            assert(j * modulus == m * j) by (nonlinear_arith)
                requires
                    m == modulus,
            ;
        }
        assert(j < preimages(bound, modulus, t));
    }
    if exists|j: nat| j < preimages(bound, modulus, t) && v == t + #[trigger] (j * modulus) {
        let j: nat = choose|j: nat| j < preimages(bound, modulus, t) && v == t + #[trigger] (j * modulus);
        let top: int = (bound - t - 1) / m;
        assert(t < bound);
        assert(j <= top);
        lemma_fundamental_div_mod(bound - t - 1, m);
        lemma_mod_bound(bound - t - 1, m);
        assert(j * modulus <= m * top) by (nonlinear_arith)
            requires
                j <= top,
                m == modulus,
                0 < m,
        ;
        assert(v < bound);
        assert(v % modulus == t) by {
            assert(j * modulus == m * j) by (nonlinear_arith)
                requires
                    m == modulus,
            ;
            lemma_mod_multiples_vanish(j as int, t as int, m);
            lemma_small_mod(t, modulus);
        }
    }
}

/// Every residue is hit by as many numbers below `bound` as `modulus` goes
/// into `bound`, or by one more: where the numbers below `bound` are equally
/// likely, no two residues differ in probability by more than `1 / bound`.
pub proof fn lemma_residues_are_hit_evenly(bound: nat, modulus: nat, t: nat)
    requires
        t < modulus,
    ensures
        bound / modulus <= preimages(bound, modulus, t) <= bound / modulus + 1,
{
    let m: int = modulus as int;
    if t < bound {
        lemma_div_is_ordered(bound - t - 1, bound as int, m);
        lemma_div_is_ordered(bound as int, bound - t - 1 + m, m);
        lemma_div_plus_one(bound - t - 1, m);
    } else {
        lemma_basic_div(bound as int, m);
    }
}

} // verus!
