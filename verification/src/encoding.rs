//! Little-endian byte and bit strings and the numbers they stand for.

use vstd::arithmetic::div_mod::{
    lemma_basic_div, lemma_div_denominator, lemma_fundamental_div_mod_converse, lemma_mod_bound,
    lemma_mod_breakdown, lemma_mod_mod,
};
use vstd::arithmetic::power2::{
    lemma2_to64, lemma_pow2_adds, lemma_pow2_pos, lemma_pow2_strictly_increases,
    lemma_pow2_unfold, pow2,
};
use vstd::prelude::*;

verus! {

/// The number that a little-endian byte string stands for.
pub open spec fn le_nat(bytes: Seq<u8>) -> nat
    decreases bytes.len(),
{
    if bytes.len() == 0 {
        0
    } else {
        bytes[0] as nat + 256 * le_nat(bytes.drop_first())
    }
}

/// The `len` lowest base-256 digits of `v`, least significant first.
pub open spec fn le_bytes(v: nat, len: nat) -> Seq<u8>
    decreases len,
{
    if len == 0 {
        Seq::empty()
    } else {
        seq![(v % 256) as u8] + le_bytes(v / 256, (len - 1) as nat)
    }
}

/// Bit `i` of `v`, counted from the least significant one.
pub open spec fn bit_of(v: nat, i: nat) -> bool {
    (v / pow2(i)) % 2 == 1
}

/// The `len` lowest bits of `v`, least significant first.
pub open spec fn le_bits(v: nat, len: nat) -> Seq<bool> {
    Seq::new(len, |i: int| bit_of(v, i as nat))
}

/// The `width` bits of `v` that start at bit `offset`, as a number.
pub open spec fn window(v: nat, offset: nat, width: nat) -> nat {
    (v / pow2(offset)) % pow2(width)
}

/// There are as many digits as were asked for.
pub proof fn lemma_le_bytes_len(v: nat, len: nat)
    ensures
        le_bytes(v, len).len() == len,
    decreases len,
{
    if len > 0 {
        lemma_le_bytes_len(v / 256, (len - 1) as nat);
    }
}

/// Reading back the `len` lowest digits of `v` gives `v` modulo `2^(8 len)`.
pub proof fn lemma_le_nat_of_le_bytes(v: nat, len: nat)
    ensures
        le_nat(le_bytes(v, len)) == v % pow2(8 * len),
    decreases len,
{
    lemma2_to64();
    if len == 0 {
        assert(pow2(0) == 1);
    } else {
        let tail_len: nat = (len - 1) as nat;
        let s = le_bytes(v, len);
        lemma_le_bytes_len(v / 256, tail_len);
        assert(s.drop_first() =~= le_bytes(v / 256, tail_len));
        lemma_le_nat_of_le_bytes(v / 256, tail_len);
        lemma_pow2_adds(8, 8 * tail_len);
        lemma_pow2_pos(8 * tail_len);
        assert(8 * len == 8 + 8 * tail_len);
        let m: nat = pow2(8 * tail_len);
        // v % (256 m) == v % 256 + 256 ((v / 256) % m)
        lemma_mod_breakdown(v as int, 256, m as int);
    }
}

/// The digits of the number that a byte string stands for are that string.
pub proof fn lemma_le_bytes_of_le_nat(bytes: Seq<u8>)
    ensures
        le_bytes(le_nat(bytes), bytes.len()) == bytes,
    decreases bytes.len(),
{
    if bytes.len() == 0 {
        assert(le_bytes(le_nat(bytes), 0) =~= bytes);
    } else {
        let rest = bytes.drop_first();
        lemma_le_bytes_of_le_nat(rest);
        let v: nat = le_nat(bytes);
        assert(v % 256 == bytes[0] as nat && v / 256 == le_nat(rest)) by {
            lemma_fundamental_div_mod_converse(
                v as int,
                256,
                le_nat(rest) as int,
                bytes[0] as int,
            );
        }
        assert(le_bytes(v, bytes.len()) =~= bytes);
    }
}

/// Two byte strings of one length that stand for the same number are equal.
pub proof fn lemma_le_nat_injective(a: Seq<u8>, b: Seq<u8>)
    requires
        a.len() == b.len(),
        le_nat(a) == le_nat(b),
    ensures
        a == b,
{
    lemma_le_bytes_of_le_nat(a);
    lemma_le_bytes_of_le_nat(b);
}

/// Digit `i` of `v` in base 256.
pub proof fn lemma_le_bytes_index(v: nat, len: nat, i: nat)
    requires
        i < len,
    ensures
        le_bytes(v, len).len() == len,
        le_bytes(v, len)[i as int] as nat == (v / pow2(8 * i)) % 256,
    decreases len,
{
    lemma2_to64();
    lemma_le_bytes_len(v, len);
    let tail_len: nat = (len - 1) as nat;
    lemma_le_bytes_len(v / 256, tail_len);
    if i == 0 {
        assert(pow2(0) == 1);
        assert(le_bytes(v, len)[0] == (v % 256) as u8);
        assert(v / 1 == v);
    } else {
        let j: nat = (i - 1) as nat;
        lemma_le_bytes_index(v / 256, tail_len, j);
        assert(le_bytes(v, len)[i as int] == le_bytes(v / 256, tail_len)[j as int]);
        lemma_pow2_adds(8, 8 * j);
        lemma_pow2_pos(8 * j);
        assert(8 * i == 8 + 8 * j);
        lemma_div_denominator(v as int, 256, pow2(8 * j) as int);
        assert((v / 256) / pow2(8 * j) == v / pow2(8 * i));
    }
}

/// Cutting a number at a power of two and dividing by a smaller one keeps the
/// bits in between.
pub proof fn lemma_mod_div_pow2(u: nat, width: nat, j: nat)
    requires
        j <= width,
    ensures
        (u % pow2(width)) / pow2(j) == (u / pow2(j)) % pow2((width - j) as nat),
{
    let rest: nat = (width - j) as nat;
    lemma_pow2_adds(j, rest);
    lemma_pow2_pos(j);
    lemma_pow2_pos(rest);
    lemma_mod_breakdown(u as int, pow2(j) as int, pow2(rest) as int);
    let q: nat = (u / pow2(j)) % pow2(rest);
    let r: nat = u % pow2(j);
    lemma_mod_bound(u as int, pow2(j) as int);
    assert(q * pow2(j) == pow2(j) * q) by (nonlinear_arith);
    lemma_fundamental_div_mod_converse(
        (u % pow2(width)) as int,
        pow2(j) as int,
        q as int,
        r as int,
    );
}

/// The bits of a window are the bits of the number it was cut from.
pub proof fn lemma_window_bit(v: nat, offset: nat, width: nat, j: nat)
    ensures
        bit_of(window(v, offset, width), j) == (j < width && bit_of(v, offset + j)),
{
    let u: nat = v / pow2(offset);
    let c: nat = window(v, offset, width);
    lemma_pow2_pos(offset);
    lemma_pow2_pos(width);
    lemma_pow2_pos(j);
    lemma2_to64();
    if j < width {
        let rest: nat = (width - j) as nat;
        lemma_mod_div_pow2(u, width, j);
        lemma_pow2_unfold(rest);
        lemma_pow2_pos((rest - 1) as nat);
        lemma_mod_mod((u / pow2(j)) as int, 2, pow2((rest - 1) as nat) as int);
        lemma_div_denominator(v as int, pow2(offset) as int, pow2(j) as int);
        lemma_pow2_adds(offset, j);
    } else {
        lemma_mod_bound(u as int, pow2(width) as int);
        if width < j {
            lemma_pow2_strictly_increases(width, j);
        }
        lemma_basic_div(c as int, pow2(j) as int);
    }
}

/// A window of `width` bits is below `2^width`.
pub proof fn lemma_window_bound(v: nat, offset: nat, width: nat)
    ensures
        window(v, offset, width) < pow2(width),
{
    lemma_pow2_pos(width);
    lemma_mod_bound((v / pow2(offset)) as int, pow2(width) as int);
}

/// The lowest `i + 1` bits of a number are its lowest `i` bits and bit `i`.
pub proof fn lemma_low_bits_step(y: nat, i: nat)
    ensures
        y % pow2(i + 1) == y % pow2(i) + (if bit_of(y, i) { pow2(i) } else { 0 }),
{
    lemma_pow2_pos(i);
    lemma_pow2_unfold(i + 1);
    lemma_mod_breakdown(y as int, pow2(i) as int, 2);
    assert(pow2(i + 1) == pow2(i) * 2);
    let b: nat = (y / pow2(i)) % 2;
    assert(pow2(i) * b == if b == 1 { pow2(i) } else { 0 }) by (nonlinear_arith)
        requires
            b == 0 || b == 1,
    ;
}

/// The 32 bytes of `bytes` that start at `offset`.
pub(crate) fn take_32(bytes: &[u8], offset: usize) -> (out: [u8; 32])
    requires
        offset + 32 <= bytes@.len(),
    ensures
        out@ == bytes@.subrange(offset as int, offset + 32),
{
    let len: usize = bytes.len();
    let mut out = [0u8; 32];
    let mut i: usize = 0;
    while i < 32
        invariant
            i <= 32,
            len == bytes@.len(),
            offset + 32 <= bytes@.len(),
            forall|j: int| 0 <= j < i ==> out@[j] == bytes@[offset + j],
        decreases 32 - i,
    {
        out[i] = bytes[offset + i];
        i += 1;
    }
    assert(out@ =~= bytes@.subrange(offset as int, offset + 32));
    out
}

} // verus!
