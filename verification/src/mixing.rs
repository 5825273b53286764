//! The mixing function: four rounds of squaring, adding and swapping halves,
//! stated over the integers modulo 2^64.

use vstd::prelude::*;
use vstd::arithmetic::div_mod::lemma_add_mod_noop;
use vstd::wrapping::u64_specs::{wrapping_add, wrapping_mul};

verus! {

/// The representative of `v` in the ring of integers modulo 2^64.
pub open spec fn wrap(v: int) -> int {
    v % 0x1_0000_0000_0000_0000
}

/// The 64-bit word `v` with its high and low 32-bit halves exchanged.
pub open spec fn swap_halves(v: int) -> int {
    v / 0x1_0000_0000 + (v % 0x1_0000_0000) * 0x1_0000_0000
}

/// One mixing round: the square of `x` plus `w`, modulo 2^64, halves swapped.
pub open spec fn mix_round(x: int, w: int) -> int {
    swap_halves(wrap(x * x + w))
}

/// The word that the pair `(counter, key)` selects: three full rounds, then
/// the high half of a fourth.
pub open spec fn squares(counter: u64, key: u64) -> u64 {
    let y: int = wrap(counter * key);
    let z: int = wrap(y + key);
    let x1: int = mix_round(y, y);
    let x2: int = mix_round(x1, z);
    let x3: int = mix_round(x2, y);
    (wrap(x3 * x3 + z) / 0x1_0000_0000) as u64
}

/// Swapping the halves of a 64-bit word by two shifts and an or.
proof fn lemma_swap_by_shifts(v: u64)
    ensures
        ((v >> 32) | (v << 32)) == swap_halves(v as int),
{
    assert(((v >> 32) | (v << 32)) == v / 0x1_0000_0000 + (v % 0x1_0000_0000) * 0x1_0000_0000)
        by (bit_vector);
}

/// A wrapping multiply is a product reduced modulo 2^64.
proof fn lemma_mul_wraps(a: u64, b: u64)
    ensures
        wrapping_mul(a, b) == wrap(a * b),
{
    assert(a as nat * b as nat == a * b) by (nonlinear_arith);
}

/// A wrapping add is a sum reduced modulo 2^64.
proof fn lemma_add_wraps(a: u64, b: u64)
    ensures
        wrapping_add(a, b) == wrap(a + b),
{
}

/// A wrapping multiply followed by a wrapping add is one reduction modulo 2^64.
proof fn lemma_square_add_wraps(x: u64, w: u64)
    ensures
        wrapping_add(wrapping_mul(x, x), w) == wrap(x * x + w),
{
    let p: u64 = wrapping_mul(x, x);
    lemma_mul_wraps(x, x);
    lemma_add_wraps(p, w);
    lemma_add_mod_noop(x * x, w as int, 0x1_0000_0000_0000_0000);
}

/// Computes the word that `(counter, key)` selects. It fits in 32 bits.
pub fn mix(counter: u64, key: u64) -> (out: u64)
    ensures
        out == squares(counter, key),
        out <= 0xFFFF_FFFF,
{
    let y: u64 = counter.wrapping_mul(key);
    let z: u64 = y.wrapping_add(key);
    proof {
        lemma_mul_wraps(counter, key);
        lemma_add_wraps(y, key);
    }
    let x1: u64 = round(y, y);
    let x2: u64 = round(x1, z);
    let x3: u64 = round(x2, y);
    let last: u64 = x3.wrapping_mul(x3).wrapping_add(z);
    proof {
        lemma_square_add_wraps(x3, z);
        assert(last >> 32 == last / 0x1_0000_0000) by (bit_vector);
    }
    last >> 32
}

/// One round on machine words.
fn round(x: u64, w: u64) -> (out: u64)
    ensures
        out == mix_round(x as int, w as int),
{
    let s: u64 = x.wrapping_mul(x).wrapping_add(w);
    proof {
        lemma_square_add_wraps(x, w);
        lemma_swap_by_shifts(s);
    }
    (s >> 32) | (s << 32)
}

} // verus!
