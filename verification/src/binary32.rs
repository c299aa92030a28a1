//! The tile size as a single-precision number of IEEE 754, read and written
//! as its 32 bits: a sign bit, eight bits of exponent with a bias of 127 and
//! 23 bits of fraction below an implied leading one.

use vstd::prelude::*;
use crate::world::MAX_TILE_SIZE;

verus! {

/// The position of the highest set bit of `n`, and zero for zero.
pub open spec fn top_bit(n: u32) -> nat
    decreases n,
{
    if n < 2 {
        0
    } else {
        1 + top_bit(n / 2)
    }
}

/// The tile size that `bits` denotes: the whole part of the number, where
/// that lies between one and [`MAX_TILE_SIZE`]. Negative numbers, numbers
/// below one or above the largest tile size, infinities and what is not a
/// number denote none.
pub open spec fn tile_size_of_bits(bits: u32) -> Option<usize> {
    let exponent = (bits >> 23) & 0xff;
    let fraction = bits & 0x7f_ffff;
    if bits >> 31 != 0 || exponent < 127 {
        None
    } else if exponent <= 150 {
        Some(((0x80_0000 + fraction) as u32 >> ((150 - exponent) as u32)) as usize)
    } else if exponent == 151 && fraction == 0 {
        Some(MAX_TILE_SIZE)
    } else {
        None
    }
}

/// The bits of the number `n`, for a tile size between one and
/// [`MAX_TILE_SIZE`]: every such number is a single-precision number.
pub open spec fn bits_of_tile_size(n: usize) -> u32
    recommends
        1 <= n <= MAX_TILE_SIZE,
{
    let high = top_bit(n as u32) as u32;
    if high >= 24 {
        0x4b80_0000
    } else {
        (((127 + high) as u32) << 23) | (((n as u32) << ((23 - high) as u32)) & 0x7f_ffff)
    }
}

/// Shifting `n` down by the position of its highest set bit leaves one.
pub proof fn lemma_top_bit(n: u32)
    requires
        n >= 1,
    ensures
        top_bit(n) < 32,
        n >> (top_bit(n) as u32) == 1,
    decreases n,
{
    if n < 2 {
        assert(n >> 0u32 == 1) by (bit_vector)
            requires
                n == 1,
        ;
    } else {
        lemma_top_bit(n / 2);
        let h = top_bit(n / 2) as u32;
        assert(h < 31 && n >> ((1 + h) as u32) == 1) by (bit_vector)
            requires
                h < 32,
                (n / 2) >> h == 1,
        ;
    }
}

/// Reading the bits written for a tile size gives the tile size back.
pub proof fn lemma_tile_size_bits_round_trip(n: usize)
    requires
        1 <= n <= MAX_TILE_SIZE,
    ensures
        tile_size_of_bits(bits_of_tile_size(n)) == Some(n),
{
    let v = n as u32;
    let high = top_bit(v) as u32;
    lemma_top_bit(v);
    if high >= 24 {
        assert(v == 0x100_0000) by (bit_vector)
            requires
                v >> high == 1,
                24 <= high < 32,
                v <= 0x100_0000,
        ;
        let bits = 0x4b80_0000u32;
        assert((bits >> 23) & 0xff == 151 && bits & 0x7f_ffff == 0 && bits >> 31 == 0) by (bit_vector)
            requires
                bits == 0x4b80_0000u32,
        ;
    } else {
        let bits = (((127 + high) as u32) << 23) | ((v << ((23 - high) as u32)) & 0x7f_ffff);
        assert({
            &&& bits >> 31 == 0
            &&& (bits >> 23) & 0xff == 127 + high
            &&& (0x80_0000 + (bits & 0x7f_ffff)) as u32 >> ((150 - ((bits >> 23) & 0xff)) as u32) == v
        }) by (bit_vector)
            requires
                v >> high == 1,
                high < 24,
                bits == (((127 + high) as u32) << 23) | ((v << ((23 - high) as u32)) & 0x7f_ffff),
        ;
    }
}

/// Reads a tile size from the bits of a single-precision number.
pub fn read_tile_size(bits: u32) -> (r: Option<usize>)
    ensures
        r == tile_size_of_bits(bits),
        r matches Some(n) ==> 1 <= n <= MAX_TILE_SIZE,
{
    let exponent: u32 = (bits >> 23) & 0xff;
    let fraction: u32 = bits & 0x7f_ffff;
    assert(exponent <= 0xff && fraction <= 0x7f_ffff) by (bit_vector)
        requires
            exponent == (bits >> 23) & 0xff,
            fraction == bits & 0x7f_ffff,
    ;
    if bits >> 31 != 0 || exponent < 127 {
        None
    } else if exponent <= 150 {
        let shift: u32 = 150 - exponent;
        let whole: u32 = (0x80_0000 + fraction) >> shift;
        assert(1 <= whole <= 0xff_ffff) by (bit_vector)
            requires
                whole == (0x80_0000 + fraction) as u32 >> shift,
                fraction <= 0x7f_ffff,
                shift <= 23,
        ;
        Some(whole as usize)
    } else if exponent == 151 && fraction == 0 {
        Some(MAX_TILE_SIZE)
    } else {
        None
    }
}

/// Writes a tile size as the bits of a single-precision number.
pub fn write_tile_size(n: usize) -> (bits: u32)
    requires
        1 <= n <= MAX_TILE_SIZE,
    ensures
        bits == bits_of_tile_size(n),
{
    let v: u32 = n as u32;
    let mut high: u32 = 0;
    let mut rest: u32 = v;
    assert(v >> 0u32 == v) by (bit_vector);
    while rest >= 2
        invariant
            v <= 0x100_0000,
            high <= 24,
            rest == v >> high,
            top_bit(v) == high + top_bit(rest),
        decreases rest,
    {
        assert(high <= 23 && (v >> high) / 2 == v >> ((high + 1) as u32)) by (bit_vector)
            requires
                v <= 0x100_0000,
                high <= 24,
                v >> high >= 2,
        ;
        rest = rest / 2;
        high = high + 1;
    }
    if high >= 24 {
        0x4b80_0000
    } else {
        ((127 + high) << 23) | ((v << (23 - high)) & 0x7f_ffff)
    }
}

} // verus!
