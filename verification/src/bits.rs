//! Bit-level facts the modules share: masks as remainders, field bounds and
//! small constant identities.
use vstd::prelude::*;

verus! {

/// Masks of a 64-bit value as remainders, field bounds, and small identities.
pub proof fn lemma_u64_bits(x: u64)
    by (bit_vector)
    ensures
        x & 0 == x % 1,
        x & 1 == x % 2,
        x & 3 == x % 4,
        x & 7 == x % 8,
        x & 0xfff == x % 0x1000,
        x & 0xffff_ffff == x % 0x1_0000_0000,
        x & 0xffff_ffff < 0x1_0000_0000,
        x & 0xffff_ffff <= 0xffff_ffff,
        x & u64::MAX == x,
        (x & 0xff) as u8 == x as u8,
        x & 1 <= 1,
        x >> 1u64 == x / 2,
        x & 0x3f <= 0x3f,
        x & 0x1ff <= 0x1ff,
        x & 0x7ff <= 0x7ff,
        x & 15 < 16,
        (x >> 4u64) & 1 <= 1,
        (x >> 16u64) & 0x3f <= 0x3f,
        (x >> 60u64) & 15 < 16,
        0u64 & !x == 0,
        (0u64 >> x) & 1 == 0,
        x <= 3 ==> x << 2u64 == x * 4,
        x < 64 ==> 1u64 << x >= 1,
        x | (1u64 << 0u64) | (1u64 << 1u64) | (1u64 << 2u64) | (1u64 << 3u64) == x | 0xf,
        (x & 0xffff_ffffu64) as u128 == (x as u128) % 0x1_0000_0000u128,
{
}

/// Field bounds of a 32-bit instruction word.
pub proof fn lemma_u32_bits(w: u32)
    by (bit_vector)
    ensures
        w & 31 < 32,
        (w >> 5u32) & 31 < 32,
        (w >> 16u32) & 31 < 32,
        (w >> 21u32) & 3 <= 3,
        (w >> 30u32) & 3 <= 3,
        (w >> 12u32) & 1 <= 1,
        (w >> 7u32) & 1 <= 1,
        (w >> 10u32) & 3 <= 3,
        (w >> 10u32) & 1 <= 1,
        (w >> 6u32) & 1 <= 1,
        w & 15 == w % 16,
        (w & 1 != 0) == (w & 1 == 1),
        w <= 15 ==> (!w) & 0xf == 15 - w,
{
}

/// Field bounds of a byte.
pub proof fn lemma_u8_bits(b: u8)
    by (bit_vector)
    ensures
        b & 7 <= 7,
        (b >> 6u8) & 3 <= 3,
        (b >> 6u8) <= 3,
        (b >> 3u8) & 0xf <= 15,
        b <= 15 ==> (!b) & 0xf == 15 - b,
{
}

/// Masks and carries of a 128-bit sum or product.
pub proof fn lemma_u128_bits(t: u128)
    by (bit_vector)
    ensures
        t & 0xffff_ffffu128 == t % 0x1_0000_0000u128,
        t & 0xffff_ffff_ffff_ffffu128 == t % 0x1_0000_0000_0000_0000u128,
        t & 0xffff_ffff_ffff_ffffu128 <= 0xffff_ffff_ffff_ffffu128,
        t >> 64u128 != 0 <==> t >= 0x1_0000_0000_0000_0000,
        t >> 32u128 != 0 <==> t >= 0x1_0000_0000,
        t as u64 == t % 0x1_0000_0000_0000_0000,
        ((t as u64) & 0xffff_ffffu64) as u128 == t % 0x1_0000_0000u128,
        ((t as u64) & 0xffff_ffff_ffff_ffffu64) as u128 == t % 0x1_0000_0000_0000_0000u128,
{
}

/// Constant identities.
pub proof fn lemma_bit_constants()
    by (bit_vector)
    ensures
        5u32 & 0x0f == 5,
        1u64 << 0u64 == 1,
        1u8 | 2u8 == 3u8,
        0x80u32 | 0x10u32 == 0x90u32,
{
}

} // verus!
