//! Bit-level helpers shared by the CPU core and the peripheral models.
use vstd::prelude::*;

verus! {

/// `x` with bit `n` forced to `b`.
pub open spec fn with_bit(x: u32, n: u32, b: bool) -> u32 {
    if b {
        x | (1u32 << n)
    } else {
        x & !(1u32 << n)
    }
}

/// Rotation of a 32-bit word to the right by `n % 32` places.
pub open spec fn spec_rotr32(x: u32, n: u32) -> u32 {
    if n % 32 == 0 {
        x
    } else {
        (x >> (n % 32)) | (x << ((32 - n % 32) as u32))
    }
}

/// Rotates `x` right by `n` bits (modulo 32).
pub fn rotr32(x: u32, n: u32) -> (r: u32)
    ensures
        r == spec_rotr32(x, n),
{
    let k = n % 32;
    if k == 0 {
        x
    } else {
        (x >> k) | (x << (32 - k))
    }
}

/// Byte reversal of a 32-bit word.
pub open spec fn spec_swap_bytes32(x: u32) -> u32 {
    ((x & 0xFF) << 24) | (((x >> 8) & 0xFF) << 16) | (((x >> 16) & 0xFF) << 8) | ((x >> 24) & 0xFF)
}

/// Reverses the byte order of `x`.
pub fn swap_bytes32(x: u32) -> (r: u32)
    ensures
        r == spec_swap_bytes32(x),
{
    ((x & 0xFF) << 24) | (((x >> 8) & 0xFF) << 16) | (((x >> 16) & 0xFF) << 8) | ((x >> 24) & 0xFF)
}

/// Number of set bits among the lowest `n` bits of `x`.
pub open spec fn popcount_below(x: u32, n: nat) -> nat
    decreases n,
{
    if n == 0 {
        0
    } else {
        popcount_below(x, (n - 1) as nat) + (if (x >> ((n - 1) as u32)) & 1 == 1 {
            1nat
        } else {
            0nat
        })
    }
}

pub proof fn lemma_popcount_bound(x: u32, n: nat)
    ensures
        popcount_below(x, n) <= n,
    decreases n,
{
    if n > 0 {
        lemma_popcount_bound(x, (n - 1) as nat);
    }
}

/// Number of set bits among the lowest `width` bits of `x` (`width <= 32`).
pub fn count_ones_below(x: u32, width: u32) -> (r: u32)
    requires
        width <= 32,
    ensures
        r as nat == popcount_below(x, width as nat),
        r <= width,
{
    let mut count: u32 = 0;
    let mut i: u32 = 0;
    while i < width
        invariant
            i <= width <= 32,
            count as nat == popcount_below(x, i as nat),
            count <= i,
        decreases width - i,
    {
        proof {
            lemma_popcount_bound(x, i as nat);
        }
        if (x >> i) & 1 == 1 {
            count = count + 1;
        }
        i = i + 1;
    }
    count
}

/// Sign extension of the low byte of `x`.
pub open spec fn spec_sext8(x: u32) -> u32 {
    if x & 0x80 != 0 {
        (x & 0xFF) | 0xFFFF_FF00
    } else {
        x & 0xFF
    }
}

/// Sign extension of the low half-word of `x`.
pub open spec fn spec_sext16(x: u32) -> u32 {
    if x & 0x8000 != 0 {
        (x & 0xFFFF) | 0xFFFF_0000
    } else {
        x & 0xFFFF
    }
}

/// Sign-extends bit 7 of `x` over the upper 24 bits.
pub fn sext8(x: u32) -> (r: u32)
    ensures
        r == spec_sext8(x),
{
    if x & 0x80 != 0 {
        (x & 0xFF) | 0xFFFF_FF00
    } else {
        x & 0xFF
    }
}

/// Sign-extends bit 15 of `x` over the upper 16 bits.
pub fn sext16(x: u32) -> (r: u32)
    ensures
        r == spec_sext16(x),
{
    if x & 0x8000 != 0 {
        (x & 0xFFFF) | 0xFFFF_0000
    } else {
        x & 0xFFFF
    }
}

/// Arithmetic shift right of a 32-bit word by `n` (`1 <= n < 32`).
pub open spec fn spec_asr32(x: u32, n: u32) -> u32 {
    if x & 0x8000_0000 != 0 {
        (x >> n) | !(0xFFFF_FFFFu32 >> n)
    } else {
        x >> n
    }
}

/// Arithmetic shift right of `x` by `n` places, `n < 32`.
pub fn asr32(x: u32, n: u32) -> (r: u32)
    requires
        n < 32,
    ensures
        r == spec_asr32(x, n),
{
    if x & 0x8000_0000 != 0 {
        (x >> n) | !(0xFFFF_FFFFu32 >> n)
    } else {
        x >> n
    }
}

/// Facts about masks that bound register indices and small fields.
pub proof fn lemma_small_masks()
    by (bit_vector)
    ensures
        forall|x: u16| #[trigger] (x & 0x7) < 8,
        forall|x: u16| #[trigger] (x & 0xF) < 16,
        forall|x: u16| #[trigger] (x & 0x1F) < 32,
        forall|x: u16| #[trigger] (x & 0xFF) < 256,
        forall|x: u16| #[trigger] (x & 0x3) < 4,
        forall|x: u16| #[trigger] (x & 0x7F) < 128,
        forall|x: u16| #[trigger] (x & 0x3F) < 64,
        forall|x: u16| #[trigger] (x & 0x7FF) < 2048,
        forall|x: u16| #[trigger] (x & 0xFFF) < 4096,
        forall|x: u16| #[trigger] (x & 0x3FF) < 1024,
        forall|x: u16| #[trigger] (x & 0x1) < 2,
{
}

/// Bounds of 32-bit masks.
pub proof fn lemma_small_masks32()
    by (bit_vector)
    ensures
        forall|x: u32| #[trigger] (x & 0x7) < 8,
        forall|x: u32| #[trigger] (x & 0xF) < 16,
        forall|x: u32| #[trigger] (x & 0x1F) < 32,
        forall|x: u32| #[trigger] (x & 0xFF) < 256,
        forall|x: u32| #[trigger] (x & 0x3) < 4,
        forall|x: u32| #[trigger] (x & 0xFFFF) < 65536,
        forall|x: u32| #[trigger] (x & 0x1) < 2,
        forall|x: u32| #[trigger] (x & 0x3F) < 64,
        forall|x: u32| #[trigger] (x & 0x1FF) < 512,
{
}

/// `x` saturated at `u64::MAX`.
pub open spec fn sat_u64(x: int) -> u64 {
    if x > u64::MAX { u64::MAX } else { x as u64 }
}

/// `a * b`, saturated at `u64::MAX`.
pub fn sat_mul(a: u64, b: u64) -> (r: u64)
    ensures
        r == sat_u64(a * b),
{
    match a.checked_mul(b) {
        Some(p) => p,
        None => u64::MAX,
    }
}

} // verus!
