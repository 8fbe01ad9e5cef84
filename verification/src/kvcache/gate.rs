//! Shape gates of the rotor flash-decode kernels.
use vstd::arithmetic::power2::{lemma2_to64, pow2};
use vstd::prelude::*;

use crate::kvcache::request::KvCache;
use crate::tensor::Shape;

verus! {

/// Widest head that the rotor flash-decode kernels take.
pub const ROTOR_FLASH_HEAD_DIM_MAX: i32 = 512;

/// Whether a number is a power of two.
pub open spec fn is_power_of_two(n: int) -> bool {
    exists|k: nat| n == #[trigger] pow2(k)
}

/// The powers of two that fit into 32 bits are those words with a single bit set.
proof fn lemma_single_bit(x: u32)
    ensures
        is_power_of_two(x as int) <==> (x != 0 && x & ((x - 1) as u32) == 0),
{
    lemma2_to64();
    if x != 0 && x & ((x - 1) as u32) == 0 {
        assert(x == 0x1 || x == 0x2 || x == 0x4 || x == 0x8 || x == 0x10 || x == 0x20 || x == 0x40
            || x == 0x80 || x == 0x100 || x == 0x200 || x == 0x400 || x == 0x800 || x == 0x1000
            || x == 0x2000 || x == 0x4000 || x == 0x8000 || x == 0x10000 || x == 0x20000
            || x == 0x40000 || x == 0x80000 || x == 0x100000 || x == 0x200000 || x == 0x400000
            || x == 0x800000 || x == 0x1000000 || x == 0x2000000 || x == 0x4000000
            || x == 0x8000000 || x == 0x10000000 || x == 0x20000000 || x == 0x40000000
            || x == 0x80000000) by (bit_vector)
            requires
                x != 0,
                x & ((x - 1) as u32) == 0,
        ;
    }
    if is_power_of_two(x as int) {
        let k = choose|k: nat| x as int == #[trigger] pow2(k);
        lemma_pow2_word(k, x);
    }
}

/// A power of two below `2^32` has its exponent below 32 and a single bit set.
proof fn lemma_pow2_word(k: nat, x: u32)
    requires
        x == pow2(k),
    ensures
        x != 0,
        x & ((x - 1) as u32) == 0,
{
    lemma2_to64();
    if k >= 32 {
        if k > 32 {
            vstd::arithmetic::power2::lemma_pow2_strictly_increases(32, k);
        }
        assert(false);
    }
    let e = k as u32;
    vstd::bits::lemma_u32_pow2_no_overflow(k);
    vstd::bits::lemma_u32_shl_is_mul(1, e);
    assert(x == 1u32 << e);
    assert(x != 0 && x & ((x - 1) as u32) == 0) by (bit_vector)
        requires
            x == 1u32 << e,
            e < 32,
    ;
}

/// Whether a head dimension, read as an unsigned word, is a power of two.
pub fn head_dim_is_power_of_two(head_dim: i32) -> (r: bool)
    ensures
        r == is_power_of_two((head_dim as u32) as int),
{
    let x: u32 = head_dim as u32;
    proof {
        lemma_single_bit(x);
    }
    x != 0 && x & (x - 1) == 0
}

/// Whether the rotor flash-decode kernels can serve a step of this shape: one
/// request, at least one K/V head, and a head dimension that is a power of two
/// no wider than the kernels take. Only the shape counts, never a model name.
pub open spec fn rotor_shape_fits(shape: Shape) -> bool {
    &&& shape.rank >= 4
    &&& shape.d0 == 1
    &&& shape.d1 >= 1
    &&& 1 <= shape.d3 <= ROTOR_FLASH_HEAD_DIM_MAX
    &&& is_power_of_two(shape.d3 as int)
}

/// The powers of two that fit into a word, one by one.
pub proof fn law_powers_of_two_in_a_word(n: int)
    requires
        0 <= n <= u32::MAX,
    ensures
        is_power_of_two(n) <==> (n == 0x1 || n == 0x2 || n == 0x4 || n == 0x8 || n == 0x10 || n
            == 0x20 || n == 0x40 || n == 0x80 || n == 0x100 || n == 0x200 || n == 0x400 || n
            == 0x800 || n == 0x1000 || n == 0x2000 || n == 0x4000 || n == 0x8000 || n == 0x10000
            || n == 0x20000 || n == 0x40000 || n == 0x80000 || n == 0x100000 || n == 0x200000 || n
            == 0x400000 || n == 0x800000 || n == 0x1000000 || n == 0x2000000 || n == 0x4000000 || n
            == 0x8000000 || n == 0x10000000 || n == 0x20000000 || n == 0x40000000 || n
            == 0x80000000),
{
    lemma2_to64();
    if is_power_of_two(n) {
        let k = choose|k: nat| n == #[trigger] pow2(k);
        if k > 32 {
            vstd::arithmetic::power2::lemma_pow2_strictly_increases(32, k);
        }
        assert(k < 32);
        assert(k == 0 || k == 1 || k == 2 || k == 3 || k == 4 || k == 5 || k == 6 || k == 7 || k
            == 8 || k == 9 || k == 10 || k == 11 || k == 12 || k == 13 || k == 14 || k == 15 || k
            == 16 || k == 17 || k == 18 || k == 19 || k == 20 || k == 21 || k == 22 || k == 23 || k
            == 24 || k == 25 || k == 26 || k == 27 || k == 28 || k == 29 || k == 30 || k == 31);
    }
}

/// The shapes that the rotor kernels serve: a single request, at least one K/V
/// head, and a head dimension among the ten powers of two up to 512.
pub proof fn law_rotor_shapes(shape: Shape)
    ensures
        rotor_shape_fits(shape) <==> {
            &&& shape.rank >= 4
            &&& shape.d0 == 1
            &&& shape.d1 > 0
            &&& (shape.d3 == 1 || shape.d3 == 2 || shape.d3 == 4 || shape.d3 == 8 || shape.d3 == 16
                || shape.d3 == 32 || shape.d3 == 64 || shape.d3 == 128 || shape.d3 == 256
                || shape.d3 == 512)
        },
{
    if 1 <= shape.d3 {
        law_powers_of_two_in_a_word(shape.d3 as int);
    }
}

impl KvCache {
    /// Whether the rotor flash-decode kernels can serve a step of this shape.
    pub fn rotor_flash_shape_ok(new_shape: &Shape) -> (r: bool)
        ensures
            r == rotor_shape_fits(*new_shape),
    {
        let b: i32 = match new_shape.dim(0) {
            Some(d) => d,
            None => return false,
        };
        let kv_h: i32 = match new_shape.dim(1) {
            Some(d) => d,
            None => return false,
        };
        let head_dim: i32 = match new_shape.dim(3) {
            Some(d) => d,
            None => return false,
        };
        if b != 1 || kv_h <= 0 {
            return false;
        }
        if head_dim <= 0 || head_dim > ROTOR_FLASH_HEAD_DIM_MAX {
            return false;
        }
        head_dim_is_power_of_two(head_dim)
    }
}

} // verus!
