//! How many bytes the LEB128 encoding of a value takes.
use vstd::arithmetic::div_mod::lemma_div_denominator;
use vstd::arithmetic::power2::{lemma2_to64, lemma2_to64_rest, lemma_pow2_pos, lemma_pow2_unfold, pow2};
use vstd::prelude::*;
use vstd::std_specs::bits::{axiom_u64_leading_zeros, u64_leading_zeros};

use crate::spec::{
    lemma_varint_bytes_shape, lemma_varint_len_le, lemma_width_params, varint_len, zigzag,
};
use crate::zigzag::{zigzag_i128, zigzag_i64};

verus! {

/// The number of significant bits of `v` (zero for zero).
pub open spec fn bit_len(v: nat) -> nat
    decreases v,
{
    if v == 0 {
        0
    } else {
        1 + bit_len(v / 2)
    }
}

proof fn lemma_u64_leading_zeros(v: u64)
    ensures
        u64_leading_zeros(v) == 64 - bit_len(v as nat),
        bit_len(v as nat) <= 64,
    decreases v,
{
    reveal(u64_leading_zeros);
    axiom_u64_leading_zeros(v);
    if v != 0 {
        lemma_u64_leading_zeros(v / 2);
    }
}

proof fn lemma_bit_len_le7(v: nat)
    requires
        v < 128,
    ensures
        bit_len(v) <= 7,
{
    reveal_with_fuel(bit_len, 8);
}

/// Dropping the low `k` bits of a value of at least `2^k` shortens it by `k` bits.
proof fn lemma_bit_len_div_pow2(v: nat, k: nat)
    requires
        v >= pow2(k),
    ensures
        bit_len(v) == k + bit_len(v / pow2(k)),
    decreases k,
{
    if k == 0 {
        lemma2_to64();
        let p = pow2(0);
        assert(v / p == v) by (nonlinear_arith)
            requires
                p == 1,
        ;
    } else {
        lemma_pow2_unfold(k);
        lemma_pow2_pos((k - 1) as nat);
        assert(v / 2 >= pow2((k - 1) as nat));
        lemma_bit_len_div_pow2(v / 2, (k - 1) as nat);
        lemma_div_denominator(v as int, 2, pow2((k - 1) as nat) as int);
        assert((v / 2) / pow2((k - 1) as nat) == v / pow2(k));
        assert(v > 0);
        assert(bit_len(v) == 1 + bit_len(v / 2));
    }
}

/// For a nonzero value, its LEB128 length is its bit length divided by 7, rounded up.
proof fn lemma_varint_len_from_bits(v: nat)
    requires
        v >= 1,
    ensures
        varint_len(v) == (bit_len(v) + 6) / 7,
    decreases v,
{
    if v < 128 {
        lemma_bit_len_le7(v);
    } else {
        lemma2_to64();
        lemma_bit_len_div_pow2(v, 7);
        lemma_varint_len_from_bits(v / 128);
    }
}

/// Returns the encoded length of the value in LEB128 variable length format.
/// The returned value will be in range of `<u64 as Varint>::encoded_len_range()`, `1..=10`.
pub fn encoded_u64_varint_len(value: u64) -> (len: usize)
    ensures
        len == varint_len(value as nat),
        1 <= len <= 10,
{
    proof {
        lemma_width_params();
        lemma_varint_bytes_shape(value as nat);
        lemma_varint_len_le(value as nat, 10);
    }
    let nonzero = value | 1;
    proof {
        assert(nonzero / 2 == value / 2 && nonzero != 0) by (bit_vector)
            requires
                nonzero == value | 1,
        ;
        assert(value == 0 ==> nonzero == 1) by (bit_vector)
            requires
                nonzero == value | 1,
        ;
        lemma_u64_leading_zeros(nonzero);
        reveal_with_fuel(bit_len, 2);
        assert(bit_len(nonzero as nat) == if value == 0 {
            1
        } else {
            bit_len(value as nat)
        });
        if value != 0 {
            lemma_varint_len_from_bits(value as nat);
        }
    }
    // The floor of the base-2 logarithm, as in protobuf's `VarintSize64`.
    let log2value = 63 - nonzero.leading_zeros();
    proof {
        assert(log2value <= 63 ==> (log2value * 9 + 73) / 64 == (log2value + 7) / 7)
            by (bit_vector);
    }
    ((log2value * 9 + (64 + 9)) / 64) as usize
}

/// The number of leading zero bits of a `u128`, from the counts of its two halves.
fn u128_leading_zeros(value: u128) -> (zeros: u32)
    ensures
        bit_len(value as nat) <= 128,
        zeros == 128 - bit_len(value as nat),
{
    let high = (value >> 64) as u64;
    proof {
        assert(high == value / 0x1_0000_0000_0000_0000) by (bit_vector)
            requires
                high == (value >> 64) as u64,
        ;
        lemma_u64_leading_zeros(high);
        lemma2_to64();
        lemma2_to64_rest();
    }
    if high != 0 {
        proof {
            lemma_bit_len_div_pow2(value as nat, 64);
        }
        high.leading_zeros()
    } else {
        let low = value as u64;
        proof {
            assert(low == value) by (bit_vector)
                requires
                    low == value as u64,
                    value >> 64 == 0,
            ;
            lemma_u64_leading_zeros(low);
        }
        64 + low.leading_zeros()
    }
}

/// Returns the encoded length of the value in LEB128 variable length format.
/// The returned value will be in range of `<u128 as Varint>::encoded_len_range()`, `1..=19`.
pub fn encoded_u128_varint_len(value: u128) -> (len: usize)
    ensures
        len == varint_len(value as nat),
        1 <= len <= 19,
{
    proof {
        lemma_width_params();
        lemma_varint_bytes_shape(value as nat);
        lemma_varint_len_le(value as nat, 19);
    }
    // Each byte in LEB128 encoding can hold 7 bits of data
    // Special case for 0 and small numbers
    if value < 128 {
        return 1;
    }
    // Calculate position of highest set bit
    let highest_bit = 128 - u128_leading_zeros(value);
    proof {
        lemma_varint_len_from_bits(value as nat);
    }
    // Each byte holds 7 bits, rounded up
    ((highest_bit + 6) / 7) as usize
}

/// Returns the encoded length of the value in LEB128 variable length format.
/// The returned value will be in range of `<u16 as Varint>::encoded_len_range()`, `1..=3`.
pub fn encoded_u16_varint_len(value: u16) -> (len: usize)
    ensures
        len == varint_len(value as nat),
        1 <= len <= 3,
{
    proof {
        lemma_width_params();
        lemma_varint_bytes_shape(value as nat);
        lemma_varint_len_le(value as nat, 3);
    }
    encoded_u64_varint_len(value as u64)
}

/// Returns the encoded length of the value in LEB128 variable length format.
/// The returned value will be in range of `<u32 as Varint>::encoded_len_range()`, `1..=5`.
pub fn encoded_u32_varint_len(value: u32) -> (len: usize)
    ensures
        len == varint_len(value as nat),
        1 <= len <= 5,
{
    proof {
        lemma_width_params();
        lemma_varint_bytes_shape(value as nat);
        lemma_varint_len_le(value as nat, 5);
    }
    encoded_u64_varint_len(value as u64)
}

/// Returns the encoded length of the value in LEB128 variable length format.
/// The returned value will be in range of `<i64 as Varint>::encoded_len_range()`, `1..=10`.
pub fn encoded_i64_varint_len(x: i64) -> (len: usize)
    ensures
        len == varint_len(zigzag(x as int)),
        1 <= len <= 10,
{
    proof {
        lemma_width_params();
        lemma_varint_bytes_shape(zigzag(x as int));
        lemma_varint_len_le(zigzag(x as int), 10);
    }
    encoded_u64_varint_len(zigzag_i64(x))
}

/// Returns the encoded length of the value in LEB128 variable length format.
/// The returned value will be in range of `<i128 as Varint>::encoded_len_range()`, `1..=19`.
pub fn encoded_i128_varint_len(x: i128) -> (len: usize)
    ensures
        len == varint_len(zigzag(x as int)),
        1 <= len <= 19,
{
    proof {
        lemma_width_params();
        lemma_varint_bytes_shape(zigzag(x as int));
        lemma_varint_len_le(zigzag(x as int), 19);
    }
    encoded_u128_varint_len(zigzag_i128(x))
}

/// Returns the encoded length of the value in LEB128 variable length format.
/// The returned value will be in range of `<i16 as Varint>::encoded_len_range()`, `1..=3`.
pub fn encoded_i16_varint_len(value: i16) -> (len: usize)
    ensures
        len == varint_len(zigzag(value as int)),
        1 <= len <= 3,
{
    proof {
        lemma_width_params();
        lemma_varint_bytes_shape(zigzag(value as int));
        lemma_varint_len_le(zigzag(value as int), 3);
    }
    encoded_i64_varint_len(value as i64)
}

/// Returns the encoded length of the value in LEB128 variable length format.
/// The returned value will be in range of `<i32 as Varint>::encoded_len_range()`, `1..=5`.
pub fn encoded_i32_varint_len(value: i32) -> (len: usize)
    ensures
        len == varint_len(zigzag(value as int)),
        1 <= len <= 5,
{
    proof {
        lemma_width_params();
        lemma_varint_bytes_shape(zigzag(value as int));
        lemma_varint_len_le(zigzag(value as int), 5);
    }
    encoded_i64_varint_len(value as i64)
}

} // verus!
