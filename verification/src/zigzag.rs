//! Zig-zag mapping between signed and unsigned integers, so that values of small
//! magnitude, negative or not, get short varints.
use vstd::prelude::*;

use crate::spec::{unzigzag, zigzag};

verus! {

/// Zig-zag encoding of an `i16`: `(x << 1) ^ (x >> 15)`, read as unsigned.
pub(crate) fn zigzag_i16(x: i16) -> (u: u16)
    ensures
        u == zigzag(x as int),
{
    let z = ((x << 1) ^ (x >> 15)) as u16;
    proof {
        assert(x >= 0 ==> z == 2 * (x as u16)) by (bit_vector)
            requires
                z == ((x << 1) ^ (x >> 15)) as u16,
        ;
        assert(x < 0 ==> z == 2 * ((!x) as u16) + 1 && (!x) as int == -x - 1 && !x >= 0)
            by (bit_vector)
            requires
                z == ((x << 1) ^ (x >> 15)) as u16,
        ;
    }
    z
}

/// Zig-zag decoding into an `i16`: `(u >> 1) ^ -(u & 1)`.
pub(crate) fn unzigzag_u16(u: u16) -> (x: i16)
    ensures
        x as int == unzigzag(u as nat),
{
    proof {
        assert((u & 1) as i16 <= 1 && (u & 1) as i16 >= 0) by (bit_vector);
        assert((u & 1) as i16 == if u % 2 == 0 { 0i16 } else { 1i16 }) by (bit_vector);
    }
    let sign = -((u & 1) as i16);
    let x = ((u >> 1) as i16) ^ sign;
    proof {
        assert(u % 2 == 0 ==> x == (u / 2) as i16) by (bit_vector)
            requires
                x == ((u >> 1) as i16) ^ sign,
                sign == if u % 2 == 0 { 0i16 } else { -1i16 },
        ;
        assert(u % 2 == 1 ==> x == -((u / 2) as i16) - 1) by (bit_vector)
            requires
                x == ((u >> 1) as i16) ^ sign,
                sign == if u % 2 == 0 { 0i16 } else { -1i16 },
        ;
        assert((u / 2) as i16 as int == u / 2) by (bit_vector);
    }
    x
}

/// Zig-zag encoding of an `i32`: `(x << 1) ^ (x >> 31)`, read as unsigned.
pub(crate) fn zigzag_i32(x: i32) -> (u: u32)
    ensures
        u == zigzag(x as int),
{
    let z = ((x << 1) ^ (x >> 31)) as u32;
    proof {
        assert(x >= 0 ==> z == 2 * (x as u32)) by (bit_vector)
            requires
                z == ((x << 1) ^ (x >> 31)) as u32,
        ;
        assert(x < 0 ==> z == 2 * ((!x) as u32) + 1 && (!x) as int == -x - 1 && !x >= 0)
            by (bit_vector)
            requires
                z == ((x << 1) ^ (x >> 31)) as u32,
        ;
    }
    z
}

/// Zig-zag decoding into an `i32`: `(u >> 1) ^ -(u & 1)`.
pub(crate) fn unzigzag_u32(u: u32) -> (x: i32)
    ensures
        x as int == unzigzag(u as nat),
{
    proof {
        assert((u & 1) as i32 <= 1 && (u & 1) as i32 >= 0) by (bit_vector);
        assert((u & 1) as i32 == if u % 2 == 0 { 0i32 } else { 1i32 }) by (bit_vector);
    }
    let sign = -((u & 1) as i32);
    let x = ((u >> 1) as i32) ^ sign;
    proof {
        assert(u % 2 == 0 ==> x == (u / 2) as i32) by (bit_vector)
            requires
                x == ((u >> 1) as i32) ^ sign,
                sign == if u % 2 == 0 { 0i32 } else { -1i32 },
        ;
        assert(u % 2 == 1 ==> x == -((u / 2) as i32) - 1) by (bit_vector)
            requires
                x == ((u >> 1) as i32) ^ sign,
                sign == if u % 2 == 0 { 0i32 } else { -1i32 },
        ;
        assert((u / 2) as i32 as int == u / 2) by (bit_vector);
    }
    x
}

/// Zig-zag encoding of an `i64`: `(x << 1) ^ (x >> 63)`, read as unsigned.
pub(crate) fn zigzag_i64(x: i64) -> (u: u64)
    ensures
        u == zigzag(x as int),
{
    let z = ((x << 1) ^ (x >> 63)) as u64;
    proof {
        assert(x >= 0 ==> z == 2 * (x as u64)) by (bit_vector)
            requires
                z == ((x << 1) ^ (x >> 63)) as u64,
        ;
        assert(x < 0 ==> z == 2 * ((!x) as u64) + 1 && (!x) as int == -x - 1 && !x >= 0)
            by (bit_vector)
            requires
                z == ((x << 1) ^ (x >> 63)) as u64,
        ;
    }
    z
}

/// Zig-zag decoding into an `i64`: `(u >> 1) ^ -(u & 1)`.
pub(crate) fn unzigzag_u64(u: u64) -> (x: i64)
    ensures
        x as int == unzigzag(u as nat),
{
    proof {
        assert((u & 1) as i64 <= 1 && (u & 1) as i64 >= 0) by (bit_vector);
        assert((u & 1) as i64 == if u % 2 == 0 { 0i64 } else { 1i64 }) by (bit_vector);
    }
    let sign = -((u & 1) as i64);
    let x = ((u >> 1) as i64) ^ sign;
    proof {
        assert(u % 2 == 0 ==> x == (u / 2) as i64) by (bit_vector)
            requires
                x == ((u >> 1) as i64) ^ sign,
                sign == if u % 2 == 0 { 0i64 } else { -1i64 },
        ;
        assert(u % 2 == 1 ==> x == -((u / 2) as i64) - 1) by (bit_vector)
            requires
                x == ((u >> 1) as i64) ^ sign,
                sign == if u % 2 == 0 { 0i64 } else { -1i64 },
        ;
        assert((u / 2) as i64 as int == u / 2) by (bit_vector);
    }
    x
}

/// Zig-zag encoding of an `i128`: `(x << 1) ^ (x >> 127)`, read as unsigned.
pub(crate) fn zigzag_i128(x: i128) -> (u: u128)
    ensures
        u == zigzag(x as int),
{
    let z = ((x << 1) ^ (x >> 127)) as u128;
    proof {
        assert(x >= 0 ==> z == 2 * (x as u128)) by (bit_vector)
            requires
                z == ((x << 1) ^ (x >> 127)) as u128,
        ;
        assert(x < 0 ==> z == 2 * ((!x) as u128) + 1 && (!x) as int == -x - 1 && !x >= 0)
            by (bit_vector)
            requires
                z == ((x << 1) ^ (x >> 127)) as u128,
        ;
    }
    z
}

/// Zig-zag decoding into an `i128`: `(u >> 1) ^ -(u & 1)`.
pub(crate) fn unzigzag_u128(u: u128) -> (x: i128)
    ensures
        x as int == unzigzag(u as nat),
{
    proof {
        assert((u & 1) as i128 <= 1 && (u & 1) as i128 >= 0) by (bit_vector);
        assert((u & 1) as i128 == if u % 2 == 0 { 0i128 } else { 1i128 }) by (bit_vector);
    }
    let sign = -((u & 1) as i128);
    let x = ((u >> 1) as i128) ^ sign;
    proof {
        assert(u % 2 == 0 ==> x == (u / 2) as i128) by (bit_vector)
            requires
                x == ((u >> 1) as i128) ^ sign,
                sign == if u % 2 == 0 { 0i128 } else { -1i128 },
        ;
        assert(u % 2 == 1 ==> x == -((u / 2) as i128) - 1) by (bit_vector)
            requires
                x == ((u >> 1) as i128) ^ sign,
                sign == if u % 2 == 0 { 0i128 } else { -1i128 },
        ;
        assert((u / 2) as i128 as int == u / 2) by (bit_vector);
    }
    x
}

/// Zig-zag decoding undoes zig-zag encoding.
pub proof fn lemma_unzigzag_zigzag(x: int)
    ensures
        unzigzag(zigzag(x)) == x,
{
}

/// Zig-zag encoding undoes zig-zag decoding.
pub proof fn lemma_zigzag_unzigzag(u: nat)
    ensures
        zigzag(unzigzag(u)) == u,
{
}

/// A signed value whose magnitude fits `bits - 1` bits has a zig-zag form that fits
/// `bits` bits: the zig-zag form of an `iN` fits a `uN`.
pub proof fn lemma_zigzag_fits(x: int, half: nat)
    requires
        -half <= x < half,
    ensures
        zigzag(x) < 2 * half,
{
}

} // verus!
