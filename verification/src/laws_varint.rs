//! What the `Varint` methods of each integer type do, stated through their results:
//! each agrees with the width's own length, encoding and decoding functions.
use vstd::prelude::*;

use crate::codec::{
    decode_i128_varint, decode_i16_varint, decode_i32_varint, decode_i64_varint,
    decode_u128_varint, decode_u16_varint, decode_u32_varint, decode_u64_varint,
};
use crate::error::{DecodeError, EncodeError};
use crate::len::{
    encoded_i128_varint_len, encoded_i16_varint_len, encoded_i32_varint_len,
    encoded_i64_varint_len, encoded_u128_varint_len, encoded_u16_varint_len,
    encoded_u32_varint_len, encoded_u64_varint_len,
};
use crate::spec::{encoded_into, varint_len, zigzag};
use crate::varint::Varint;
use crate::zigzag::lemma_unzigzag_zigzag;

verus! {

/// `x.encoded_len()` is the number of bytes of the LEB128 encoding of `x`, the same
/// as `encoded_u16_varint_len(x)`.
pub proof fn lemma_u16_trait_encoded_len(x: u16, len: usize, free_len: usize)
    requires
        call_ensures(<u16 as Varint>::encoded_len, (&x,), len),
        call_ensures(encoded_u16_varint_len, (x,), free_len),
    ensures
        len == varint_len(x as nat),
        len == free_len,
{
}

/// `x.encode(buf)` writes the LEB128 encoding of `x`, exactly as
/// `encode_u16_varint_to(x, buf)` does.
pub proof fn lemma_u16_trait_encode(x: u16, buf: &mut [u8], res: Result<usize, EncodeError>)
    requires
        call_ensures(<u16 as Varint>::encode, (&x, buf), res),
    ensures
        encoded_into(x as nat, old(buf)@, final(buf)@, res),
{
}

/// `u16::decode(buf)` gives the same result as `decode_u16_varint(buf)`.
pub proof fn lemma_u16_trait_decode(
    buf: &[u8],
    r1: Result<(usize, u16), DecodeError>,
    r2: Result<(usize, u16), DecodeError>,
)
    requires
        call_ensures(<u16 as Varint>::decode, (buf,), r1),
        call_ensures(decode_u16_varint, (buf,), r2),
    ensures
        r1 == r2,
{
    let zero: u16 = 0;
    zero.lemma_repr_fits();
}

/// `x.encoded_len()` is the number of bytes of the LEB128 encoding of the zig-zag form of `x`, the same
/// as `encoded_i16_varint_len(x)`.
pub proof fn lemma_i16_trait_encoded_len(x: i16, len: usize, free_len: usize)
    requires
        call_ensures(<i16 as Varint>::encoded_len, (&x,), len),
        call_ensures(encoded_i16_varint_len, (x,), free_len),
    ensures
        len == varint_len(zigzag(x as int)),
        len == free_len,
{
}

/// `x.encode(buf)` writes the LEB128 encoding of the zig-zag form of `x`, exactly as
/// `encode_i16_varint_to(x, buf)` does.
pub proof fn lemma_i16_trait_encode(x: i16, buf: &mut [u8], res: Result<usize, EncodeError>)
    requires
        call_ensures(<i16 as Varint>::encode, (&x, buf), res),
    ensures
        encoded_into(zigzag(x as int), old(buf)@, final(buf)@, res),
{
}

/// `i16::decode(buf)` gives the same result as `decode_i16_varint(buf)`.
pub proof fn lemma_i16_trait_decode(
    buf: &[u8],
    r1: Result<(usize, i16), DecodeError>,
    r2: Result<(usize, i16), DecodeError>,
)
    requires
        call_ensures(<i16 as Varint>::decode, (buf,), r1),
        call_ensures(decode_i16_varint, (buf,), r2),
    ensures
        r1 == r2,
{
    let zero: i16 = 0;
    zero.lemma_repr_fits();
    if let (Ok((_, v1)), Ok((_, v2))) = (r1, r2) {
        lemma_unzigzag_zigzag(v1 as int);
        lemma_unzigzag_zigzag(v2 as int);
    }
}

/// `x.encoded_len()` is the number of bytes of the LEB128 encoding of `x`, the same
/// as `encoded_u32_varint_len(x)`.
pub proof fn lemma_u32_trait_encoded_len(x: u32, len: usize, free_len: usize)
    requires
        call_ensures(<u32 as Varint>::encoded_len, (&x,), len),
        call_ensures(encoded_u32_varint_len, (x,), free_len),
    ensures
        len == varint_len(x as nat),
        len == free_len,
{
}

/// `x.encode(buf)` writes the LEB128 encoding of `x`, exactly as
/// `encode_u32_varint_to(x, buf)` does.
pub proof fn lemma_u32_trait_encode(x: u32, buf: &mut [u8], res: Result<usize, EncodeError>)
    requires
        call_ensures(<u32 as Varint>::encode, (&x, buf), res),
    ensures
        encoded_into(x as nat, old(buf)@, final(buf)@, res),
{
}

/// `u32::decode(buf)` gives the same result as `decode_u32_varint(buf)`.
pub proof fn lemma_u32_trait_decode(
    buf: &[u8],
    r1: Result<(usize, u32), DecodeError>,
    r2: Result<(usize, u32), DecodeError>,
)
    requires
        call_ensures(<u32 as Varint>::decode, (buf,), r1),
        call_ensures(decode_u32_varint, (buf,), r2),
    ensures
        r1 == r2,
{
    let zero: u32 = 0;
    zero.lemma_repr_fits();
}

/// `x.encoded_len()` is the number of bytes of the LEB128 encoding of the zig-zag form of `x`, the same
/// as `encoded_i32_varint_len(x)`.
pub proof fn lemma_i32_trait_encoded_len(x: i32, len: usize, free_len: usize)
    requires
        call_ensures(<i32 as Varint>::encoded_len, (&x,), len),
        call_ensures(encoded_i32_varint_len, (x,), free_len),
    ensures
        len == varint_len(zigzag(x as int)),
        len == free_len,
{
}

/// `x.encode(buf)` writes the LEB128 encoding of the zig-zag form of `x`, exactly as
/// `encode_i32_varint_to(x, buf)` does.
pub proof fn lemma_i32_trait_encode(x: i32, buf: &mut [u8], res: Result<usize, EncodeError>)
    requires
        call_ensures(<i32 as Varint>::encode, (&x, buf), res),
    ensures
        encoded_into(zigzag(x as int), old(buf)@, final(buf)@, res),
{
}

/// `i32::decode(buf)` gives the same result as `decode_i32_varint(buf)`.
pub proof fn lemma_i32_trait_decode(
    buf: &[u8],
    r1: Result<(usize, i32), DecodeError>,
    r2: Result<(usize, i32), DecodeError>,
)
    requires
        call_ensures(<i32 as Varint>::decode, (buf,), r1),
        call_ensures(decode_i32_varint, (buf,), r2),
    ensures
        r1 == r2,
{
    let zero: i32 = 0;
    zero.lemma_repr_fits();
    if let (Ok((_, v1)), Ok((_, v2))) = (r1, r2) {
        lemma_unzigzag_zigzag(v1 as int);
        lemma_unzigzag_zigzag(v2 as int);
    }
}

/// `x.encoded_len()` is the number of bytes of the LEB128 encoding of `x`, the same
/// as `encoded_u64_varint_len(x)`.
pub proof fn lemma_u64_trait_encoded_len(x: u64, len: usize, free_len: usize)
    requires
        call_ensures(<u64 as Varint>::encoded_len, (&x,), len),
        call_ensures(encoded_u64_varint_len, (x,), free_len),
    ensures
        len == varint_len(x as nat),
        len == free_len,
{
}

/// `x.encode(buf)` writes the LEB128 encoding of `x`, exactly as
/// `encode_u64_varint_to(x, buf)` does.
pub proof fn lemma_u64_trait_encode(x: u64, buf: &mut [u8], res: Result<usize, EncodeError>)
    requires
        call_ensures(<u64 as Varint>::encode, (&x, buf), res),
    ensures
        encoded_into(x as nat, old(buf)@, final(buf)@, res),
{
}

/// `u64::decode(buf)` gives the same result as `decode_u64_varint(buf)`.
pub proof fn lemma_u64_trait_decode(
    buf: &[u8],
    r1: Result<(usize, u64), DecodeError>,
    r2: Result<(usize, u64), DecodeError>,
)
    requires
        call_ensures(<u64 as Varint>::decode, (buf,), r1),
        call_ensures(decode_u64_varint, (buf,), r2),
    ensures
        r1 == r2,
{
    let zero: u64 = 0;
    zero.lemma_repr_fits();
}

/// `x.encoded_len()` is the number of bytes of the LEB128 encoding of the zig-zag form of `x`, the same
/// as `encoded_i64_varint_len(x)`.
pub proof fn lemma_i64_trait_encoded_len(x: i64, len: usize, free_len: usize)
    requires
        call_ensures(<i64 as Varint>::encoded_len, (&x,), len),
        call_ensures(encoded_i64_varint_len, (x,), free_len),
    ensures
        len == varint_len(zigzag(x as int)),
        len == free_len,
{
}

/// `x.encode(buf)` writes the LEB128 encoding of the zig-zag form of `x`, exactly as
/// `encode_i64_varint_to(x, buf)` does.
pub proof fn lemma_i64_trait_encode(x: i64, buf: &mut [u8], res: Result<usize, EncodeError>)
    requires
        call_ensures(<i64 as Varint>::encode, (&x, buf), res),
    ensures
        encoded_into(zigzag(x as int), old(buf)@, final(buf)@, res),
{
}

/// `i64::decode(buf)` gives the same result as `decode_i64_varint(buf)`.
pub proof fn lemma_i64_trait_decode(
    buf: &[u8],
    r1: Result<(usize, i64), DecodeError>,
    r2: Result<(usize, i64), DecodeError>,
)
    requires
        call_ensures(<i64 as Varint>::decode, (buf,), r1),
        call_ensures(decode_i64_varint, (buf,), r2),
    ensures
        r1 == r2,
{
    let zero: i64 = 0;
    zero.lemma_repr_fits();
    if let (Ok((_, v1)), Ok((_, v2))) = (r1, r2) {
        lemma_unzigzag_zigzag(v1 as int);
        lemma_unzigzag_zigzag(v2 as int);
    }
}

/// `x.encoded_len()` is the number of bytes of the LEB128 encoding of `x`, the same
/// as `encoded_u128_varint_len(x)`.
pub proof fn lemma_u128_trait_encoded_len(x: u128, len: usize, free_len: usize)
    requires
        call_ensures(<u128 as Varint>::encoded_len, (&x,), len),
        call_ensures(encoded_u128_varint_len, (x,), free_len),
    ensures
        len == varint_len(x as nat),
        len == free_len,
{
}

/// `x.encode(buf)` writes the LEB128 encoding of `x`, exactly as
/// `encode_u128_varint_to(x, buf)` does.
pub proof fn lemma_u128_trait_encode(x: u128, buf: &mut [u8], res: Result<usize, EncodeError>)
    requires
        call_ensures(<u128 as Varint>::encode, (&x, buf), res),
    ensures
        encoded_into(x as nat, old(buf)@, final(buf)@, res),
{
}

/// `u128::decode(buf)` gives the same result as `decode_u128_varint(buf)`.
pub proof fn lemma_u128_trait_decode(
    buf: &[u8],
    r1: Result<(usize, u128), DecodeError>,
    r2: Result<(usize, u128), DecodeError>,
)
    requires
        call_ensures(<u128 as Varint>::decode, (buf,), r1),
        call_ensures(decode_u128_varint, (buf,), r2),
    ensures
        r1 == r2,
{
    let zero: u128 = 0;
    zero.lemma_repr_fits();
}

/// `x.encoded_len()` is the number of bytes of the LEB128 encoding of the zig-zag form of `x`, the same
/// as `encoded_i128_varint_len(x)`.
pub proof fn lemma_i128_trait_encoded_len(x: i128, len: usize, free_len: usize)
    requires
        call_ensures(<i128 as Varint>::encoded_len, (&x,), len),
        call_ensures(encoded_i128_varint_len, (x,), free_len),
    ensures
        len == varint_len(zigzag(x as int)),
        len == free_len,
{
}

/// `x.encode(buf)` writes the LEB128 encoding of the zig-zag form of `x`, exactly as
/// `encode_i128_varint_to(x, buf)` does.
pub proof fn lemma_i128_trait_encode(x: i128, buf: &mut [u8], res: Result<usize, EncodeError>)
    requires
        call_ensures(<i128 as Varint>::encode, (&x, buf), res),
    ensures
        encoded_into(zigzag(x as int), old(buf)@, final(buf)@, res),
{
}

/// `i128::decode(buf)` gives the same result as `decode_i128_varint(buf)`.
pub proof fn lemma_i128_trait_decode(
    buf: &[u8],
    r1: Result<(usize, i128), DecodeError>,
    r2: Result<(usize, i128), DecodeError>,
)
    requires
        call_ensures(<i128 as Varint>::decode, (buf,), r1),
        call_ensures(decode_i128_varint, (buf,), r2),
    ensures
        r1 == r2,
{
    let zero: i128 = 0;
    zero.lemma_repr_fits();
    if let (Ok((_, v1)), Ok((_, v2))) = (r1, r2) {
        lemma_unzigzag_zigzag(v1 as int);
        lemma_unzigzag_zigzag(v2 as int);
    }
}

} // verus!
