//! Writing LEB128 varints into caller-supplied buffers, and reading them back.
use vstd::prelude::*;

use crate::error::{DecodeError, EncodeError};
use crate::len::encoded_u128_varint_len;
use crate::spec::{
    encoded_into, lemma_pow128_ge_1, lemma_pow128_mono, lemma_varint_bytes_shape,
    lemma_decode_ok_bounds, lemma_varint_len_le, lemma_width_params, pow128,
    varint_bytes, varint_decode, varint_len, zigzag,
};
use crate::zigzag::{
    lemma_zigzag_unzigzag, unzigzag_u128, unzigzag_u16, unzigzag_u32, unzigzag_u64, zigzag_i128,
    zigzag_i16, zigzag_i32, zigzag_i64,
};

verus! {

/// Writes the LEB128 encoding of `value` to the front of `buf`.
///
/// Returns the number of bytes written, or `Underflow` (with the encoded length and the
/// buffer's length) when the buffer is too short; the buffer is then filled with the
/// front of the encoding.
pub(crate) fn encode_varint(value: u128, buf: &mut [u8]) -> (res: Result<usize, EncodeError>)
    ensures
        encoded_into(value as nat, old(buf)@, final(buf)@, res),
{
    let orig = value;
    let mut x = value;
    let mut i: usize = 0;
    proof {
        reveal_with_fuel(pow128, 20);
        lemma_varint_len_le(orig as nat, 19);
        assert(buf@.take(0) + varint_bytes(x as nat) =~= varint_bytes(orig as nat));
    }
    while x >= 0x80
        invariant
            orig == value,
            buf@.len() == old(buf)@.len(),
            i <= buf@.len(),
            varint_len(orig as nat) == i + varint_len(x as nat),
            varint_bytes(orig as nat) == buf@.take(i as int) + varint_bytes(x as nat),
            forall|k: int| i <= k < buf@.len() ==> buf@[k] == old(buf)@[k],
        decreases x,
    {
        if i >= buf.len() {
            proof {
                lemma_varint_bytes_shape(x as nat);
                assert(buf@.take(i as int) =~= buf@);
                assert(varint_bytes(orig as nat).take(buf@.len() as int) =~= buf@);
            }
            let required = encoded_u128_varint_len(orig);
            return Err(EncodeError::underflow(required, buf.len()));
        }
        let ghost before = buf@;
        let byte = (#[verifier::truncate] (x as u8)) | 0x80;
        proof {
            assert(byte == (x % 128 + 128) as u8) by (bit_vector)
                requires
                    byte == (#[verifier::truncate] (x as u8)) | 0x80,
            ;
            assert(x >> 7 == x / 128) by (bit_vector);
        }
        buf[i] = byte;
        x >>= 7;
        i += 1;
        proof {
            assert(buf@.take(i as int) =~= before.take(i - 1) + seq![byte]);
            assert(buf@.take(i as int) + varint_bytes(x as nat) =~= before.take(i - 1) + (seq![
                byte,
            ] + varint_bytes(x as nat)));
        }
    }
    if i >= buf.len() {
        proof {
            assert(buf@.take(i as int) =~= buf@);
            assert(varint_bytes(orig as nat).take(buf@.len() as int) =~= buf@);
        }
        return Err(EncodeError::underflow(i + 1, buf.len()));
    }
    let ghost before = buf@;
    buf[i] = x as u8;
    proof {
        assert(buf@ =~= (before.take(i as int) + varint_bytes(x as nat)) + old(buf)@.skip(i + 1));
    }
    Ok(i + 1)
}

/// What is left to decode once `consumed` bytes have given the low part `low`
/// and the next 7-bit group weighs `scale`.
spec fn resume(rest: Result<(nat, nat), DecodeError>, consumed: nat, low: nat, scale: nat) -> Result<
    (nat, nat),
    DecodeError,
> {
    match rest {
        Ok((n, v)) => Ok((n + consumed, low + scale * v)),
        Err(e) => Err(e),
    }
}

proof fn lemma_resume_step(
    rest: Result<(nat, nat), DecodeError>,
    consumed: nat,
    low: nat,
    scale: nat,
    group: nat,
)
    ensures
        resume(
            match rest {
                Ok((n, v)) => Ok((n + 1, group + 128 * v)),
                Err(e) => Err(e),
            },
            consumed,
            low,
            scale,
        ) == resume(rest, consumed + 1, low + scale * group, scale * 128),
{
    if let Ok((n, v)) = rest {
        assert(scale * (group + 128 * v) == scale * group + (scale * 128) * v) by (nonlinear_arith);
    }
}

/// Reads a LEB128 varint from the front of `buf`, for a type whose values take at most
/// `max_len` bytes and whose last possible byte must be below `last_limit`.
pub(crate) fn decode_varint(buf: &[u8], max_len: usize, last_limit: u8) -> (res: Result<
    (usize, u128),
    DecodeError,
>)
    requires
        1 <= max_len,
        2 <= last_limit <= 128,
        pow128((max_len - 1) as nat) * last_limit <= u128::MAX + 1,
    ensures
        match res {
            Ok((n, v)) => varint_decode(buf@, max_len as nat, last_limit as nat) == Ok::<
                (nat, nat),
                DecodeError,
            >((n as nat, v as nat)),
            Err(e) => varint_decode(buf@, max_len as nat, last_limit as nat) == Err::<
                (nat, nat),
                DecodeError,
            >(e),
        },
{
    let mut result: u128 = 0;
    let mut scale: u128 = 1;
    let mut index: usize = 0;
    proof {
        assert(buf@.skip(0) =~= buf@);
        assert(pow128(0) == 1);
        lemma_pow128_ge_1((max_len - 1) as nat);
    }
    loop
        invariant
            1 <= max_len,
            2 <= last_limit <= 128,
            pow128((max_len - 1) as nat) * last_limit <= u128::MAX + 1,
            index < max_len,
            index <= buf@.len(),
            scale == pow128(index as nat),
            result < scale,
            varint_decode(buf@, max_len as nat, last_limit as nat) == resume(
                varint_decode(buf@.skip(index as int), (max_len - index) as nat, last_limit as nat),
                index as nat,
                result as nat,
                scale as nat,
            ),
        decreases max_len - index,
    {
        if index == max_len {
            return Err(DecodeError::Overflow);
        }
        if index >= buf.len() {
            proof {
                assert(buf@.skip(index as int).len() == 0);
            }
            return Err(DecodeError::Underflow);
        }
        let next = buf[index];
        let ghost tail = buf@.skip(index as int);
        proof {
            assert(tail[0] == next);
            assert(next & 0x7F == next % 128 && ((next & 0x80 == 0) == (next < 128)))
                by (bit_vector);
            lemma_pow128_mono(index as nat, (max_len - 1) as nat);
        }
        // The last byte a value may take holds only the top bits of the type.
        if index + 1 == max_len && next >= last_limit {
            // A continuation bit on the last byte of the input means the input ended early.
            if next & 0x80 != 0 && index + 1 == buf.len() {
                return Err(DecodeError::Underflow);
            }
            return Err(DecodeError::Overflow);
        }
        let group = (next & 0x7F) as u128;
        proof {
            let p = pow128((max_len - 1) as nat);
            if index + 1 == max_len {
                assert(result + scale * group < p * last_limit) by (nonlinear_arith)
                    requires
                        result < scale,
                        group < last_limit,
                        scale == p,
                ;
            } else {
                assert(result + scale * group < scale * 128) by (nonlinear_arith)
                    requires
                        result < scale,
                        group < 128,
                ;
                lemma_pow128_mono((index + 1) as nat, (max_len - 1) as nat);
                assert(p <= p * last_limit) by (nonlinear_arith)
                    requires
                        last_limit >= 1,
                ;
            }
        }
        result = result + scale * group;
        if next & 0x80 == 0 {
            return Ok((index + 1, result));
        }
        proof {
            assert(tail.drop_first() =~= buf@.skip(index + 1));
            lemma_resume_step(
                varint_decode(tail.drop_first(), (max_len - index - 1) as nat, last_limit as nat),
                index as nat,
                (result - scale * group) as nat,
                scale as nat,
                group as nat,
            );
            lemma_pow128_mono((index + 1) as nat, (max_len - 1) as nat);
            let p = pow128((max_len - 1) as nat);
            assert(p * 2 <= p * last_limit) by (nonlinear_arith)
                requires
                    last_limit >= 2,
            ;
        }
        scale = scale * 128;
        index += 1;
    }
}

/// Encodes an `u16` value into LEB128 variable length format, and writes it to the buffer.
pub fn encode_u16_varint_to(x: u16, buf: &mut [u8]) -> (res: Result<usize, EncodeError>)
    ensures
        encoded_into(x as nat, old(buf)@, final(buf)@, res),
{
    encode_varint(x as u128, buf)
}

/// Encodes an `u32` value into LEB128 variable length format, and writes it to the buffer.
pub fn encode_u32_varint_to(x: u32, buf: &mut [u8]) -> (res: Result<usize, EncodeError>)
    ensures
        encoded_into(x as nat, old(buf)@, final(buf)@, res),
{
    encode_varint(x as u128, buf)
}

/// Encodes an `u64` value into LEB128 variable length format, and writes it to the buffer.
pub fn encode_u64_varint_to(x: u64, buf: &mut [u8]) -> (res: Result<usize, EncodeError>)
    ensures
        encoded_into(x as nat, old(buf)@, final(buf)@, res),
{
    encode_varint(x as u128, buf)
}

/// Encodes an `u128` value into LEB128 variable length format, and writes it to the buffer.
pub fn encode_u128_varint_to(x: u128, buf: &mut [u8]) -> (res: Result<usize, EncodeError>)
    ensures
        encoded_into(x as nat, old(buf)@, final(buf)@, res),
{
    encode_varint(x, buf)
}

/// Encodes an `i16` value into LEB128 variable length format (after zig-zag encoding),
/// and writes it to the buffer.
pub fn encode_i16_varint_to(x: i16, buf: &mut [u8]) -> (res: Result<usize, EncodeError>)
    ensures
        encoded_into(zigzag(x as int), old(buf)@, final(buf)@, res),
{
    encode_varint(zigzag_i16(x) as u128, buf)
}

/// Encodes an `i32` value into LEB128 variable length format (after zig-zag encoding),
/// and writes it to the buffer.
pub fn encode_i32_varint_to(x: i32, buf: &mut [u8]) -> (res: Result<usize, EncodeError>)
    ensures
        encoded_into(zigzag(x as int), old(buf)@, final(buf)@, res),
{
    encode_varint(zigzag_i32(x) as u128, buf)
}

/// Encodes an `i64` value into LEB128 variable length format (after zig-zag encoding),
/// and writes it to the buffer.
pub fn encode_i64_varint_to(x: i64, buf: &mut [u8]) -> (res: Result<usize, EncodeError>)
    ensures
        encoded_into(zigzag(x as int), old(buf)@, final(buf)@, res),
{
    encode_varint(zigzag_i64(x) as u128, buf)
}

/// Encodes an `i128` value into LEB128 variable length format (after zig-zag encoding),
/// and writes it to the buffer.
pub fn encode_i128_varint_to(x: i128, buf: &mut [u8]) -> (res: Result<usize, EncodeError>)
    ensures
        encoded_into(zigzag(x as int), old(buf)@, final(buf)@, res),
{
    encode_varint(zigzag_i128(x), buf)
}

/// Decodes a `u16` in LEB128 encoded format from the buffer.
///
/// Returns the bytes read and the decoded value if successful. A `u16` takes at most
/// three bytes, and the third holds only its top two bit(s), so it must be below 4.
pub fn decode_u16_varint(buf: &[u8]) -> (res: Result<(usize, u16), DecodeError>)
    ensures
        match res {
            Ok((n, v)) => varint_decode(buf@, 3, 4) == Ok::<(nat, nat), DecodeError>(
                (n as nat, v as nat),
            ),
            Err(e) => varint_decode(buf@, 3, 4) == Err::<(nat, nat), DecodeError>(e),
        },
{
    proof {
        lemma_width_params();
        lemma_decode_ok_bounds(buf@, 3, 4);
    }
    match decode_varint(buf, 3, 4) {
        Ok((n, v)) => Ok((n, v as u16)),
        Err(e) => Err(e),
    }
}

/// Decodes an `i16` in LEB128 encoded format (of its zig-zag form) from the buffer.
///
/// Returns the bytes read and the decoded value if successful.
pub fn decode_i16_varint(buf: &[u8]) -> (res: Result<(usize, i16), DecodeError>)
    ensures
        match res {
            Ok((n, v)) => varint_decode(buf@, 3, 4) == Ok::<(nat, nat), DecodeError>(
                (n as nat, zigzag(v as int)),
            ),
            Err(e) => varint_decode(buf@, 3, 4) == Err::<(nat, nat), DecodeError>(e),
        },
{
    match decode_u16_varint(buf) {
        Ok((bytes_read, value)) => {
            let signed = unzigzag_u16(value);
            proof {
                lemma_zigzag_unzigzag(value as nat);
            }
            Ok((bytes_read, signed))
        },
        Err(e) => Err(e),
    }
}

/// Decodes a `u32` in LEB128 encoded format from the buffer.
///
/// Returns the bytes read and the decoded value if successful. A `u32` takes at most
/// five bytes, and the fifth holds only its top four bit(s), so it must be below 16.
pub fn decode_u32_varint(buf: &[u8]) -> (res: Result<(usize, u32), DecodeError>)
    ensures
        match res {
            Ok((n, v)) => varint_decode(buf@, 5, 16) == Ok::<(nat, nat), DecodeError>(
                (n as nat, v as nat),
            ),
            Err(e) => varint_decode(buf@, 5, 16) == Err::<(nat, nat), DecodeError>(e),
        },
{
    proof {
        lemma_width_params();
        lemma_decode_ok_bounds(buf@, 5, 16);
    }
    match decode_varint(buf, 5, 16) {
        Ok((n, v)) => Ok((n, v as u32)),
        Err(e) => Err(e),
    }
}

/// Decodes an `i32` in LEB128 encoded format (of its zig-zag form) from the buffer.
///
/// Returns the bytes read and the decoded value if successful.
pub fn decode_i32_varint(buf: &[u8]) -> (res: Result<(usize, i32), DecodeError>)
    ensures
        match res {
            Ok((n, v)) => varint_decode(buf@, 5, 16) == Ok::<(nat, nat), DecodeError>(
                (n as nat, zigzag(v as int)),
            ),
            Err(e) => varint_decode(buf@, 5, 16) == Err::<(nat, nat), DecodeError>(e),
        },
{
    match decode_u32_varint(buf) {
        Ok((bytes_read, value)) => {
            let signed = unzigzag_u32(value);
            proof {
                lemma_zigzag_unzigzag(value as nat);
            }
            Ok((bytes_read, signed))
        },
        Err(e) => Err(e),
    }
}

/// Decodes a `u64` in LEB128 encoded format from the buffer.
///
/// Returns the bytes read and the decoded value if successful. A `u64` takes at most
/// ten bytes, and the tenth holds only its top one bit(s), so it must be below 2.
pub fn decode_u64_varint(buf: &[u8]) -> (res: Result<(usize, u64), DecodeError>)
    ensures
        match res {
            Ok((n, v)) => varint_decode(buf@, 10, 2) == Ok::<(nat, nat), DecodeError>(
                (n as nat, v as nat),
            ),
            Err(e) => varint_decode(buf@, 10, 2) == Err::<(nat, nat), DecodeError>(e),
        },
{
    proof {
        lemma_width_params();
        lemma_decode_ok_bounds(buf@, 10, 2);
    }
    match decode_varint(buf, 10, 2) {
        Ok((n, v)) => Ok((n, v as u64)),
        Err(e) => Err(e),
    }
}

/// Decodes an `i64` in LEB128 encoded format (of its zig-zag form) from the buffer.
///
/// Returns the bytes read and the decoded value if successful.
pub fn decode_i64_varint(buf: &[u8]) -> (res: Result<(usize, i64), DecodeError>)
    ensures
        match res {
            Ok((n, v)) => varint_decode(buf@, 10, 2) == Ok::<(nat, nat), DecodeError>(
                (n as nat, zigzag(v as int)),
            ),
            Err(e) => varint_decode(buf@, 10, 2) == Err::<(nat, nat), DecodeError>(e),
        },
{
    match decode_u64_varint(buf) {
        Ok((bytes_read, value)) => {
            let signed = unzigzag_u64(value);
            proof {
                lemma_zigzag_unzigzag(value as nat);
            }
            Ok((bytes_read, signed))
        },
        Err(e) => Err(e),
    }
}

/// Decodes a `u128` in LEB128 encoded format from the buffer.
///
/// Returns the bytes read and the decoded value if successful. A `u128` takes at most
/// nineteen bytes, and the nineteenth holds only its top two bit(s), so it must be below 4.
pub fn decode_u128_varint(buf: &[u8]) -> (res: Result<(usize, u128), DecodeError>)
    ensures
        match res {
            Ok((n, v)) => varint_decode(buf@, 19, 4) == Ok::<(nat, nat), DecodeError>(
                (n as nat, v as nat),
            ),
            Err(e) => varint_decode(buf@, 19, 4) == Err::<(nat, nat), DecodeError>(e),
        },
{
    proof {
        lemma_width_params();
        lemma_decode_ok_bounds(buf@, 19, 4);
    }
    match decode_varint(buf, 19, 4) {
        Ok((n, v)) => Ok((n, v as u128)),
        Err(e) => Err(e),
    }
}

/// Decodes an `i128` in LEB128 encoded format (of its zig-zag form) from the buffer.
///
/// Returns the bytes read and the decoded value if successful.
pub fn decode_i128_varint(buf: &[u8]) -> (res: Result<(usize, i128), DecodeError>)
    ensures
        match res {
            Ok((n, v)) => varint_decode(buf@, 19, 4) == Ok::<(nat, nat), DecodeError>(
                (n as nat, zigzag(v as int)),
            ),
            Err(e) => varint_decode(buf@, 19, 4) == Err::<(nat, nat), DecodeError>(e),
        },
{
    match decode_u128_varint(buf) {
        Ok((bytes_read, value)) => {
            let signed = unzigzag_u128(value);
            proof {
                lemma_zigzag_unzigzag(value as nat);
            }
            Ok((bytes_read, signed))
        },
        Err(e) => Err(e),
    }
}

} // verus!
