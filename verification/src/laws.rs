//! Properties that hold of the encoding and decoding as a whole.
use vstd::prelude::*;

use crate::error::{DecodeError, EncodeError};
use crate::spec::{
    encoded_into, lemma_decode_encoded, lemma_decode_ok_bounds, lemma_varint_bytes_shape,
    lemma_varint_len_le, pow128, varint_bytes, varint_decode, varint_len, zigzag,
};
use crate::varint::Varint;

verus! {

/// Decoding the encoding of any value of a varint type, whatever bytes follow it, reads
/// exactly the encoding and gives back that value.
pub proof fn lemma_varint_roundtrip<T: Varint>(x: T, rest: Seq<u8>)
    ensures
        varint_decode(
            varint_bytes(x.varint_repr()) + rest,
            T::MAX_ENCODED_LEN as nat,
            T::last_byte_limit(),
        ) == Ok::<(nat, nat), DecodeError>((varint_len(x.varint_repr()), x.varint_repr())),
{
    x.lemma_repr_fits();
    lemma_decode_encoded(
        x.varint_repr(),
        T::MAX_ENCODED_LEN as nat,
        T::last_byte_limit(),
        rest,
    );
}

/// What a successful `encode` leaves in a buffer decodes to the encoded value, reading
/// as many bytes as were written; and a decoded value equal in encoding is the value.
pub proof fn lemma_encode_then_decode<T: Varint>(x: T, before: Seq<u8>, after: Seq<u8>, n: usize)
    requires
        encoded_into(x.varint_repr(), before, after, Ok(n)),
    ensures
        varint_decode(after, T::MAX_ENCODED_LEN as nat, T::last_byte_limit()) == Ok::<
            (nat, nat),
            DecodeError,
        >((n as nat, x.varint_repr())),
        forall|y: T| #[trigger] y.varint_repr() == x.varint_repr() ==> y == x,
{
    let len = varint_len(x.varint_repr());
    let m = T::MAX_ENCODED_LEN;
    x.lemma_repr_fits();
    let p = pow128((m - 1) as nat);
    assert(pow128(m as nat) == 128 * p);
    assert(p * T::last_byte_limit() <= 128 * p) by (nonlinear_arith)
        requires
            T::last_byte_limit() <= 128,
    ;
    lemma_varint_len_le(x.varint_repr(), m as nat);
    if !(len <= before.len()) {
        assert(false);
    }
    lemma_varint_roundtrip(x, before.skip(len as int));
    assert forall|y: T| #[trigger] y.varint_repr() == x.varint_repr() implies y == x by {
        y.lemma_repr_injective(&x);
    }
}

/// What `encode_u16_varint` and `encode_u16_varint_to` write, followed by any bytes,
/// `decode_u16_varint` reads back: exactly the encoded bytes, and the value.
pub proof fn lemma_u16_roundtrip(x: u16, rest: Seq<u8>)
    ensures
        varint_decode(varint_bytes(x as nat) + rest, 3, 4) == Ok::<(nat, nat), DecodeError>(
            (varint_len(x as nat), x as nat),
        ),
{
    x.lemma_repr_fits();
    lemma_varint_roundtrip(x, rest);
}

/// What `encode_i16_varint` and `encode_i16_varint_to` write, followed by any bytes,
/// `decode_i16_varint` reads back: exactly the encoded bytes, and the value, which is
/// the only `i16` with that zig-zag form.
pub proof fn lemma_i16_roundtrip(x: i16, rest: Seq<u8>)
    ensures
        varint_decode(varint_bytes(zigzag(x as int)) + rest, 3, 4) == Ok::<
            (nat, nat),
            DecodeError,
        >((varint_len(zigzag(x as int)), zigzag(x as int))),
        forall|y: i16| #[trigger] zigzag(y as int) == zigzag(x as int) ==> y == x,
{
    x.lemma_repr_fits();
    lemma_varint_roundtrip(x, rest);
    assert forall|y: i16| #[trigger] zigzag(y as int) == zigzag(x as int) implies y == x by {
        y.lemma_repr_injective(&x);
    }
}

/// What `encode_u32_varint` and `encode_u32_varint_to` write, followed by any bytes,
/// `decode_u32_varint` reads back: exactly the encoded bytes, and the value.
pub proof fn lemma_u32_roundtrip(x: u32, rest: Seq<u8>)
    ensures
        varint_decode(varint_bytes(x as nat) + rest, 5, 16) == Ok::<(nat, nat), DecodeError>(
            (varint_len(x as nat), x as nat),
        ),
{
    x.lemma_repr_fits();
    lemma_varint_roundtrip(x, rest);
}

/// What `encode_i32_varint` and `encode_i32_varint_to` write, followed by any bytes,
/// `decode_i32_varint` reads back: exactly the encoded bytes, and the value, which is
/// the only `i32` with that zig-zag form.
pub proof fn lemma_i32_roundtrip(x: i32, rest: Seq<u8>)
    ensures
        varint_decode(varint_bytes(zigzag(x as int)) + rest, 5, 16) == Ok::<
            (nat, nat),
            DecodeError,
        >((varint_len(zigzag(x as int)), zigzag(x as int))),
        forall|y: i32| #[trigger] zigzag(y as int) == zigzag(x as int) ==> y == x,
{
    x.lemma_repr_fits();
    lemma_varint_roundtrip(x, rest);
    assert forall|y: i32| #[trigger] zigzag(y as int) == zigzag(x as int) implies y == x by {
        y.lemma_repr_injective(&x);
    }
}

/// What `encode_u64_varint` and `encode_u64_varint_to` write, followed by any bytes,
/// `decode_u64_varint` reads back: exactly the encoded bytes, and the value.
pub proof fn lemma_u64_roundtrip(x: u64, rest: Seq<u8>)
    ensures
        varint_decode(varint_bytes(x as nat) + rest, 10, 2) == Ok::<(nat, nat), DecodeError>(
            (varint_len(x as nat), x as nat),
        ),
{
    x.lemma_repr_fits();
    lemma_varint_roundtrip(x, rest);
}

/// What `encode_i64_varint` and `encode_i64_varint_to` write, followed by any bytes,
/// `decode_i64_varint` reads back: exactly the encoded bytes, and the value, which is
/// the only `i64` with that zig-zag form.
pub proof fn lemma_i64_roundtrip(x: i64, rest: Seq<u8>)
    ensures
        varint_decode(varint_bytes(zigzag(x as int)) + rest, 10, 2) == Ok::<
            (nat, nat),
            DecodeError,
        >((varint_len(zigzag(x as int)), zigzag(x as int))),
        forall|y: i64| #[trigger] zigzag(y as int) == zigzag(x as int) ==> y == x,
{
    x.lemma_repr_fits();
    lemma_varint_roundtrip(x, rest);
    assert forall|y: i64| #[trigger] zigzag(y as int) == zigzag(x as int) implies y == x by {
        y.lemma_repr_injective(&x);
    }
}

/// What `encode_u128_varint` and `encode_u128_varint_to` write, followed by any bytes,
/// `decode_u128_varint` reads back: exactly the encoded bytes, and the value.
pub proof fn lemma_u128_roundtrip(x: u128, rest: Seq<u8>)
    ensures
        varint_decode(varint_bytes(x as nat) + rest, 19, 4) == Ok::<(nat, nat), DecodeError>(
            (varint_len(x as nat), x as nat),
        ),
{
    x.lemma_repr_fits();
    lemma_varint_roundtrip(x, rest);
}

/// What `encode_i128_varint` and `encode_i128_varint_to` write, followed by any bytes,
/// `decode_i128_varint` reads back: exactly the encoded bytes, and the value, which is
/// the only `i128` with that zig-zag form.
pub proof fn lemma_i128_roundtrip(x: i128, rest: Seq<u8>)
    ensures
        varint_decode(varint_bytes(zigzag(x as int)) + rest, 19, 4) == Ok::<
            (nat, nat),
            DecodeError,
        >((varint_len(zigzag(x as int)), zigzag(x as int))),
        forall|y: i128| #[trigger] zigzag(y as int) == zigzag(x as int) ==> y == x,
{
    x.lemma_repr_fits();
    lemma_varint_roundtrip(x, rest);
    assert forall|y: i128| #[trigger] zigzag(y as int) == zigzag(x as int) implies y == x by {
        y.lemma_repr_injective(&x);
    }
}

/// Encoding into a buffer shorter than the encoded length always fails with `Underflow`,
/// naming the encoded length and the buffer's length; a long enough buffer always works.
pub proof fn lemma_encode_fails_iff_short(
    v: nat,
    before: Seq<u8>,
    after: Seq<u8>,
    res: Result<usize, EncodeError>,
)
    requires
        encoded_into(v, before, after, res),
    ensures
        res is Err <==> before.len() < varint_len(v),
        before.len() < varint_len(v) ==> res == Err::<usize, EncodeError>(
            EncodeError::Underflow {
                required: varint_len(v) as usize,
                remaining: before.len() as usize,
            },
        ),
        after.len() == before.len(),
{
    lemma_varint_bytes_shape(v);
}

/// The smallest encoding is one byte long, and the largest values of each type need
/// exactly `MAX_ENCODED_LEN` bytes: 3, 5, 10 and 19 for 16, 32, 64 and 128 bits.
pub proof fn lemma_encoded_len_extremes()
    ensures
        varint_len(0) == 1,
        varint_len(u16::MAX as nat) == 3,
        varint_len(u32::MAX as nat) == 5,
        varint_len(u64::MAX as nat) == 10,
        varint_len(u128::MAX as nat) == 19,
        varint_len(zigzag(i16::MIN as int)) == 3,
        varint_len(zigzag(i32::MIN as int)) == 5,
        varint_len(zigzag(i64::MIN as int)) == 10,
        varint_len(zigzag(i128::MIN as int)) == 19,
{
    reveal_with_fuel(varint_len, 20);
}

/// An empty buffer holds no value: decoding it is `Underflow`.
pub proof fn lemma_decode_empty(budget: nat, last_limit: nat)
    requires
        budget >= 1,
    ensures
        varint_decode(Seq::<u8>::empty(), budget, last_limit) == Err::<(nat, nat), DecodeError>(
            DecodeError::Underflow,
        ),
{
}

/// A buffer no longer than the budget in which every byte has the continuation bit set
/// ends before its value does: decoding it is `Underflow`.
pub proof fn lemma_decode_unterminated(buf: Seq<u8>, budget: nat, last_limit: nat)
    requires
        1 <= budget,
        buf.len() <= budget,
        last_limit <= 128,
        forall|i: int| 0 <= i < buf.len() ==> #[trigger] buf[i] >= 128,
    ensures
        varint_decode(buf, budget, last_limit) == Err::<(nat, nat), DecodeError>(
            DecodeError::Underflow,
        ),
    decreases buf.len(),
{
    if buf.len() > 0 && budget > 1 {
        let tail = buf.drop_first();
        assert forall|i: int| 0 <= i < tail.len() implies #[trigger] tail[i] >= 128 by {
            assert(tail[i] == buf[i + 1]);
        }
        lemma_decode_unterminated(tail, (budget - 1) as nat, last_limit);
    } else if buf.len() > 0 {
        assert(buf[0] >= 128);
    }
}

/// A buffer longer than the budget whose first `budget` bytes all have the continuation
/// bit set would need more bytes than the type allows: decoding it is `Overflow`.
pub proof fn lemma_decode_overlong(buf: Seq<u8>, budget: nat, last_limit: nat)
    requires
        budget < buf.len(),
        last_limit <= 128,
        forall|i: int| 0 <= i < budget ==> #[trigger] buf[i] >= 128,
    ensures
        varint_decode(buf, budget, last_limit) == Err::<(nat, nat), DecodeError>(
            DecodeError::Overflow,
        ),
    decreases budget,
{
    if budget > 1 {
        let tail = buf.drop_first();
        assert forall|i: int| 0 <= i < budget - 1 implies #[trigger] tail[i] >= 128 by {
            assert(tail[i] == buf[i + 1]);
        }
        lemma_decode_overlong(tail, (budget - 1) as nat, last_limit);
    } else if budget == 1 {
        assert(buf[0] >= 128);
    }
}

/// Decoding looks at no byte past the ones it reads: any buffer that starts with the
/// same bytes decodes to the same result.
pub proof fn lemma_decode_reads_only_its_bytes(
    buf: Seq<u8>,
    other: Seq<u8>,
    budget: nat,
    last_limit: nat,
)
    requires
        varint_decode(buf, budget, last_limit) matches Ok((n, _)) && n <= other.len()
            && other.take(n as int) == buf.take(n as int),
    ensures
        varint_decode(other, budget, last_limit) == varint_decode(buf, budget, last_limit),
    decreases budget,
{
    let n = varint_decode(buf, budget, last_limit)->Ok_0.0;
    lemma_decode_ok_bounds(buf, budget, last_limit);
    assert(buf.len() > 0);
    assert(other[0] == other.take(n as int)[0]);
    assert(buf[0] == buf.take(n as int)[0]);
    if !(budget == 1 && buf[0] >= 128 && buf.len() == 1) && !(budget == 1 && buf[0]
        >= last_limit) && buf[0] >= 128 {
        let t = buf.drop_first();
        let u = other.drop_first();
        assert(t.take(n - 1) =~= buf.take(n as int).drop_first());
        assert(u.take(n - 1) =~= other.take(n as int).drop_first());
        lemma_decode_reads_only_its_bytes(t, u, (budget - 1) as nat, last_limit);
    }
}

} // verus!
