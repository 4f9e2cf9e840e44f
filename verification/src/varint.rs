//! The `Varint` trait: integer types that can be written as LEB128 varints.
use core::ops::RangeInclusive;
use vstd::prelude::*;

use crate::codec::{
    decode_i128_varint, decode_i16_varint, decode_i32_varint, decode_i64_varint,
    decode_u128_varint, decode_u16_varint, decode_u32_varint, decode_u64_varint,
    encode_i128_varint_to, encode_i16_varint_to, encode_i32_varint_to, encode_i64_varint_to,
    encode_u128_varint_to, encode_u16_varint_to, encode_u32_varint_to, encode_u64_varint_to,
};
use crate::error::{DecodeError, EncodeError};
use crate::zigzag::lemma_unzigzag_zigzag;
use crate::len::{
    encoded_i128_varint_len, encoded_i16_varint_len, encoded_i32_varint_len,
    encoded_i64_varint_len, encoded_u128_varint_len, encoded_u16_varint_len,
    encoded_u32_varint_len, encoded_u64_varint_len,
};
use crate::spec::{
    encoded_into, lemma_width_params, pow128,
    varint_decode, varint_len, zigzag,
};

verus! {

/// A trait for types that can be encoded as variable-length integers (varints).
///
/// Varints are a method of serializing integers using one or more bytes that allows small
/// numbers to be stored in fewer bytes. The encoding scheme is compatible with Protocol Buffers'
/// base-128 varint format.
pub trait Varint {
    /// The minimum number of bytes needed to encode any value of this type.
    ///
    /// - For `u16` and `i16`, this is `1`.
    /// - For `u32` and `i32`, this is `1`.
    /// - For `u64` and `i64`, this is `1`.
    /// - For `u128` and `i128`, this is `1`.
    const MIN_ENCODED_LEN: usize;

    /// The maximum number of bytes that might be needed to encode any value of this type.
    ///
    /// - For `u16` and `i16`, this is `3`.
    /// - For `u32` and `i32`, this is `5`.
    /// - For `u64` and `i64`, this is `10`.
    /// - For `u128` and `i128`, this is `19`.
    const MAX_ENCODED_LEN: usize;

    /// The natural number whose LEB128 encoding stands for this value: the value itself
    /// for unsigned types, its zig-zag form for signed ones.
    spec fn varint_repr(&self) -> nat;

    /// The bound that the last of `MAX_ENCODED_LEN` bytes must stay below: that byte
    /// holds only the top bits of the type.
    spec fn last_byte_limit() -> nat;

    /// Every value of the type fits in `MAX_ENCODED_LEN` bytes, the last of them below
    /// `last_byte_limit()`; a value takes at least one byte, and the last byte leaves the
    /// high bit clear. The implementations for the integer types also state the values of
    /// `MAX_ENCODED_LEN` and `last_byte_limit()` here.
    proof fn lemma_repr_fits(&self)
        ensures
            Self::MIN_ENCODED_LEN == 1,
            Self::MAX_ENCODED_LEN >= 1,
            2 <= Self::last_byte_limit() <= 128,
            self.varint_repr() < pow128((Self::MAX_ENCODED_LEN - 1) as nat)
                * Self::last_byte_limit(),
    ;

    /// Distinct values have distinct encodings.
    proof fn lemma_repr_injective(&self, other: &Self)
        ensures
            self.varint_repr() == other.varint_repr() ==> self == other,
    ;

    /// The range of possible encoded lengths for this type, from `MIN_ENCODED_LEN` to
    /// `MAX_ENCODED_LEN` inclusive.
    ///
    /// This range can be used to pre-allocate buffers or validate encoded data lengths.
    ///
    /// - For `u16` and `i16`, this range is `1..=3`.
    /// - For `u32` and `i32`, this range is `1..=5`.
    /// - For `u64` and `i64`, this range is `1..=10`.
    /// - For `u128` and `i128`, this range is `1..=19`.
    fn encoded_len_range() -> (range: RangeInclusive<usize>)
        ensures
            range@.start == Self::MIN_ENCODED_LEN,
            range@.end == Self::MAX_ENCODED_LEN,
            !range@.exhausted,
    {
        RangeInclusive::new(Self::MIN_ENCODED_LEN, Self::MAX_ENCODED_LEN)
    }

    /// Returns the encoded length of the value in LEB128 variable length format.
    /// The returned value will be in range `MIN_ENCODED_LEN..=MAX_ENCODED_LEN`.
    fn encoded_len(&self) -> (len: usize)
        ensures
            len == varint_len(self.varint_repr()),
            Self::MIN_ENCODED_LEN <= len <= Self::MAX_ENCODED_LEN,
    ;

    /// Encodes the value as a varint and writes it to the buffer.
    ///
    /// Returns the number of bytes written to the buffer.
    fn encode(&self, buf: &mut [u8]) -> (res: Result<usize, EncodeError>)
        ensures
            encoded_into(self.varint_repr(), old(buf)@, final(buf)@, res),
    ;

    /// Decodes the value from the buffer.
    ///
    /// Returns the number of bytes read from the buffer and the decoded value if successful.
    fn decode(buf: &[u8]) -> (res: Result<(usize, Self), DecodeError>) where Self: Sized
        ensures
            match res {
                Ok((n, v)) => varint_decode(
                    buf@,
                    Self::MAX_ENCODED_LEN as nat,
                    Self::last_byte_limit(),
                ) == Ok::<(nat, nat), DecodeError>((n as nat, v.varint_repr())),
                Err(e) => varint_decode(buf@, Self::MAX_ENCODED_LEN as nat, Self::last_byte_limit())
                    == Err::<(nat, nat), DecodeError>(e),
            },
    ;
}

impl Varint for u16 {
    const MIN_ENCODED_LEN: usize = 1;

    const MAX_ENCODED_LEN: usize = 3;

    proof fn lemma_repr_fits(&self)
        ensures
            Self::MAX_ENCODED_LEN == 3,
            Self::last_byte_limit() == 4,
    {
        lemma_width_params();
    }

    proof fn lemma_repr_injective(&self, other: &Self) {
    }

    open spec fn varint_repr(&self) -> nat {
        *self as nat
    }

    open spec fn last_byte_limit() -> nat {
        4
    }

    fn encoded_len(&self) -> (len: usize) {
        encoded_u16_varint_len(*self)
    }

    fn encode(&self, buf: &mut [u8]) -> (res: Result<usize, EncodeError>) {
        encode_u16_varint_to(*self, buf)
    }

    fn decode(buf: &[u8]) -> (res: Result<(usize, Self), DecodeError>) {
        decode_u16_varint(buf)
    }
}

impl Varint for u32 {
    const MIN_ENCODED_LEN: usize = 1;

    const MAX_ENCODED_LEN: usize = 5;

    proof fn lemma_repr_fits(&self)
        ensures
            Self::MAX_ENCODED_LEN == 5,
            Self::last_byte_limit() == 16,
    {
        lemma_width_params();
    }

    proof fn lemma_repr_injective(&self, other: &Self) {
    }

    open spec fn varint_repr(&self) -> nat {
        *self as nat
    }

    open spec fn last_byte_limit() -> nat {
        16
    }

    fn encoded_len(&self) -> (len: usize) {
        encoded_u32_varint_len(*self)
    }

    fn encode(&self, buf: &mut [u8]) -> (res: Result<usize, EncodeError>) {
        encode_u32_varint_to(*self, buf)
    }

    fn decode(buf: &[u8]) -> (res: Result<(usize, Self), DecodeError>) {
        decode_u32_varint(buf)
    }
}

impl Varint for u64 {
    const MIN_ENCODED_LEN: usize = 1;

    const MAX_ENCODED_LEN: usize = 10;

    proof fn lemma_repr_fits(&self)
        ensures
            Self::MAX_ENCODED_LEN == 10,
            Self::last_byte_limit() == 2,
    {
        lemma_width_params();
    }

    proof fn lemma_repr_injective(&self, other: &Self) {
    }

    open spec fn varint_repr(&self) -> nat {
        *self as nat
    }

    open spec fn last_byte_limit() -> nat {
        2
    }

    fn encoded_len(&self) -> (len: usize) {
        encoded_u64_varint_len(*self)
    }

    fn encode(&self, buf: &mut [u8]) -> (res: Result<usize, EncodeError>) {
        encode_u64_varint_to(*self, buf)
    }

    fn decode(buf: &[u8]) -> (res: Result<(usize, Self), DecodeError>) {
        decode_u64_varint(buf)
    }
}

impl Varint for u128 {
    const MIN_ENCODED_LEN: usize = 1;

    const MAX_ENCODED_LEN: usize = 19;

    proof fn lemma_repr_fits(&self)
        ensures
            Self::MAX_ENCODED_LEN == 19,
            Self::last_byte_limit() == 4,
    {
        lemma_width_params();
    }

    proof fn lemma_repr_injective(&self, other: &Self) {
    }

    open spec fn varint_repr(&self) -> nat {
        *self as nat
    }

    open spec fn last_byte_limit() -> nat {
        4
    }

    fn encoded_len(&self) -> (len: usize) {
        encoded_u128_varint_len(*self)
    }

    fn encode(&self, buf: &mut [u8]) -> (res: Result<usize, EncodeError>) {
        encode_u128_varint_to(*self, buf)
    }

    fn decode(buf: &[u8]) -> (res: Result<(usize, Self), DecodeError>) {
        decode_u128_varint(buf)
    }
}

impl Varint for i16 {
    const MIN_ENCODED_LEN: usize = 1;

    const MAX_ENCODED_LEN: usize = 3;

    proof fn lemma_repr_fits(&self)
        ensures
            Self::MAX_ENCODED_LEN == 3,
            Self::last_byte_limit() == 4,
    {
        lemma_width_params();
    }

    proof fn lemma_repr_injective(&self, other: &Self) {
        lemma_unzigzag_zigzag(*self as int);
        lemma_unzigzag_zigzag(*other as int);
    }

    open spec fn varint_repr(&self) -> nat {
        zigzag(*self as int)
    }

    open spec fn last_byte_limit() -> nat {
        4
    }

    fn encoded_len(&self) -> (len: usize) {
        encoded_i16_varint_len(*self)
    }

    fn encode(&self, buf: &mut [u8]) -> (res: Result<usize, EncodeError>) {
        encode_i16_varint_to(*self, buf)
    }

    fn decode(buf: &[u8]) -> (res: Result<(usize, Self), DecodeError>) {
        decode_i16_varint(buf)
    }
}

impl Varint for i32 {
    const MIN_ENCODED_LEN: usize = 1;

    const MAX_ENCODED_LEN: usize = 5;

    proof fn lemma_repr_fits(&self)
        ensures
            Self::MAX_ENCODED_LEN == 5,
            Self::last_byte_limit() == 16,
    {
        lemma_width_params();
    }

    proof fn lemma_repr_injective(&self, other: &Self) {
        lemma_unzigzag_zigzag(*self as int);
        lemma_unzigzag_zigzag(*other as int);
    }

    open spec fn varint_repr(&self) -> nat {
        zigzag(*self as int)
    }

    open spec fn last_byte_limit() -> nat {
        16
    }

    fn encoded_len(&self) -> (len: usize) {
        encoded_i32_varint_len(*self)
    }

    fn encode(&self, buf: &mut [u8]) -> (res: Result<usize, EncodeError>) {
        encode_i32_varint_to(*self, buf)
    }

    fn decode(buf: &[u8]) -> (res: Result<(usize, Self), DecodeError>) {
        decode_i32_varint(buf)
    }
}

impl Varint for i64 {
    const MIN_ENCODED_LEN: usize = 1;

    const MAX_ENCODED_LEN: usize = 10;

    proof fn lemma_repr_fits(&self)
        ensures
            Self::MAX_ENCODED_LEN == 10,
            Self::last_byte_limit() == 2,
    {
        lemma_width_params();
    }

    proof fn lemma_repr_injective(&self, other: &Self) {
        lemma_unzigzag_zigzag(*self as int);
        lemma_unzigzag_zigzag(*other as int);
    }

    open spec fn varint_repr(&self) -> nat {
        zigzag(*self as int)
    }

    open spec fn last_byte_limit() -> nat {
        2
    }

    fn encoded_len(&self) -> (len: usize) {
        encoded_i64_varint_len(*self)
    }

    fn encode(&self, buf: &mut [u8]) -> (res: Result<usize, EncodeError>) {
        encode_i64_varint_to(*self, buf)
    }

    fn decode(buf: &[u8]) -> (res: Result<(usize, Self), DecodeError>) {
        decode_i64_varint(buf)
    }
}

impl Varint for i128 {
    const MIN_ENCODED_LEN: usize = 1;

    const MAX_ENCODED_LEN: usize = 19;

    proof fn lemma_repr_fits(&self)
        ensures
            Self::MAX_ENCODED_LEN == 19,
            Self::last_byte_limit() == 4,
    {
        lemma_width_params();
    }

    proof fn lemma_repr_injective(&self, other: &Self) {
        lemma_unzigzag_zigzag(*self as int);
        lemma_unzigzag_zigzag(*other as int);
    }

    open spec fn varint_repr(&self) -> nat {
        zigzag(*self as int)
    }

    open spec fn last_byte_limit() -> nat {
        4
    }

    fn encoded_len(&self) -> (len: usize) {
        encoded_i128_varint_len(*self)
    }

    fn encode(&self, buf: &mut [u8]) -> (res: Result<usize, EncodeError>) {
        encode_i128_varint_to(*self, buf)
    }

    fn decode(buf: &[u8]) -> (res: Result<(usize, Self), DecodeError>) {
        decode_i128_varint(buf)
    }
}

} // verus!
