//! Protocol Buffers compatible LEB128 variable length integers.
//!
//! Unsigned integers are written seven bits per byte, least significant group first,
//! with the high bit of every byte but the last set. Signed integers are first mapped
//! to unsigned ones by zig-zag encoding, so that values of small magnitude stay short.
pub mod buffer;
pub mod codec;
pub mod error;
pub mod laws;
pub mod laws_varint;
pub mod len;
pub mod spec;
pub mod varint;
pub mod zigzag;

pub use buffer::{
    encode_i128_varint, encode_i16_varint, encode_i32_varint, encode_i64_varint,
    encode_u128_varint, encode_u16_varint, encode_u32_varint, encode_u64_varint,
    I128VarintBuffer, I16VarintBuffer, I32VarintBuffer, I64VarintBuffer, U128VarintBuffer,
    U16VarintBuffer, U32VarintBuffer, U64VarintBuffer,
};
pub use codec::{
    decode_i128_varint, decode_i16_varint, decode_i32_varint, decode_i64_varint,
    decode_u128_varint, decode_u16_varint, decode_u32_varint, decode_u64_varint,
    encode_i128_varint_to, encode_i16_varint_to, encode_i32_varint_to, encode_i64_varint_to,
    encode_u128_varint_to, encode_u16_varint_to, encode_u32_varint_to, encode_u64_varint_to,
};
pub use error::{DecodeError, EncodeError};
pub use len::{
    encoded_i128_varint_len, encoded_i16_varint_len, encoded_i32_varint_len,
    encoded_i64_varint_len, encoded_u128_varint_len, encoded_u16_varint_len,
    encoded_u32_varint_len, encoded_u64_varint_len,
};
pub use varint::Varint;
