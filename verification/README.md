# varing

LEB128 variable-length integers, compatible with Protocol Buffers' base-128 varints,
for `u16`, `u32`, `u64`, `u128` and (zig-zag encoded) `i16`, `i32`, `i64`, `i128`,
verified with Verus.

- `src/spec.rs`: the model — `varint_bytes`, `varint_len`, `varint_decode`, `zigzag`.
- `src/len.rs`: encoded lengths (`encoded_*_varint_len`).
- `src/codec.rs`: encoding into a caller's buffer (`encode_*_varint_to`) and decoding
  (`decode_*_varint`).
- `src/buffer.rs`: fixed-size buffers holding one encoding (`encode_*_varint`).
- `src/varint.rs`: the `Varint` trait and its implementations.
- `src/zigzag.rs`: zig-zag mapping between signed and unsigned integers.
- `src/laws.rs`: round trips and the other properties of encoding and decoding.
- `app/lib.rs`: the error types with `thiserror`'s `Display` and `Error`.
