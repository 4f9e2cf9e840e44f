use core::borrow::Borrow;

use varing::{
    decode_i128_varint, decode_i16_varint, decode_i32_varint, decode_u128_varint,
    decode_u16_varint, decode_u32_varint, decode_u64_varint, encode_i128_varint,
    encode_i16_varint, encode_i32_varint, encode_i64_varint_to, encode_u128_varint,
    encode_u128_varint_to, encode_u16_varint, encode_u16_varint_to, encode_u32_varint,
    encode_u64_varint, encode_u64_varint_to, encoded_i128_varint_len, encoded_i16_varint_len,
    encoded_i32_varint_len, encoded_i64_varint_len, encoded_u128_varint_len,
    encoded_u16_varint_len, encoded_u32_varint_len, encoded_u64_varint_len, DecodeError,
    EncodeError, Varint,
};

fn roundtrip_through_trait<T: Varint + Copy + PartialEq + core::fmt::Debug>(value: T) {
    let mut buf = [0xAAu8; 24];
    let written = value.encode(&mut buf).unwrap();
    assert_eq!(written, value.encoded_len());
    assert!(T::MIN_ENCODED_LEN <= written && written <= T::MAX_ENCODED_LEN);
    assert!(T::encoded_len_range().contains(&written));
    // bytes past the encoding are left alone
    assert!(buf[written..].iter().all(|b| *b == 0xAA));
    let (read, decoded) = T::decode(&buf).unwrap();
    assert_eq!(read, written);
    assert_eq!(decoded, value);
}

#[test]
fn trait_roundtrip_every_width() {
    for v in [0u16, 1, 127, 128, 300, u16::MAX] {
        roundtrip_through_trait(v);
    }
    for v in [0u32, 1, 127, 128, 1 << 28, u32::MAX] {
        roundtrip_through_trait(v);
    }
    for v in [0u64, 1, 127, 128, 1 << 63, u64::MAX] {
        roundtrip_through_trait(v);
    }
    for v in [0u128, 1, 127, 128, 1 << 127, u128::MAX] {
        roundtrip_through_trait(v);
    }
    for v in [0i16, -1, 1, -64, 64, i16::MIN, i16::MAX] {
        roundtrip_through_trait(v);
    }
    for v in [0i32, -1, 1, -64, 64, i32::MIN, i32::MAX] {
        roundtrip_through_trait(v);
    }
    for v in [0i64, -1, 1, -64, 64, i64::MIN, i64::MAX] {
        roundtrip_through_trait(v);
    }
    for v in [0i128, -1, 1, -64, 64, i128::MIN, i128::MAX] {
        roundtrip_through_trait(v);
    }
}

#[test]
fn encoded_len_constants() {
    assert_eq!(u16::MIN_ENCODED_LEN, 1);
    assert_eq!(u16::MAX_ENCODED_LEN, 3);
    assert_eq!(i16::MAX_ENCODED_LEN, 3);
    assert_eq!(u32::MAX_ENCODED_LEN, 5);
    assert_eq!(i32::MAX_ENCODED_LEN, 5);
    assert_eq!(u64::MAX_ENCODED_LEN, 10);
    assert_eq!(i64::MAX_ENCODED_LEN, 10);
    assert_eq!(u128::MAX_ENCODED_LEN, 19);
    assert_eq!(i128::MAX_ENCODED_LEN, 19);
    assert_eq!(u64::encoded_len_range(), 1..=10);
    assert_eq!(i128::encoded_len_range(), 1..=19);
}

#[test]
fn encoded_len_extremes() {
    assert_eq!(encoded_u16_varint_len(0), 1);
    assert_eq!(encoded_u16_varint_len(u16::MAX), 3);
    assert_eq!(encoded_u32_varint_len(u32::MAX), 5);
    assert_eq!(encoded_u64_varint_len(0), 1);
    assert_eq!(encoded_u64_varint_len(127), 1);
    assert_eq!(encoded_u64_varint_len(128), 2);
    assert_eq!(encoded_u64_varint_len(u64::MAX), 10);
    assert_eq!(encoded_u128_varint_len(0), 1);
    assert_eq!(encoded_u128_varint_len(127), 1);
    assert_eq!(encoded_u128_varint_len(128), 2);
    assert_eq!(encoded_u128_varint_len(1u128 << 64), 10);
    assert_eq!(encoded_u128_varint_len((1u128 << 64) - 1), 10);
    assert_eq!(encoded_u128_varint_len(u128::MAX), 19);
    assert_eq!(encoded_i16_varint_len(i16::MIN), 3);
    assert_eq!(encoded_i32_varint_len(-64), 1);
    assert_eq!(encoded_i32_varint_len(64), 2);
    assert_eq!(encoded_i64_varint_len(i64::MIN), 10);
    assert_eq!(encoded_i128_varint_len(i128::MIN), 19);
    assert_eq!(encoded_i128_varint_len(-1), 1);
}

#[test]
fn known_encodings() {
    assert_eq!(encode_u16_varint(300).as_bytes(), &[0xAC, 0x02]);
    assert_eq!(encode_u16_varint(u16::MAX).as_bytes(), &[0xFF, 0xFF, 0x03]);
    assert_eq!(encode_u32_varint(u32::MAX).as_bytes(), &[0xFF, 0xFF, 0xFF, 0xFF, 0x0F]);
    let mut max128 = vec![0xFFu8; 18];
    max128.push(0x03);
    assert_eq!(encode_u128_varint(u128::MAX).as_bytes(), &max128[..]);
    // zig-zag: 0, -1, 1, -2, 2 become 0, 1, 2, 3, 4
    assert_eq!(encode_i32_varint(0).as_bytes(), &[0x00]);
    assert_eq!(encode_i32_varint(-1).as_bytes(), &[0x01]);
    assert_eq!(encode_i32_varint(1).as_bytes(), &[0x02]);
    assert_eq!(encode_i32_varint(-2).as_bytes(), &[0x03]);
    assert_eq!(encode_i16_varint(i16::MIN).as_bytes(), &[0xFF, 0xFF, 0x03]);
    assert_eq!(encode_i128_varint(i128::MIN).len(), 19);
}

#[test]
fn buffer_views_agree() {
    let b = encode_u64_varint(300);
    let via_deref: &[u8] = &b;
    let via_borrow: &[u8] = b.borrow();
    assert_eq!(via_deref, &[0xAC, 0x02]);
    assert_eq!(via_borrow, &[0xAC, 0x02]);
    assert_eq!(b.as_ref(), b.as_bytes());
    assert_eq!(b.len(), 2);
    assert_eq!(b, encode_u64_varint(300));
}

#[test]
fn encode_to_writes_front_and_keeps_rest() {
    let mut buf = [7u8; 4];
    assert_eq!(encode_u64_varint_to(300, &mut buf), Ok(2));
    assert_eq!(buf, [0xAC, 0x02, 7, 7]);

    let mut buf = [7u8; 2];
    assert_eq!(encode_i64_varint_to(-1, &mut buf), Ok(1));
    assert_eq!(buf, [0x01, 7]);
}

#[test]
fn encode_to_short_buffer_underflows() {
    let mut buf = [7u8; 1];
    assert_eq!(
        encode_u64_varint_to(300, &mut buf),
        Err(EncodeError::Underflow { required: 2, remaining: 1 })
    );
    // the buffer holds the front of the encoding
    assert_eq!(buf, [0xAC]);

    let mut empty: [u8; 0] = [];
    assert_eq!(
        encode_u16_varint_to(5, &mut empty),
        Err(EncodeError::underflow(1, 0))
    );

    let mut buf = [0u8; 18];
    assert_eq!(
        encode_u128_varint_to(u128::MAX, &mut buf),
        Err(EncodeError::Underflow { required: 19, remaining: 18 })
    );
    assert!(buf.iter().all(|b| *b == 0xFF));

    for short in 0..10usize {
        let mut v = vec![0u8; short];
        assert_eq!(
            u64::MAX.encode(&mut v),
            Err(EncodeError::Underflow { required: 10, remaining: short })
        );
    }
}

#[test]
fn underflow_constructor() {
    assert_eq!(
        EncodeError::underflow(3, 1),
        EncodeError::Underflow { required: 3, remaining: 1 }
    );
}

#[test]
fn decode_empty_underflows() {
    assert_eq!(decode_u64_varint(&[]), Err(DecodeError::Underflow));
    assert_eq!(decode_i16_varint(&[]), Err(DecodeError::Underflow));
}

#[test]
fn decode_unterminated_underflows() {
    // up to and including the most bytes a u64 may take
    for len in 1..=10usize {
        let buf = vec![0x80u8; len];
        assert_eq!(decode_u64_varint(&buf), Err(DecodeError::Underflow));
    }
    assert_eq!(decode_u16_varint(&[0xFF, 0xFF]), Err(DecodeError::Underflow));
    assert_eq!(decode_u16_varint(&[0x80, 0x80, 0x80]), Err(DecodeError::Underflow));
    assert_eq!(decode_u128_varint(&[0x80u8; 19]), Err(DecodeError::Underflow));
}

#[test]
fn decode_overlong_overflows() {
    // a continuation bit on the last byte a type allows, with more input after it
    assert_eq!(decode_u64_varint(&[0x80u8; 11]), Err(DecodeError::Overflow));
    assert_eq!(decode_u16_varint(&[0x80, 0x80, 0x80, 0x00]), Err(DecodeError::Overflow));
    assert_eq!(decode_u128_varint(&[0x80u8; 20]), Err(DecodeError::Overflow));
}

#[test]
fn decode_last_byte_limit() {
    assert_eq!(decode_u16_varint(&[0xFF, 0xFF, 0x03]), Ok((3, u16::MAX)));
    assert_eq!(decode_u16_varint(&[0xFF, 0xFF, 0x04]), Err(DecodeError::Overflow));
    assert_eq!(decode_u32_varint(&[0xFF, 0xFF, 0xFF, 0xFF, 0x0F]), Ok((5, u32::MAX)));
    assert_eq!(decode_u32_varint(&[0xFF, 0xFF, 0xFF, 0xFF, 0x10]), Err(DecodeError::Overflow));
    let mut max64 = [0xFFu8; 10];
    max64[9] = 0x01;
    assert_eq!(decode_u64_varint(&max64), Ok((10, u64::MAX)));
    max64[9] = 0x02;
    assert_eq!(decode_u64_varint(&max64), Err(DecodeError::Overflow));
    let mut max128 = [0xFFu8; 19];
    max128[18] = 0x03;
    assert_eq!(decode_u128_varint(&max128), Ok((19, u128::MAX)));
    max128[18] = 0x04;
    assert_eq!(decode_u128_varint(&max128), Err(DecodeError::Overflow));
}

#[test]
fn decode_ignores_trailing_bytes_and_accepts_padding() {
    assert_eq!(decode_u64_varint(&[0xAC, 0x02, 0xFF, 0x80]), Ok((2, 300)));
    // a zero continuation group is read, not refused
    assert_eq!(decode_u32_varint(&[0x80, 0x00]), Ok((2, 0)));
    assert_eq!(decode_i32_varint(&[0x03]), Ok((1, -2)));
    assert_eq!(decode_i128_varint(&[0x04]), Ok((1, 2)));
    assert_eq!(decode_i16_varint(&[0xFF, 0xFF, 0x03]), Ok((3, i16::MIN)));
}
