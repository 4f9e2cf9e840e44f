//! Fixed-size buffers holding the LEB128 encoding of one value.
use vstd::prelude::*;
use vstd::slice::slice_subrange;

use crate::codec::encode_varint;
use crate::spec::{
    lemma_varint_bytes_shape, lemma_varint_len_le, lemma_width_params, varint_bytes, varint_len,
    zigzag,
};
use crate::zigzag::{zigzag_i128, zigzag_i16, zigzag_i32, zigzag_i64};

verus! {

/// A buffer for storing LEB128 encoded u16 values.
#[derive(Copy, Clone, PartialEq, Eq, Debug)]
pub struct U16VarintBuffer([u8; 4]);

impl View for U16VarintBuffer {
    type V = Seq<u8>;

    /// The encoded bytes: the front of the array, as many as its last byte says.
    closed spec fn view(&self) -> Seq<u8> {
        self.0@.take(self.0@[3] as int)
    }
}

impl U16VarintBuffer {
    #[verifier::type_invariant]
    spec fn well_formed(self) -> bool {
        &&& 1 <= self.0@[3] <= 3
        &&& forall|i: int| self.0@[3] <= i < 3 ==> self.0@[i] == 0
    }

    /// Returns the number of bytes in the buffer.
    pub fn len(&self) -> (n: usize)
        ensures
            n == self@.len(),
    {
        proof {
            use_type_invariant(self);
        }
        self.0[3] as usize
    }

    /// Extracts a slice from the buffer.
    pub fn as_bytes(&self) -> (s: &[u8])
        ensures
            s@ == self@,
    {
        proof {
            use_type_invariant(self);
        }
        slice_subrange(self.0.as_slice(), 0, self.len())
    }
}

impl core::ops::Deref for U16VarintBuffer {
    type Target = [u8];

    fn deref(&self) -> (s: &[u8])
        ensures
            s@ == self@,
    {
        self.as_bytes()
    }
}

impl core::borrow::Borrow<[u8]> for U16VarintBuffer {
    fn borrow(&self) -> (s: &[u8])
        ensures
            <[u8] as View>::view(s) == <U16VarintBuffer as View>::view(self),
    {
        self.as_bytes()
    }
}

impl AsRef<[u8]> for U16VarintBuffer {
    fn as_ref(&self) -> (s: &[u8])
        ensures
            s@ == self@,
    {
        self.as_bytes()
    }
}

impl U16VarintBuffer {
    fn new(val: u16) -> (b: Self)
        ensures
            b@ == varint_bytes(val as nat),
    {
        proof {
            lemma_width_params();
            lemma_varint_len_le(val as nat, 3);
        }
        let mut buf = [0u8; 4];
        let len = encode_varint(val as u128, &mut buf).unwrap();
        buf[3] = len as u8;
        Self(buf)
    }
}

/// A buffer for storing LEB128 encoded u32 values.
#[derive(Copy, Clone, PartialEq, Eq, Debug)]
pub struct U32VarintBuffer([u8; 6]);

impl View for U32VarintBuffer {
    type V = Seq<u8>;

    /// The encoded bytes: the front of the array, as many as its last byte says.
    closed spec fn view(&self) -> Seq<u8> {
        self.0@.take(self.0@[5] as int)
    }
}

impl U32VarintBuffer {
    #[verifier::type_invariant]
    spec fn well_formed(self) -> bool {
        &&& 1 <= self.0@[5] <= 5
        &&& forall|i: int| self.0@[5] <= i < 5 ==> self.0@[i] == 0
    }

    /// Returns the number of bytes in the buffer.
    pub fn len(&self) -> (n: usize)
        ensures
            n == self@.len(),
    {
        proof {
            use_type_invariant(self);
        }
        self.0[5] as usize
    }

    /// Extracts a slice from the buffer.
    pub fn as_bytes(&self) -> (s: &[u8])
        ensures
            s@ == self@,
    {
        proof {
            use_type_invariant(self);
        }
        slice_subrange(self.0.as_slice(), 0, self.len())
    }
}

impl core::ops::Deref for U32VarintBuffer {
    type Target = [u8];

    fn deref(&self) -> (s: &[u8])
        ensures
            s@ == self@,
    {
        self.as_bytes()
    }
}

impl core::borrow::Borrow<[u8]> for U32VarintBuffer {
    fn borrow(&self) -> (s: &[u8])
        ensures
            <[u8] as View>::view(s) == <U32VarintBuffer as View>::view(self),
    {
        self.as_bytes()
    }
}

impl AsRef<[u8]> for U32VarintBuffer {
    fn as_ref(&self) -> (s: &[u8])
        ensures
            s@ == self@,
    {
        self.as_bytes()
    }
}

impl U32VarintBuffer {
    fn new(val: u32) -> (b: Self)
        ensures
            b@ == varint_bytes(val as nat),
    {
        proof {
            lemma_width_params();
            lemma_varint_len_le(val as nat, 5);
        }
        let mut buf = [0u8; 6];
        let len = encode_varint(val as u128, &mut buf).unwrap();
        buf[5] = len as u8;
        Self(buf)
    }
}

/// A buffer for storing LEB128 encoded u64 values.
#[derive(Copy, Clone, PartialEq, Eq, Debug)]
pub struct U64VarintBuffer([u8; 11]);

impl View for U64VarintBuffer {
    type V = Seq<u8>;

    /// The encoded bytes: the front of the array, as many as its last byte says.
    closed spec fn view(&self) -> Seq<u8> {
        self.0@.take(self.0@[10] as int)
    }
}

impl U64VarintBuffer {
    #[verifier::type_invariant]
    spec fn well_formed(self) -> bool {
        &&& 1 <= self.0@[10] <= 10
        &&& forall|i: int| self.0@[10] <= i < 10 ==> self.0@[i] == 0
    }

    /// Returns the number of bytes in the buffer.
    pub fn len(&self) -> (n: usize)
        ensures
            n == self@.len(),
    {
        proof {
            use_type_invariant(self);
        }
        self.0[10] as usize
    }

    /// Extracts a slice from the buffer.
    pub fn as_bytes(&self) -> (s: &[u8])
        ensures
            s@ == self@,
    {
        proof {
            use_type_invariant(self);
        }
        slice_subrange(self.0.as_slice(), 0, self.len())
    }
}

impl core::ops::Deref for U64VarintBuffer {
    type Target = [u8];

    fn deref(&self) -> (s: &[u8])
        ensures
            s@ == self@,
    {
        self.as_bytes()
    }
}

impl core::borrow::Borrow<[u8]> for U64VarintBuffer {
    fn borrow(&self) -> (s: &[u8])
        ensures
            <[u8] as View>::view(s) == <U64VarintBuffer as View>::view(self),
    {
        self.as_bytes()
    }
}

impl AsRef<[u8]> for U64VarintBuffer {
    fn as_ref(&self) -> (s: &[u8])
        ensures
            s@ == self@,
    {
        self.as_bytes()
    }
}

impl U64VarintBuffer {
    fn new(val: u64) -> (b: Self)
        ensures
            b@ == varint_bytes(val as nat),
    {
        proof {
            lemma_width_params();
            lemma_varint_len_le(val as nat, 10);
        }
        let mut buf = [0u8; 11];
        let len = encode_varint(val as u128, &mut buf).unwrap();
        buf[10] = len as u8;
        Self(buf)
    }
}

/// A buffer for storing LEB128 encoded u128 values.
#[derive(Copy, Clone, PartialEq, Eq, Debug)]
pub struct U128VarintBuffer([u8; 20]);

impl View for U128VarintBuffer {
    type V = Seq<u8>;

    /// The encoded bytes: the front of the array, as many as its last byte says.
    closed spec fn view(&self) -> Seq<u8> {
        self.0@.take(self.0@[19] as int)
    }
}

impl U128VarintBuffer {
    #[verifier::type_invariant]
    spec fn well_formed(self) -> bool {
        &&& 1 <= self.0@[19] <= 19
        &&& forall|i: int| self.0@[19] <= i < 19 ==> self.0@[i] == 0
    }

    /// Returns the number of bytes in the buffer.
    pub fn len(&self) -> (n: usize)
        ensures
            n == self@.len(),
    {
        proof {
            use_type_invariant(self);
        }
        self.0[19] as usize
    }

    /// Extracts a slice from the buffer.
    pub fn as_bytes(&self) -> (s: &[u8])
        ensures
            s@ == self@,
    {
        proof {
            use_type_invariant(self);
        }
        slice_subrange(self.0.as_slice(), 0, self.len())
    }
}

impl core::ops::Deref for U128VarintBuffer {
    type Target = [u8];

    fn deref(&self) -> (s: &[u8])
        ensures
            s@ == self@,
    {
        self.as_bytes()
    }
}

impl core::borrow::Borrow<[u8]> for U128VarintBuffer {
    fn borrow(&self) -> (s: &[u8])
        ensures
            <[u8] as View>::view(s) == <U128VarintBuffer as View>::view(self),
    {
        self.as_bytes()
    }
}

impl AsRef<[u8]> for U128VarintBuffer {
    fn as_ref(&self) -> (s: &[u8])
        ensures
            s@ == self@,
    {
        self.as_bytes()
    }
}

impl U128VarintBuffer {
    fn new(val: u128) -> (b: Self)
        ensures
            b@ == varint_bytes(val as nat),
    {
        proof {
            lemma_width_params();
            lemma_varint_len_le(val as nat, 19);
        }
        let mut buf = [0u8; 20];
        let len = encode_varint(val as u128, &mut buf).unwrap();
        buf[19] = len as u8;
        Self(buf)
    }
}

/// A buffer for storing LEB128 encoded i16 values.
#[derive(Copy, Clone, PartialEq, Eq, Debug)]
pub struct I16VarintBuffer([u8; 4]);

impl View for I16VarintBuffer {
    type V = Seq<u8>;

    /// The encoded bytes: the front of the array, as many as its last byte says.
    closed spec fn view(&self) -> Seq<u8> {
        self.0@.take(self.0@[3] as int)
    }
}

impl I16VarintBuffer {
    #[verifier::type_invariant]
    spec fn well_formed(self) -> bool {
        &&& 1 <= self.0@[3] <= 3
        &&& forall|i: int| self.0@[3] <= i < 3 ==> self.0@[i] == 0
    }

    /// Returns the number of bytes in the buffer.
    pub fn len(&self) -> (n: usize)
        ensures
            n == self@.len(),
    {
        proof {
            use_type_invariant(self);
        }
        self.0[3] as usize
    }

    /// Extracts a slice from the buffer.
    pub fn as_bytes(&self) -> (s: &[u8])
        ensures
            s@ == self@,
    {
        proof {
            use_type_invariant(self);
        }
        slice_subrange(self.0.as_slice(), 0, self.len())
    }
}

impl core::ops::Deref for I16VarintBuffer {
    type Target = [u8];

    fn deref(&self) -> (s: &[u8])
        ensures
            s@ == self@,
    {
        self.as_bytes()
    }
}

impl core::borrow::Borrow<[u8]> for I16VarintBuffer {
    fn borrow(&self) -> (s: &[u8])
        ensures
            <[u8] as View>::view(s) == <I16VarintBuffer as View>::view(self),
    {
        self.as_bytes()
    }
}

impl AsRef<[u8]> for I16VarintBuffer {
    fn as_ref(&self) -> (s: &[u8])
        ensures
            s@ == self@,
    {
        self.as_bytes()
    }
}

/// A buffer for storing LEB128 encoded i32 values.
#[derive(Copy, Clone, PartialEq, Eq, Debug)]
pub struct I32VarintBuffer([u8; 6]);

impl View for I32VarintBuffer {
    type V = Seq<u8>;

    /// The encoded bytes: the front of the array, as many as its last byte says.
    closed spec fn view(&self) -> Seq<u8> {
        self.0@.take(self.0@[5] as int)
    }
}

impl I32VarintBuffer {
    #[verifier::type_invariant]
    spec fn well_formed(self) -> bool {
        &&& 1 <= self.0@[5] <= 5
        &&& forall|i: int| self.0@[5] <= i < 5 ==> self.0@[i] == 0
    }

    /// Returns the number of bytes in the buffer.
    pub fn len(&self) -> (n: usize)
        ensures
            n == self@.len(),
    {
        proof {
            use_type_invariant(self);
        }
        self.0[5] as usize
    }

    /// Extracts a slice from the buffer.
    pub fn as_bytes(&self) -> (s: &[u8])
        ensures
            s@ == self@,
    {
        proof {
            use_type_invariant(self);
        }
        slice_subrange(self.0.as_slice(), 0, self.len())
    }
}

impl core::ops::Deref for I32VarintBuffer {
    type Target = [u8];

    fn deref(&self) -> (s: &[u8])
        ensures
            s@ == self@,
    {
        self.as_bytes()
    }
}

impl core::borrow::Borrow<[u8]> for I32VarintBuffer {
    fn borrow(&self) -> (s: &[u8])
        ensures
            <[u8] as View>::view(s) == <I32VarintBuffer as View>::view(self),
    {
        self.as_bytes()
    }
}

impl AsRef<[u8]> for I32VarintBuffer {
    fn as_ref(&self) -> (s: &[u8])
        ensures
            s@ == self@,
    {
        self.as_bytes()
    }
}

/// A buffer for storing LEB128 encoded i64 values.
#[derive(Copy, Clone, PartialEq, Eq, Debug)]
pub struct I64VarintBuffer([u8; 11]);

impl View for I64VarintBuffer {
    type V = Seq<u8>;

    /// The encoded bytes: the front of the array, as many as its last byte says.
    closed spec fn view(&self) -> Seq<u8> {
        self.0@.take(self.0@[10] as int)
    }
}

impl I64VarintBuffer {
    #[verifier::type_invariant]
    spec fn well_formed(self) -> bool {
        &&& 1 <= self.0@[10] <= 10
        &&& forall|i: int| self.0@[10] <= i < 10 ==> self.0@[i] == 0
    }

    /// Returns the number of bytes in the buffer.
    pub fn len(&self) -> (n: usize)
        ensures
            n == self@.len(),
    {
        proof {
            use_type_invariant(self);
        }
        self.0[10] as usize
    }

    /// Extracts a slice from the buffer.
    pub fn as_bytes(&self) -> (s: &[u8])
        ensures
            s@ == self@,
    {
        proof {
            use_type_invariant(self);
        }
        slice_subrange(self.0.as_slice(), 0, self.len())
    }
}

impl core::ops::Deref for I64VarintBuffer {
    type Target = [u8];

    fn deref(&self) -> (s: &[u8])
        ensures
            s@ == self@,
    {
        self.as_bytes()
    }
}

impl core::borrow::Borrow<[u8]> for I64VarintBuffer {
    fn borrow(&self) -> (s: &[u8])
        ensures
            <[u8] as View>::view(s) == <I64VarintBuffer as View>::view(self),
    {
        self.as_bytes()
    }
}

impl AsRef<[u8]> for I64VarintBuffer {
    fn as_ref(&self) -> (s: &[u8])
        ensures
            s@ == self@,
    {
        self.as_bytes()
    }
}

/// A buffer for storing LEB128 encoded i128 values.
#[derive(Copy, Clone, PartialEq, Eq, Debug)]
pub struct I128VarintBuffer([u8; 20]);

impl View for I128VarintBuffer {
    type V = Seq<u8>;

    /// The encoded bytes: the front of the array, as many as its last byte says.
    closed spec fn view(&self) -> Seq<u8> {
        self.0@.take(self.0@[19] as int)
    }
}

impl I128VarintBuffer {
    #[verifier::type_invariant]
    spec fn well_formed(self) -> bool {
        &&& 1 <= self.0@[19] <= 19
        &&& forall|i: int| self.0@[19] <= i < 19 ==> self.0@[i] == 0
    }

    /// Returns the number of bytes in the buffer.
    pub fn len(&self) -> (n: usize)
        ensures
            n == self@.len(),
    {
        proof {
            use_type_invariant(self);
        }
        self.0[19] as usize
    }

    /// Extracts a slice from the buffer.
    pub fn as_bytes(&self) -> (s: &[u8])
        ensures
            s@ == self@,
    {
        proof {
            use_type_invariant(self);
        }
        slice_subrange(self.0.as_slice(), 0, self.len())
    }
}

impl core::ops::Deref for I128VarintBuffer {
    type Target = [u8];

    fn deref(&self) -> (s: &[u8])
        ensures
            s@ == self@,
    {
        self.as_bytes()
    }
}

impl core::borrow::Borrow<[u8]> for I128VarintBuffer {
    fn borrow(&self) -> (s: &[u8])
        ensures
            <[u8] as View>::view(s) == <I128VarintBuffer as View>::view(self),
    {
        self.as_bytes()
    }
}

impl AsRef<[u8]> for I128VarintBuffer {
    fn as_ref(&self) -> (s: &[u8])
        ensures
            s@ == self@,
    {
        self.as_bytes()
    }
}

/// Encodes an `u16` value into LEB128 variable length format, and writes it to the buffer.
pub fn encode_u16_varint(x: u16) -> (b: U16VarintBuffer)
    ensures
        b@ == varint_bytes(x as nat),
        b@.len() == varint_len(x as nat),
{
    proof {
        lemma_varint_bytes_shape(x as nat);
    }
    U16VarintBuffer::new(x)
}

/// Encodes an `i16` value into LEB128 variable length format (after zig-zag encoding),
/// and writes it to the buffer.
pub fn encode_i16_varint(x: i16) -> (b: I16VarintBuffer)
    ensures
        b@ == varint_bytes(zigzag(x as int)),
        b@.len() == varint_len(zigzag(x as int)),
{
    let unsigned = U16VarintBuffer::new(zigzag_i16(x));
    proof {
        use_type_invariant(&unsigned);
        lemma_varint_bytes_shape(zigzag(x as int));
    }
    I16VarintBuffer(unsigned.0)
}

/// Encodes an `u32` value into LEB128 variable length format, and writes it to the buffer.
pub fn encode_u32_varint(x: u32) -> (b: U32VarintBuffer)
    ensures
        b@ == varint_bytes(x as nat),
        b@.len() == varint_len(x as nat),
{
    proof {
        lemma_varint_bytes_shape(x as nat);
    }
    U32VarintBuffer::new(x)
}

/// Encodes an `i32` value into LEB128 variable length format (after zig-zag encoding),
/// and writes it to the buffer.
pub fn encode_i32_varint(x: i32) -> (b: I32VarintBuffer)
    ensures
        b@ == varint_bytes(zigzag(x as int)),
        b@.len() == varint_len(zigzag(x as int)),
{
    let unsigned = U32VarintBuffer::new(zigzag_i32(x));
    proof {
        use_type_invariant(&unsigned);
        lemma_varint_bytes_shape(zigzag(x as int));
    }
    I32VarintBuffer(unsigned.0)
}

/// Encodes an `u64` value into LEB128 variable length format, and writes it to the buffer.
pub fn encode_u64_varint(x: u64) -> (b: U64VarintBuffer)
    ensures
        b@ == varint_bytes(x as nat),
        b@.len() == varint_len(x as nat),
{
    proof {
        lemma_varint_bytes_shape(x as nat);
    }
    U64VarintBuffer::new(x)
}

/// Encodes an `i64` value into LEB128 variable length format (after zig-zag encoding),
/// and writes it to the buffer.
pub fn encode_i64_varint(x: i64) -> (b: I64VarintBuffer)
    ensures
        b@ == varint_bytes(zigzag(x as int)),
        b@.len() == varint_len(zigzag(x as int)),
{
    let unsigned = U64VarintBuffer::new(zigzag_i64(x));
    proof {
        use_type_invariant(&unsigned);
        lemma_varint_bytes_shape(zigzag(x as int));
    }
    I64VarintBuffer(unsigned.0)
}

/// Encodes an `u128` value into LEB128 variable length format, and writes it to the buffer.
pub fn encode_u128_varint(x: u128) -> (b: U128VarintBuffer)
    ensures
        b@ == varint_bytes(x as nat),
        b@.len() == varint_len(x as nat),
{
    proof {
        lemma_varint_bytes_shape(x as nat);
    }
    U128VarintBuffer::new(x)
}

/// Encodes an `i128` value into LEB128 variable length format (after zig-zag encoding),
/// and writes it to the buffer.
pub fn encode_i128_varint(x: i128) -> (b: I128VarintBuffer)
    ensures
        b@ == varint_bytes(zigzag(x as int)),
        b@.len() == varint_len(zigzag(x as int)),
{
    let unsigned = U128VarintBuffer::new(zigzag_i128(x));
    proof {
        use_type_invariant(&unsigned);
        lemma_varint_bytes_shape(zigzag(x as int));
    }
    I128VarintBuffer(unsigned.0)
}

} // verus!
