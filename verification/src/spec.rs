//! The mathematical model of LEB128 varints: what a value encodes to,
//! how many bytes that takes, and what a buffer decodes to.
use vstd::prelude::*;

use crate::error::{DecodeError, EncodeError};

verus! {

/// `128^k`: the weight of the `k`-th 7-bit group of a varint.
pub open spec fn pow128(k: nat) -> nat
    decreases k,
{
    if k == 0 {
        1
    } else {
        128 * pow128((k - 1) as nat)
    }
}

/// The number of bytes of the LEB128 encoding of `v`: one per 7-bit group, and at least one.
pub open spec fn varint_len(v: nat) -> nat
    decreases v,
{
    if v < 128 {
        1
    } else {
        1 + varint_len(v / 128)
    }
}

/// The LEB128 encoding of `v`: the 7-bit groups of `v`, least significant first,
/// where every byte but the last has its high bit (`0x80`) set.
pub open spec fn varint_bytes(v: nat) -> Seq<u8>
    decreases v,
{
    if v < 128 {
        seq![v as u8]
    } else {
        seq![(v % 128 + 128) as u8] + varint_bytes(v / 128)
    }
}

/// What decoding the front of `buf` gives, for a type whose values take at most
/// `budget` bytes and whose last possible byte must be below `last_limit`
/// (it carries the top bits of the type).
///
/// On success the pair is (bytes read, value). Running out of budget, or a last byte
/// that does not fit, is `Overflow`; running out of input is `Underflow`, and so is a
/// last allowed byte that still has the continuation bit set and ends the input.
pub open spec fn varint_decode(buf: Seq<u8>, budget: nat, last_limit: nat) -> Result<
    (nat, nat),
    DecodeError,
>
    decreases budget,
{
    if budget == 0 {
        Err(DecodeError::Overflow)
    } else if buf.len() == 0 {
        Err(DecodeError::Underflow)
    } else if budget == 1 && buf[0] >= 128 && buf.len() == 1 {
        Err(DecodeError::Underflow)
    } else if budget == 1 && buf[0] >= last_limit {
        Err(DecodeError::Overflow)
    } else if buf[0] < 128 {
        Ok((1nat, buf[0] as nat))
    } else {
        match varint_decode(buf.drop_first(), (budget - 1) as nat, last_limit) {
            Ok((n, v)) => Ok((n + 1, (buf[0] - 128) as nat + 128 * v)),
            Err(e) => Err(e),
        }
    }
}

/// What writing the LEB128 encoding of `v` into a buffer holding `before` does:
/// with room for `varint_len(v)` bytes, the encoding is written at the front and its
/// length returned; with less room, `Underflow` names the required and remaining sizes,
/// and the whole buffer has been overwritten with the front of the encoding.
pub open spec fn encoded_into(
    v: nat,
    before: Seq<u8>,
    after: Seq<u8>,
    res: Result<usize, EncodeError>,
) -> bool {
    let len = varint_len(v);
    if len <= before.len() {
        &&& res == Ok::<usize, EncodeError>(len as usize)
        &&& after == varint_bytes(v) + before.skip(len as int)
    } else {
        &&& res == Err::<usize, EncodeError>(
            EncodeError::Underflow { required: len as usize, remaining: before.len() as usize },
        )
        &&& after == varint_bytes(v).take(before.len() as int)
    }
}

/// Zig-zag mapping of a signed value to an unsigned one: `0, -1, 1, -2, 2, ...`
/// become `0, 1, 2, 3, 4, ...`.
pub open spec fn zigzag(x: int) -> nat {
    if x >= 0 {
        (2 * x) as nat
    } else {
        (-2 * x - 1) as nat
    }
}

/// The inverse of [`zigzag`].
pub open spec fn unzigzag(u: nat) -> int {
    if u % 2 == 0 {
        (u / 2) as int
    } else {
        -((u / 2) as int) - 1
    }
}

/// The byte budgets and last-byte limits of the four widths: a value of `N` bits takes
/// at most `ceil(N / 7)` bytes, and the last of them holds only the top `N mod 7` bits.
/// Each budget and limit spans exactly the values of its width.
pub proof fn lemma_width_params()
    ensures
        pow128(2) * 4 == 0x1_0000,
        pow128(4) * 16 == 0x1_0000_0000,
        pow128(9) * 2 == 0x1_0000_0000_0000_0000,
        pow128(18) * 4 == 0x1_0000_0000_0000_0000_0000_0000_0000_0000,
        pow128(3) > 0xffff,
        pow128(5) > 0xffff_ffff,
        pow128(10) > 0xffff_ffff_ffff_ffff,
        pow128(19) > 0xffff_ffff_ffff_ffff_ffff_ffff_ffff_ffff,
{
    reveal_with_fuel(pow128, 20);
}

/// The encoding is `varint_len(v)` bytes long; all of them but the last have the
/// high bit set, and the last one does not.
pub proof fn lemma_varint_bytes_shape(v: nat)
    ensures
        varint_bytes(v).len() == varint_len(v),
        varint_len(v) >= 1,
        forall|i: int| 0 <= i < varint_len(v) - 1 ==> #[trigger] varint_bytes(v)[i] >= 128,
        varint_bytes(v)[varint_len(v) - 1] < 128,
    decreases v,
{
    if v >= 128 {
        lemma_varint_bytes_shape(v / 128);
        let tail = varint_bytes(v / 128);
        assert forall|i: int| 0 <= i < varint_len(v) - 1 implies #[trigger] varint_bytes(v)[i]
            >= 128 by {
            if i > 0 {
                assert(varint_bytes(v)[i] == tail[i - 1]);
            }
        }
    }
}

/// A value below `128^k` takes at most `k` bytes.
pub proof fn lemma_varint_len_le(v: nat, k: nat)
    requires
        k >= 1,
        v < pow128(k),
    ensures
        varint_len(v) <= k,
    decreases v,
{
    if v >= 128 {
        assert(v / 128 < pow128((k - 1) as nat)) by (nonlinear_arith)
            requires
                v < 128 * pow128((k - 1) as nat),
        ;
        if k == 1 {
            assert(pow128(1) == 128) by {
                reveal_with_fuel(pow128, 2);
            }
        } else {
            lemma_varint_len_le(v / 128, (k - 1) as nat);
        }
    }
}

/// A value of at least `128^k` takes more than `k` bytes.
pub proof fn lemma_varint_len_gt(v: nat, k: nat)
    requires
        v >= pow128(k),
    ensures
        varint_len(v) > k,
    decreases k,
{
    if k > 0 {
        assert(pow128(k) >= 128) by {
            lemma_pow128_ge_1((k - 1) as nat);
        }
        assert(v / 128 >= pow128((k - 1) as nat)) by (nonlinear_arith)
            requires
                v >= 128 * pow128((k - 1) as nat),
        ;
        lemma_varint_len_gt(v / 128, (k - 1) as nat);
    }
}

/// Every power of 128 is positive.
pub proof fn lemma_pow128_ge_1(k: nat)
    ensures
        pow128(k) >= 1,
    decreases k,
{
    if k > 0 {
        lemma_pow128_ge_1((k - 1) as nat);
    }
}

/// Powers of 128 grow with the exponent.
pub proof fn lemma_pow128_mono(i: nat, j: nat)
    requires
        i <= j,
    ensures
        pow128(i) <= pow128(j),
    decreases j,
{
    if i < j {
        lemma_pow128_mono(i, (j - 1) as nat);
        lemma_pow128_ge_1((j - 1) as nat);
    }
}

/// Decoding the encoding of a value that fits the type, followed by any bytes at all,
/// reads exactly the encoding and gives the value back.
pub proof fn lemma_decode_encoded(v: nat, budget: nat, last_limit: nat, rest: Seq<u8>)
    requires
        budget >= 1,
        1 <= last_limit <= 128,
        v < pow128((budget - 1) as nat) * last_limit,
    ensures
        varint_decode(varint_bytes(v) + rest, budget, last_limit) == Ok::<(nat, nat), DecodeError>(
            (varint_len(v), v),
        ),
    decreases v,
{
    let s = varint_bytes(v) + rest;
    assert(pow128(0) == 1);
    if budget == 1 {
        assert((budget - 1) as nat == 0);
        let p = pow128(0);
        assert(v < last_limit) by (nonlinear_arith)
            requires
                p == 1,
                v < p * last_limit,
        ;
    }
    if v < 128 {
        assert(s[0] == v as u8);
    } else {
        if budget == 1 {
            assert(false);
        }
        let p = pow128((budget - 2) as nat);
        assert(pow128((budget - 1) as nat) == 128 * p);
        assert(v / 128 < p * last_limit) by (nonlinear_arith)
            requires
                v < (128 * p) * last_limit,
        ;
        lemma_decode_encoded(v / 128, (budget - 1) as nat, last_limit, rest);
        assert(s.drop_first() =~= varint_bytes(v / 128) + rest);
        assert(s[0] == (v % 128 + 128) as u8);
    }
}

/// A successful decode reads between one byte and the budget, never more than the
/// input holds, and (for a last-byte limit of at most 128) gives a value that fits the type.
pub proof fn lemma_decode_ok_bounds(buf: Seq<u8>, budget: nat, last_limit: nat)
    ensures
        varint_decode(buf, budget, last_limit) matches Ok((n, v)) ==> {
            &&& 1 <= n <= budget
            &&& n <= buf.len()
            &&& 1 <= last_limit <= 128 ==> v < pow128((budget - 1) as nat) * last_limit
        },
    decreases budget,
{
    if budget >= 1 && buf.len() > 0 && !(budget == 1 && buf[0] >= 128 && buf.len() == 1) && !(
    budget == 1 && buf[0] >= last_limit) && buf[0] >= 128 {
        let b = (budget - 1) as nat;
        lemma_decode_ok_bounds(buf.drop_first(), b, last_limit);
        if let Ok((n, v)) = varint_decode(buf.drop_first(), b, last_limit) {
            if 1 <= last_limit <= 128 {
                let p = pow128((b - 1) as nat);
                assert(pow128(b) == 128 * p);
                let c = (buf[0] - 128) as nat;
                assert(c + 128 * v < (128 * p) * last_limit) by (nonlinear_arith)
                    requires
                        c < 128,
                        v < p * last_limit,
                ;
            }
        }
    } else if budget >= 1 && buf.len() > 0 && !(budget == 1 && buf[0] >= last_limit) && 1
        <= last_limit <= 128 {
        if budget > 1 {
            lemma_pow128_mono(1, (budget - 1) as nat);
            assert(pow128(1) == 128) by {
                reveal_with_fuel(pow128, 2);
            }
        }
        let p = pow128((budget - 1) as nat);
        let b0 = buf[0] as nat;
        assert(p <= p * last_limit) by (nonlinear_arith)
            requires
                last_limit >= 1,
        ;
        if budget == 1 {
            assert((budget - 1) as nat == 0);
            assert(b0 < p * last_limit) by (nonlinear_arith)
                requires
                    p == 1,
                    b0 < last_limit,
            ;
        }
    }
}

} // verus!
