//! Width-aware decoding of little-endian register values.
//!
//! Registers are transported as raw byte strings. One-byte fields are
//! unsigned, two- and four-byte fields are signed two's-complement values,
//! and every other width is an unsigned little-endian integer, of which the
//! low 64 bits are kept.

use vstd::prelude::*;

verus! {

/// The value of `b` read as an unsigned little-endian integer.
pub open spec fn le_value(b: Seq<u8>) -> nat
    decreases b.len(),
{
    if b.len() == 0 {
        0
    } else {
        b[0] as nat + 256 * le_value(b.drop_first())
    }
}

/// 256 to the power `n`: the number of byte strings of length `n`.
pub open spec fn pow256(n: nat) -> nat
    decreases n,
{
    if n == 0 {
        1
    } else {
        256 * pow256((n - 1) as nat)
    }
}

/// Reads `v` as a two's-complement value modulo `m`: values of `m / 2` and
/// above stand for negatives.
pub open spec fn as_signed(v: nat, m: nat) -> int
    recommends
        v < m,
{
    if v < m / 2 {
        v as int
    } else {
        v as int - m
    }
}

/// What `bytes_to_i64` returns: two- and four-byte strings are signed,
/// every other width is unsigned, truncated to the low 64 bits.
pub open spec fn decode_spec(b: Seq<u8>) -> int {
    if b.len() == 2 {
        as_signed(le_value(b), 0x10000)
    } else if b.len() == 4 {
        as_signed(le_value(b), 0x1_0000_0000)
    } else {
        as_signed(le_value(b) % 0x1_0000_0000_0000_0000, 0x1_0000_0000_0000_0000)
    }
}

/// A little-endian value is bounded by 256 to the number of its bytes.
proof fn lemma_le_value_bound(b: Seq<u8>)
    ensures
        le_value(b) < pow256(b.len()),
    decreases b.len(),
{
    if b.len() == 0 {
    } else {
        let rest = b.drop_first();
        lemma_le_value_bound(rest);
        assert(b[0] as nat + 256 * le_value(rest) < 256 * pow256(rest.len())) by (nonlinear_arith)
            requires
                b[0] < 256,
                le_value(rest) < pow256(rest.len()),
        ;
    }
}

/// Splitting a byte string splits its value: the low `k` bytes plus the
/// rest scaled by `pow256(k)`.
proof fn lemma_le_value_split(b: Seq<u8>, k: int)
    requires
        0 <= k <= b.len(),
    ensures
        le_value(b) == le_value(b.subrange(0, k)) + pow256(k as nat) * le_value(
            b.subrange(k, b.len() as int),
        ),
    decreases k,
{
    if k == 0 {
        assert(b.subrange(0, b.len() as int) =~= b);
        assert(le_value(b.subrange(0, 0)) == 0);
        assert(pow256(0) == 1);
        assert(le_value(b.subrange(0, k)) + pow256(k as nat) * le_value(
            b.subrange(k, b.len() as int),
        ) == 1 * le_value(b));
        assert(1 * le_value(b) == le_value(b));
    } else {
        let rest = b.drop_first();
        lemma_le_value_split(rest, k - 1);
        assert(b.subrange(0, k).drop_first() =~= rest.subrange(0, k - 1));
        assert(b.subrange(k, b.len() as int) =~= rest.subrange(k - 1, rest.len() as int));
        assert(b.subrange(0, k)[0] == b[0]);
        let x = le_value(rest.subrange(0, k - 1));
        let y = le_value(rest.subrange(k - 1, rest.len() as int));
        let p = pow256((k - 1) as nat);
        assert(le_value(rest) == x + p * y);
        assert(le_value(b) == b[0] as nat + 256 * le_value(rest));
        assert(b.subrange(0, k).len() == k);
        assert(le_value(b.subrange(0, k)) == b.subrange(0, k)[0] as nat + 256 * le_value(
            b.subrange(0, k).drop_first(),
        ));
        assert(le_value(b.subrange(0, k)) == b[0] as nat + 256 * x);
        assert(pow256(k as nat) == 256 * pow256((k as nat - 1) as nat));
        assert(pow256(k as nat) == 256 * p);
        assert(b[0] as nat + 256 * (x + p * y) == (b[0] as nat + 256 * x) + (256 * p) * y)
            by (nonlinear_arith);
        assert(le_value(b) == le_value(b.subrange(0, k)) + pow256(k as nat) * y);
    }
}

/// Converts little-endian bytes to a signed 64-bit value.
///
/// One-byte values are unsigned; the device protocol has no signed
/// one-byte fields. Two- and four-byte values are sign-extended so that
/// fields with negative ranges read correctly. Any other width is
/// assembled as an unsigned little-endian integer, of which the low
/// 64 bits are returned; a zero-length input yields 0.
pub fn bytes_to_i64(bytes: &[u8]) -> (r: i64)
    ensures
        r == decode_spec(bytes@),
{
    let n: usize = bytes.len();
    if n == 2 {
        let v: u32 = (bytes[0] as u32) + (bytes[1] as u32) * 256;
        proof {
            let b = bytes@;
            assert(b.drop_first().drop_first() =~= Seq::<u8>::empty());
            assert(le_value(b.drop_first()) == b[1] as nat + 256 * le_value(
                b.drop_first().drop_first(),
            ));
            assert(le_value(b) == b[0] as nat + 256 * (b[1] as nat));
        }
        if v >= 0x8000 {
            (v as i64) - 0x10000
        } else {
            v as i64
        }
    } else if n == 4 {
        let v: u64 = (bytes[0] as u64) + (bytes[1] as u64) * 256 + (bytes[2] as u64) * 0x10000
            + (bytes[3] as u64) * 0x100_0000;
        proof {
            let b = bytes@;
            let b1 = b.drop_first();
            let b2 = b1.drop_first();
            let b3 = b2.drop_first();
            assert(b3.drop_first() =~= Seq::<u8>::empty());
            assert(le_value(b3) == b[3] as nat + 256 * le_value(b3.drop_first()));
            assert(le_value(b2) == b[2] as nat + 256 * le_value(b3));
            assert(le_value(b1) == b[1] as nat + 256 * le_value(b2));
            assert(le_value(b) == b[0] as nat + 256 * le_value(b1));
        }
        if v >= 0x8000_0000 {
            (v as i64) - 0x1_0000_0000
        } else {
            v as i64
        }
    } else {
        let m: usize = if n < 8 {
            n
        } else {
            8
        };
        let mut acc: u64 = 0;
        let mut i: usize = m;
        while i > 0
            invariant
                i <= m,
                m <= 8,
                m <= bytes@.len(),
                acc == le_value(bytes@.subrange(i as int, m as int)),
            decreases i,
        {
            proof {
                lemma_le_value_bound(bytes@.subrange(i as int, m as int));
                reveal_with_fuel(pow256, 9);
                assert(pow256((m - i) as nat) <= pow256(7)) by {
                    assert(bytes@.subrange(i as int, m as int).len() == m - i);
                };
            }
            i = i - 1;
            proof {
                assert(bytes@.subrange(i as int, m as int).drop_first() =~= bytes@.subrange(
                    i as int + 1,
                    m as int,
                ));
                assert(bytes@.subrange(i as int, m as int)[0] == bytes@[i as int]);
            }
            acc = acc * 256 + (bytes[i] as u64);
        }
        proof {
            let b = bytes@;
            assert(acc == le_value(b.subrange(0, m as int)));
            lemma_le_value_bound(b.subrange(0, m as int));
            reveal_with_fuel(pow256, 9);
            if n <= 8 {
                assert(b.subrange(0, m as int) =~= b);
                assert(le_value(b) < pow256(b.len()));
                assert(pow256(b.len()) <= 0x1_0000_0000_0000_0000);
                assert(le_value(b) % 0x1_0000_0000_0000_0000 == le_value(b));
            } else {
                lemma_le_value_split(b, 8);
                let low = le_value(b.subrange(0, 8));
                let high = le_value(b.subrange(8, b.len() as int));
                assert(le_value(b) == low + 0x1_0000_0000_0000_0000 * high);
                assert((low + 0x1_0000_0000_0000_0000 * high) % 0x1_0000_0000_0000_0000 == low)
                    by (nonlinear_arith)
                    requires
                        0 <= low < 0x1_0000_0000_0000_0000,
                        high >= 0,
                ;
            }
        }
        if acc >= 0x8000_0000_0000_0000 {
            -((0xFFFF_FFFF_FFFF_FFFFu64 - acc) as i64) - 1
        } else {
            acc as i64
        }
    }
}

/// A one-byte field decodes to its unsigned value: always within 0 to 255.
pub proof fn lemma_decode_one_byte(b: Seq<u8>)
    requires
        b.len() == 1,
    ensures
        0 <= decode_spec(b) <= 255,
        decode_spec(b) == b[0],
{
    assert(b.drop_first() =~= Seq::<u8>::empty());
    assert(le_value(b) == b[0] as nat + 256 * le_value(b.drop_first()));
}

/// A two-byte field decodes to the signed 16-bit reading of its bytes:
/// the result lies in the 16-bit signed range and agrees with the
/// little-endian value modulo 2^16.
pub proof fn lemma_decode_two_bytes(b: Seq<u8>)
    requires
        b.len() == 2,
    ensures
        -0x8000 <= decode_spec(b) <= 0x7FFF,
        decode_spec(b) % 0x10000 == le_value(b) % 0x10000,
{
    lemma_le_value_bound(b);
    reveal_with_fuel(pow256, 3);
    let v = le_value(b);
    assert(v < 0x10000);
    if v >= 0x8000 {
        assert((v as int - 0x10000) % 0x10000 == v as int % 0x10000) by (nonlinear_arith)
            requires
                0x8000 <= v < 0x10000,
        ;
    }
}

/// A four-byte field decodes to the signed 32-bit reading of its bytes:
/// the result lies in the 32-bit signed range and agrees with the
/// little-endian value modulo 2^32.
pub proof fn lemma_decode_four_bytes(b: Seq<u8>)
    requires
        b.len() == 4,
    ensures
        -0x8000_0000 <= decode_spec(b) <= 0x7FFF_FFFF,
        decode_spec(b) % 0x1_0000_0000 == le_value(b) % 0x1_0000_0000,
{
    lemma_le_value_bound(b);
    reveal_with_fuel(pow256, 5);
    let v = le_value(b);
    assert(v < 0x1_0000_0000);
    if v >= 0x8000_0000 {
        assert((v as int - 0x1_0000_0000) % 0x1_0000_0000 == v as int % 0x1_0000_0000)
            by (nonlinear_arith)
            requires
                0x8000_0000 <= v < 0x1_0000_0000,
        ;
    }
}

} // verus!
