//! UTF-8 validation for text handed to the console.
//!
//! The syscall shim forwards bytes to the console only when they are a
//! well-formed UTF-8 encoding; this module holds the verified validator.
//! Validity is stated against `vstd::utf8::valid_utf8`: every scalar must
//! follow the leading/continuation bit patterns, must not be an overlong
//! encoding, and must not fall in the surrogate range.

use vstd::prelude::*;
use vstd::utf8::decode_first_codepoint;
use vstd::utf8::is_continuation_byte;
use vstd::utf8::length_of_first_scalar;
use vstd::utf8::not_overlong_encoding;
use vstd::utf8::not_surrogate;
use vstd::utf8::partial_valid_partial_invalid_utf8;
use vstd::utf8::partial_valid_utf8;
use vstd::utf8::partial_valid_utf8_extend;
use vstd::utf8::valid_first_scalar;
use vstd::utf8::valid_utf8;

verus! {

/// Checks that the first `n` bytes of `bytes` are a well-formed UTF-8
/// encoding, scalar by scalar, left to right.
pub fn is_utf8(bytes: &[u8], n: usize) -> (r: bool)
    requires
        n <= bytes@.len(),
    ensures
        r == valid_utf8(bytes@.take(n as int)),
{
    let ghost target = bytes@.take(n as int);
    let mut i: usize = 0;
    while i < n
        invariant
            i <= n <= bytes@.len(),
            target == bytes@.take(n as int),
            target.len() == n,
            partial_valid_utf8(target, i as int),
        decreases n - i,
    {
        let ghost suffix = target.subrange(i as int, n as int);
        proof {
            assert(suffix.len() == n - i);
            assert forall|k: int| 0 <= k < suffix.len() implies suffix[k] == bytes@[i + k] by {
                assert(suffix[k] == target[i + k]);
            }
        }
        let b0 = bytes[i];
        if b0 < 0x80 {
            // one-byte scalar (ASCII)
            proof {
                assert(((b0 & 0x7f) as u32) < 0xd800 && !(b0 >= 0x80)) by (bit_vector)
                    requires
                        b0 < 0x80,
                ;
                assert(valid_first_scalar(suffix));
                assert(length_of_first_scalar(suffix) == 1);
                partial_valid_utf8_extend(target, i as int);
            }
            i = i + 1;
        } else if b0 < 0xc2 {
            // a continuation byte in leading position, or the overlong
            // leads 0xc0 / 0xc1
            proof {
                if valid_first_scalar(suffix) {
                    assert(suffix.len() >= 2 && 0xc0 <= b0 <= 0xc1 && is_continuation_byte(
                        suffix[1],
                    ));
                    let b1 = suffix[1];
                    assert((((b0 & 0x1f) as u32) << 6 | ((b1 & 0x3f) as u32)) < 0x80)
                        by (bit_vector)
                        requires
                            0xc0 <= b0 <= 0xc1 && 0x80 <= b1 <= 0xbf,
                    ;
                    assert(!not_overlong_encoding(decode_first_codepoint(suffix), 2));
                }
                lemma_suffix_invalid(target, i as int);
            }
            return false;
        } else if b0 < 0xe0 {
            // two-byte scalar: 0xc2..=0xdf then one continuation byte
            if n - i < 2 {
                proof {
                    lemma_suffix_invalid(target, i as int);
                }
                return false;
            }
            let b1 = bytes[i + 1];
            if !(0x80 <= b1 && b1 <= 0xbf) {
                proof {
                    lemma_suffix_invalid(target, i as int);
                }
                return false;
            }
            proof {
                assert(0x80 <= (((b0 & 0x1f) as u32) << 6 | ((b1 & 0x3f) as u32)) < 0xd800)
                    by (bit_vector)
                    requires
                        0xc2 <= b0 <= 0xdf && 0x80 <= b1 <= 0xbf,
                ;
                assert(valid_first_scalar(suffix));
                assert(length_of_first_scalar(suffix) == 2);
                partial_valid_utf8_extend(target, i as int);
            }
            i = i + 2;
        } else if b0 < 0xf0 {
            // three-byte scalar: 0xe0..=0xef then two continuation bytes,
            // with the narrowed second byte after 0xe0 (overlong) and
            // 0xed (surrogates)
            if n - i < 3 {
                proof {
                    lemma_suffix_invalid(target, i as int);
                }
                return false;
            }
            let b1 = bytes[i + 1];
            let b2 = bytes[i + 2];
            let ok = (0x80 <= b1 && b1 <= 0xbf) && (0x80 <= b2 && b2 <= 0xbf) && !(b0 == 0xe0 && b1
                < 0xa0) && !(b0 == 0xed && b1 > 0x9f);
            if !ok {
                proof {
                    if valid_first_scalar(suffix) {
                        let cp = (((b0 & 0x0f) as u32) << 12) | (((b1 & 0x3f) as u32) << 6) | ((b2
                            & 0x3f) as u32);
                        assert(b0 == 0xe0 && 0x80 <= b1 < 0xa0 ==> cp < 0x800) by (bit_vector)
                            requires
                                cp == (((b0 & 0x0f) as u32) << 12) | (((b1 & 0x3f) as u32) << 6)
                                    | ((b2 & 0x3f) as u32),
                        ;
                        assert(b0 == 0xed && 0x9f < b1 <= 0xbf ==> (0xd800 <= cp <= 0xdfff))
                            by (bit_vector)
                            requires
                                cp == (((b0 & 0x0f) as u32) << 12) | (((b1 & 0x3f) as u32) << 6)
                                    | ((b2 & 0x3f) as u32),
                        ;
                        assert(!not_overlong_encoding(cp, 3) || !not_surrogate(cp));
                    }
                    lemma_suffix_invalid(target, i as int);
                }
                return false;
            }
            proof {
                let cp = (((b0 & 0x0f) as u32) << 12) | (((b1 & 0x3f) as u32) << 6) | ((b2
                    & 0x3f) as u32);
                assert(0x800 <= cp && !(0xd800 <= cp <= 0xdfff)) by (bit_vector)
                    requires
                        cp == (((b0 & 0x0f) as u32) << 12) | (((b1 & 0x3f) as u32) << 6) | ((b2
                            & 0x3f) as u32),
                        0xe0 <= b0 <= 0xef && 0x80 <= b1 <= 0xbf && 0x80 <= b2 <= 0xbf && !(b0
                            == 0xe0 && b1 < 0xa0) && !(b0 == 0xed && b1 > 0x9f),
                ;
                assert(valid_first_scalar(suffix));
                assert(length_of_first_scalar(suffix) == 3);
                partial_valid_utf8_extend(target, i as int);
            }
            i = i + 3;
        } else if b0 < 0xf5 {
            // four-byte scalar: 0xf0..=0xf4 then three continuation bytes,
            // with the narrowed second byte after 0xf0 (overlong) and
            // 0xf4 (beyond the last scalar)
            if n - i < 4 {
                proof {
                    lemma_suffix_invalid(target, i as int);
                }
                return false;
            }
            let b1 = bytes[i + 1];
            let b2 = bytes[i + 2];
            let b3 = bytes[i + 3];
            let ok = (0x80 <= b1 && b1 <= 0xbf) && (0x80 <= b2 && b2 <= 0xbf) && (0x80 <= b3 && b3
                <= 0xbf) && !(b0 == 0xf0 && b1 < 0x90) && !(b0 == 0xf4 && b1 > 0x8f);
            if !ok {
                proof {
                    if valid_first_scalar(suffix) {
                        let cp = (((b0 & 0x07) as u32) << 18) | (((b1 & 0x3f) as u32) << 12) | (((
                        b2 & 0x3f) as u32) << 6) | ((b3 & 0x3f) as u32);
                        assert(b0 == 0xf0 && 0x80 <= b1 < 0x90 ==> cp < 0x10000) by (bit_vector)
                            requires
                                cp == (((b0 & 0x07) as u32) << 18) | (((b1 & 0x3f) as u32) << 12)
                                    | (((b2 & 0x3f) as u32) << 6) | ((b3 & 0x3f) as u32),
                        ;
                        assert(b0 == 0xf4 && 0x8f < b1 <= 0xbf ==> cp > 0x10ffff) by (bit_vector)
                            requires
                                cp == (((b0 & 0x07) as u32) << 18) | (((b1 & 0x3f) as u32) << 12)
                                    | (((b2 & 0x3f) as u32) << 6) | ((b3 & 0x3f) as u32),
                        ;
                        assert(!not_overlong_encoding(cp, 4));
                    }
                    lemma_suffix_invalid(target, i as int);
                }
                return false;
            }
            proof {
                let cp = (((b0 & 0x07) as u32) << 18) | (((b1 & 0x3f) as u32) << 12) | (((b2
                    & 0x3f) as u32) << 6) | ((b3 & 0x3f) as u32);
                assert(0x10000 <= cp <= 0x10ffff) by (bit_vector)
                    requires
                        cp == (((b0 & 0x07) as u32) << 18) | (((b1 & 0x3f) as u32) << 12) | (((b2
                            & 0x3f) as u32) << 6) | ((b3 & 0x3f) as u32),
                        0xf0 <= b0 <= 0xf4 && 0x80 <= b1 <= 0xbf && 0x80 <= b2 <= 0xbf && 0x80
                            <= b3 <= 0xbf && !(b0 == 0xf0 && b1 < 0x90) && !(b0 == 0xf4 && b1
                            > 0x8f),
                ;
                assert(valid_first_scalar(suffix));
                assert(length_of_first_scalar(suffix) == 4);
                partial_valid_utf8_extend(target, i as int);
            }
            i = i + 4;
        } else {
            // 0xf5..=0xf7 encode values beyond the last scalar; 0xf8.. are
            // no leading bytes at all
            proof {
                if valid_first_scalar(suffix) {
                    assert(suffix.len() >= 4 && 0xf5 <= b0 <= 0xf7 && is_continuation_byte(
                        suffix[1],
                    ) && is_continuation_byte(suffix[2]) && is_continuation_byte(suffix[3]));
                    let b1 = suffix[1];
                    let b2 = suffix[2];
                    let b3 = suffix[3];
                    let cp = (((b0 & 0x07) as u32) << 18) | (((b1 & 0x3f) as u32) << 12) | (((b2
                        & 0x3f) as u32) << 6) | ((b3 & 0x3f) as u32);
                    assert(cp > 0x10ffff) by (bit_vector)
                        requires
                            cp == (((b0 & 0x07) as u32) << 18) | (((b1 & 0x3f) as u32) << 12) | (((
                            b2 & 0x3f) as u32) << 6) | ((b3 & 0x3f) as u32),
                            0xf5 <= b0 <= 0xf7,
                    ;
                    assert(!not_overlong_encoding(cp, 4));
                }
                lemma_suffix_invalid(target, i as int);
            }
            return false;
        }
    }
    proof {
        assert(target.subrange(0, n as int) =~= target);
    }
    true
}

/// From an invalid first scalar at position `i`, the whole target is
/// invalid: the valid prefix before `i` cannot rescue an invalid suffix.
proof fn lemma_suffix_invalid(target: Seq<u8>, i: int)
    requires
        0 <= i < target.len(),
        partial_valid_utf8(target, i),
        !valid_first_scalar(target.subrange(i, target.len() as int)),
    ensures
        !valid_utf8(target),
{
    assert(!valid_utf8(target.subrange(i, target.len() as int)));
    partial_valid_partial_invalid_utf8(target, i);
}

} // verus!
