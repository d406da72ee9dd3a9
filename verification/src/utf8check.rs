//! A verified UTF-8 validity check over raw bytes, against vstd's
//! `valid_utf8` specification.
use vstd::prelude::*;
use vstd::utf8::*;

verus! {

/// Decides whether `s` is a valid UTF-8 encoding.
pub fn check_utf8(s: &[u8]) -> (r: bool)
    ensures
        r == valid_utf8(s@),
{
    let n = s.len();
    let mut i: usize = 0;
    while i < n
        invariant
            0 <= i <= n,
            n == s@.len(),
            partial_valid_utf8(s@, i as int),
        decreases n - i,
    {
        let ghost sub = s@.subrange(i as int, n as int);
        assert(sub.len() == n - i);
        let rem = n - i;
        let b0 = s[i];
        assert(sub[0] == b0);
        if b0 < 0x80 {
            assert(is_leading_byte_width_1(b0));
            assert(valid_first_scalar(sub)) by {
                assert(decode_first_codepoint(sub) == (b0 & 0x7f) as u32);
                assert(((b0 & 0x7f) as u32) < 0x80) by (bit_vector);
                assert(length_of_first_codepoint(sub) == 1);
            }
            proof {
                partial_valid_utf8_extend(s@, i as int);
                assert(length_of_first_scalar(sub) == 1);
            }
            i += 1;
        } else if b0 < 0xc0 {
            // a continuation byte in leading position: no width fits
            assert(!valid_first_scalar(sub));
            proof {
                lemma_reject(s@, i as int);
            }
            return false;
        } else if b0 < 0xe0 {
            assert(is_leading_byte_width_2(b0));
            if rem < 2 {
                assert(!valid_leading_and_continuation_bytes_first_codepoint(sub));
                proof {
                    lemma_reject(s@, i as int);
                }
                return false;
            }
            let b1 = s[i + 1];
            assert(sub[1] == b1);
            if !(0x80 <= b1 && b1 < 0xc0) {
                assert(!is_continuation_byte(b1));
                assert(!valid_leading_and_continuation_bytes_first_codepoint(sub));
                proof {
                    lemma_reject(s@, i as int);
                }
                return false;
            }
            let cp: u32 = (((b0 & 0x1f) as u32) << 6) | ((b1 & 0x3f) as u32);
            assert(cp == codepoint_width_2(b0, b1));
            assert(decode_first_codepoint(sub) == codepoint_width_2(b0, b1));
            assert(length_of_first_codepoint(sub) == 2);
            if cp < 0x80 {
                assert(!valid_first_scalar(sub));
                proof {
                    lemma_reject(s@, i as int);
                }
                return false;
            }
            assert(cp <= 0x7ff) by (bit_vector)
                requires
                    cp == (((b0 & 0x1f) as u32) << 6) | ((b1 & 0x3f) as u32),
            ;
            assert(valid_first_scalar(sub));
            proof {
                partial_valid_utf8_extend(s@, i as int);
                assert(length_of_first_scalar(sub) == 2);
            }
            i += 2;
        } else if b0 < 0xf0 {
            assert(is_leading_byte_width_3(b0));
            if rem < 3 {
                assert(!valid_leading_and_continuation_bytes_first_codepoint(sub));
                proof {
                    lemma_reject(s@, i as int);
                }
                return false;
            }
            let b1 = s[i + 1];
            let b2 = s[i + 2];
            assert(sub[1] == b1 && sub[2] == b2);
            if !(0x80 <= b1 && b1 < 0xc0) || !(0x80 <= b2 && b2 < 0xc0) {
                assert(!valid_leading_and_continuation_bytes_first_codepoint(sub));
                proof {
                    lemma_reject(s@, i as int);
                }
                return false;
            }
            let cp: u32 = (((b0 & 0x0f) as u32) << 12) | (((b1 & 0x3f) as u32) << 6) | ((b2
                & 0x3f) as u32);
            assert(cp == codepoint_width_3(b0, b1, b2));
            assert(decode_first_codepoint(sub) == codepoint_width_3(b0, b1, b2));
            assert(length_of_first_codepoint(sub) == 3);
            if cp < 0x800 || (0xd800 <= cp && cp <= 0xdfff) {
                assert(!valid_first_scalar(sub));
                proof {
                    lemma_reject(s@, i as int);
                }
                return false;
            }
            assert(valid_first_scalar(sub));
            proof {
                partial_valid_utf8_extend(s@, i as int);
                assert(length_of_first_scalar(sub) == 3);
            }
            i += 3;
        } else if b0 < 0xf8 {
            assert(is_leading_byte_width_4(b0));
            if rem < 4 {
                assert(!valid_leading_and_continuation_bytes_first_codepoint(sub));
                proof {
                    lemma_reject(s@, i as int);
                }
                return false;
            }
            let b1 = s[i + 1];
            let b2 = s[i + 2];
            let b3 = s[i + 3];
            assert(sub[1] == b1 && sub[2] == b2 && sub[3] == b3);
            if !(0x80 <= b1 && b1 < 0xc0) || !(0x80 <= b2 && b2 < 0xc0) || !(0x80 <= b3 && b3
                < 0xc0) {
                assert(!valid_leading_and_continuation_bytes_first_codepoint(sub));
                proof {
                    lemma_reject(s@, i as int);
                }
                return false;
            }
            let cp: u32 = (((b0 & 0x07) as u32) << 18) | (((b1 & 0x3f) as u32) << 12) | (((b2
                & 0x3f) as u32) << 6) | ((b3 & 0x3f) as u32);
            assert(cp == codepoint_width_4(b0, b1, b2, b3));
            assert(decode_first_codepoint(sub) == codepoint_width_4(b0, b1, b2, b3));
            assert(length_of_first_codepoint(sub) == 4);
            if cp < 0x10000 || cp > 0x10ffff {
                assert(!valid_first_scalar(sub));
                proof {
                    lemma_reject(s@, i as int);
                }
                return false;
            }
            assert(valid_first_scalar(sub));
            proof {
                partial_valid_utf8_extend(s@, i as int);
                assert(length_of_first_scalar(sub) == 4);
            }
            i += 4;
        } else {
            // 0xf8..=0xff can lead no width
            assert(!valid_leading_and_continuation_bytes_first_codepoint(sub));
            assert(!valid_first_scalar(sub));
            proof {
                lemma_reject(s@, i as int);
            }
            return false;
        }
    }
    proof {
        assert(s@.subrange(0, n as int) =~= s@);
    }
    true
}

/// An invalid first scalar at a position whose prefix is valid sinks the whole
/// sequence.
proof fn lemma_reject(s: Seq<u8>, i: int)
    requires
        0 <= i < s.len(),
        partial_valid_utf8(s, i),
        !valid_first_scalar(s.subrange(i, s.len() as int)),
    ensures
        !valid_utf8(s),
{
    let sub = s.subrange(i, s.len() as int);
    assert(sub.len() > 0);
    assert(!valid_utf8(sub));
    partial_valid_partial_invalid_utf8(s, i);
}

} // verus!
