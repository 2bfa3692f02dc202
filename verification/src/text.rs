//! UTF-8 validation of text payloads and close reasons, against the
//! UTF-8 encoding specification of vstd.

use vstd::prelude::*;
use vstd::utf8::{
    codepoint_width_2, codepoint_width_3, codepoint_width_4, valid_first_scalar, valid_utf8,
};

verus! {

/// Whether `v` holds a valid UTF-8 encoding, decided byte by byte:
/// each scalar must have a well-formed leading byte, its continuation
/// bytes present, no overlong encoding and no surrogate value.
pub fn check_utf8(v: &Vec<u8>) -> (b: bool)
    ensures
        b == valid_utf8(v@),
{
    let n = v.len();
    proof {
        assert(v@.skip(0) =~= v@);
    }
    let mut i: usize = 0;
    while i < n
        invariant
            i <= n,
            n == v@.len(),
            valid_utf8(v@) == valid_utf8(v@.skip(i as int)),
        decreases n - i,
    {
        let ghost rest = v@.skip(i as int);
        proof {
            assert(rest.len() == n - i);
            assert forall|j: int| 0 <= j < rest.len() implies rest[j] == v@[i + j] by {}
        }
        let b0 = v[i];
        let w: usize;
        if b0 < 0x80 {
            proof {
                assert(b0 & 0x7f == b0) by (bit_vector)
                    requires
                        b0 < 0x80,
                ;
            }
            w = 1;
        } else if b0 < 0xc0 {
            // A stray continuation byte cannot lead a scalar.
            proof {
                assert(!valid_first_scalar(rest));
            }
            return false;
        } else if b0 <= 0xdf {
            if n - i < 2 || !(0x80 <= v[i + 1] && v[i + 1] <= 0xbf) {
                proof {
                    assert(!valid_first_scalar(rest));
                }
                return false;
            }
            let b1v = v[i + 1];
            let cp: u32 = codepoint2(b0, b1v);
            if cp < 0x80 {
                proof {
                    assert(!valid_first_scalar(rest));
                }
                return false;
            }
            proof {
                assert(((((b0 & 0x1F) as u32) << 6) | ((b1v & 0x3f) as u32)) < 0x800)
                    by (bit_vector);
            }
            w = 2;
        } else if b0 <= 0xef {
            if n - i < 3 || !(0x80 <= v[i + 1] && v[i + 1] <= 0xbf) || !(0x80 <= v[i + 2] && v[i
                + 2] <= 0xbf) {
                proof {
                    assert(!valid_first_scalar(rest));
                }
                return false;
            }
            let cp: u32 = codepoint3(b0, v[i + 1], v[i + 2]);
            if cp < 0x800 || (0xD800 <= cp && cp <= 0xDFFF) {
                proof {
                    assert(!valid_first_scalar(rest));
                }
                return false;
            }
            w = 3;
        } else if b0 <= 0xf7 {
            if n - i < 4 || !(0x80 <= v[i + 1] && v[i + 1] <= 0xbf) || !(0x80 <= v[i + 2] && v[i
                + 2] <= 0xbf) || !(0x80 <= v[i + 3] && v[i + 3] <= 0xbf) {
                proof {
                    assert(!valid_first_scalar(rest));
                }
                return false;
            }
            let cp: u32 = codepoint4(b0, v[i + 1], v[i + 2], v[i + 3]);
            if cp < 0x10000 || cp > 0x10ffff {
                proof {
                    assert(!valid_first_scalar(rest));
                }
                return false;
            }
            w = 4;
        } else {
            proof {
                assert(!valid_first_scalar(rest));
            }
            return false;
        }
        proof {
            assert(valid_first_scalar(rest));
            assert(vstd::utf8::length_of_first_scalar(rest) == w);
            assert(vstd::utf8::pop_first_scalar(rest) =~= v@.skip(i + w));
            assert(valid_utf8(rest) == valid_utf8(v@.skip(i + w)));
        }
        i += w;
    }
    proof {
        assert(v@.skip(n as int) =~= Seq::<u8>::empty());
    }
    true
}

/// The codepoint of a 2-byte encoding.
fn codepoint2(b1: u8, b2: u8) -> (r: u32)
    ensures
        r == codepoint_width_2(b1, b2),
{
    (((b1 & 0x1F) as u32) << 6) | ((b2 & 0x3f) as u32)
}

/// The codepoint of a 3-byte encoding.
fn codepoint3(b1: u8, b2: u8, b3: u8) -> (r: u32)
    ensures
        r == codepoint_width_3(b1, b2, b3),
{
    (((b1 & 0x0F) as u32) << 12) | (((b2 & 0x3f) as u32) << 6) | ((b3 & 0x3f) as u32)
}

/// The codepoint of a 4-byte encoding.
fn codepoint4(b1: u8, b2: u8, b3: u8, b4: u8) -> (r: u32)
    ensures
        r == codepoint_width_4(b1, b2, b3, b4),
{
    (((b1 & 0x07) as u32) << 18) | (((b2 & 0x3f) as u32) << 12) | (((b3 & 0x3f) as u32) << 6) | ((
    b4 & 0x3f) as u32)
}

} // verus!
