//! Runtime validation of text payloads.
//!
//! The wire schema's text fields must hold valid UTF-8; the decoder
//! rejects a buffer whose payload is not. The checker walks the bytes one
//! scalar encoding at a time, testing literally the conditions of
//! `vstd::utf8::valid_first_scalar`: a well-formed leading byte, the right
//! number of continuation bytes, no overlong encoding, no surrogate.

use vstd::prelude::*;

use vstd::utf8::*;

verus! {

/// Whether `v` is a valid UTF-8 encoding, decided exactly.
#[verifier::loop_isolation(false)]
pub fn check_utf8(v: &Vec<u8>) -> (r: bool)
    ensures
        r == valid_utf8(v@),
{
    let n = v.len();
    let mut p: usize = 0;
    while p < n
        invariant
            p <= n == v@.len(),
            partial_valid_utf8(v@, p as int),
        decreases n - p,
    {
        let ghost suffix = v@.subrange(p as int, n as int);
        let b0 = *vstd::std_specs::vec::vec_index(v, p);
        assert(suffix[0] == b0);
        let width: usize = if b0 < 0x80 {
            1
        } else if b0 < 0xC0 {
            // a continuation byte cannot lead a scalar
            proof {
                scalar_invalid_here(v@, p as int);
            }
            return false;
        } else if b0 < 0xE0 {
            2
        } else if b0 < 0xF0 {
            3
        } else if b0 < 0xF8 {
            4
        } else {
            proof {
                scalar_invalid_here(v@, p as int);
            }
            return false;
        };
        if n - p < width {
            // the continuation bytes run past the end of the input
            proof {
                scalar_invalid_here(v@, p as int);
            }
            return false;
        }
        let mut k: usize = 1;
        while k < width
            invariant
                1 <= k <= width,
                p + width <= n == v@.len(),
                p < n,
                forall|j: int| 1 <= j < k ==> #[trigger] is_continuation_byte(v@[p + j]),
            decreases width - k,
        {
            let bk = *vstd::std_specs::vec::vec_index(v, p + k);
            if !(0x80 <= bk && bk <= 0xBF) {
                proof {
                    scalar_invalid_here(v@, p as int);
                }
                return false;
            }
            k = k + 1;
        }
        let cp: u32 = if width == 1 {
            (b0 & 0x7F) as u32
        } else if width == 2 {
            let b1 = *vstd::std_specs::vec::vec_index(v, p + 1);
            (((b0 & 0x1F) as u32) << 6) | ((b1 & 0x3F) as u32)
        } else if width == 3 {
            let b1 = *vstd::std_specs::vec::vec_index(v, p + 1);
            let b2 = *vstd::std_specs::vec::vec_index(v, p + 2);
            (((b0 & 0x0F) as u32) << 12) | (((b1 & 0x3F) as u32) << 6) | ((b2 & 0x3F) as u32)
        } else {
            let b1 = *vstd::std_specs::vec::vec_index(v, p + 1);
            let b2 = *vstd::std_specs::vec::vec_index(v, p + 2);
            let b3 = *vstd::std_specs::vec::vec_index(v, p + 3);
            (((b0 & 0x07) as u32) << 18) | (((b1 & 0x3F) as u32) << 12) | (((b2 & 0x3F) as u32)
                << 6) | ((b3 & 0x3F) as u32)
        };
        assert(valid_leading_and_continuation_bytes_first_codepoint(suffix));
        assert(cp == decode_first_codepoint(suffix));
        assert(width as int == length_of_first_codepoint(suffix));
        let overlong_or_beyond = (width == 2 && cp < 0x80) || (width == 3 && cp < 0x800) || (width
            == 4 && !(0x10000 <= cp && cp <= 0x10FFFF));
        if overlong_or_beyond || (0xD800 <= cp && cp <= 0xDFFF) {
            proof {
                scalar_invalid_here(v@, p as int);
            }
            return false;
        }
        proof {
            assert(valid_first_scalar(suffix));
            partial_valid_utf8_extend(v@, p as int);
        }
        p = p + width;
    }
    proof {
        assert(v@.subrange(0, n as int) =~= v@);
    }
    true
}

/// A byte sequence that is valid UTF-8 up to `i` but whose suffix does not
/// begin with a well-formed scalar encoding is not valid UTF-8.
proof fn scalar_invalid_here(bytes: Seq<u8>, i: int)
    requires
        partial_valid_utf8(bytes, i),
        i < bytes.len(),
        !valid_first_scalar(bytes.subrange(i, bytes.len() as int)),
    ensures
        !valid_utf8(bytes),
{
    assert(!valid_utf8(bytes.subrange(i, bytes.len() as int)));
    partial_valid_partial_invalid_utf8(bytes, i);
}

} // verus!
