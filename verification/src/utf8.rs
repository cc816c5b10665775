use vstd::prelude::*;

verus! {

/// A UTF-8 continuation byte.
pub open spec fn spec_is_cont(c: u8) -> bool {
    0x80 <= c <= 0xBF
}

/// Length of the well-formed UTF-8 scalar encoding that begins at `i`, or 0
/// when no well-formed encoding begins there.  Follows the byte patterns of
/// RFC 3629: overlong forms, surrogate code points and values past U+10FFFF
/// are all rejected by the ranges of the leading and first trailing byte.
pub open spec fn spec_utf8_scalar_len(b: Seq<u8>, i: int) -> int
    recommends
        0 <= i < b.len(),
{
    let c = b[i];
    if c <= 0x7F {
        1
    } else if 0xC2 <= c <= 0xDF {
        if i + 2 <= b.len() && spec_is_cont(b[i + 1]) {
            2
        } else {
            0
        }
    } else if c == 0xE0 {
        if i + 3 <= b.len() && 0xA0 <= b[i + 1] <= 0xBF && spec_is_cont(b[i + 2]) {
            3
        } else {
            0
        }
    } else if 0xE1 <= c <= 0xEC || c == 0xEE || c == 0xEF {
        if i + 3 <= b.len() && spec_is_cont(b[i + 1]) && spec_is_cont(b[i + 2]) {
            3
        } else {
            0
        }
    } else if c == 0xED {
        if i + 3 <= b.len() && 0x80 <= b[i + 1] <= 0x9F && spec_is_cont(b[i + 2]) {
            3
        } else {
            0
        }
    } else if c == 0xF0 {
        if i + 4 <= b.len() && 0x90 <= b[i + 1] <= 0xBF && spec_is_cont(b[i + 2]) && spec_is_cont(
            b[i + 3],
        ) {
            4
        } else {
            0
        }
    } else if 0xF1 <= c <= 0xF3 {
        if i + 4 <= b.len() && spec_is_cont(b[i + 1]) && spec_is_cont(b[i + 2]) && spec_is_cont(
            b[i + 3],
        ) {
            4
        } else {
            0
        }
    } else if c == 0xF4 {
        if i + 4 <= b.len() && 0x80 <= b[i + 1] <= 0x8F && spec_is_cont(b[i + 2]) && spec_is_cont(
            b[i + 3],
        ) {
            4
        } else {
            0
        }
    } else {
        0
    }
}

/// The bytes from `i` on are a concatenation of well-formed scalar encodings.
pub open spec fn spec_is_utf8_from(b: Seq<u8>, i: int) -> bool
    recommends
        0 <= i <= b.len(),
    decreases b.len() - i,
{
    if i < 0 || i >= b.len() {
        true
    } else {
        let n = spec_utf8_scalar_len(b, i);
        n > 0 && spec_is_utf8_from(b, i + n)
    }
}

/// The byte sequence is valid UTF-8.
pub open spec fn spec_is_utf8(b: Seq<u8>) -> bool {
    spec_is_utf8_from(b, 0)
}

/// Length of the well-formed scalar encoding at `i`, or 0 when none begins
/// there.
fn utf8_scalar_len(b: &Vec<u8>, i: usize) -> (n: usize)
    requires
        i < b@.len(),
    ensures
        n == spec_utf8_scalar_len(b@, i as int),
        i + n <= b@.len(),
{
    let len = b.len();
    let rem = len - i;
    let c = b[i];
    if c <= 0x7F {
        1
    } else if 0xC2 <= c && c <= 0xDF {
        if rem >= 2 && 0x80 <= b[i + 1] && b[i + 1] <= 0xBF {
            2
        } else {
            0
        }
    } else if c == 0xE0 {
        if rem >= 3 && 0xA0 <= b[i + 1] && b[i + 1] <= 0xBF && 0x80 <= b[i + 2] && b[i + 2]
            <= 0xBF {
            3
        } else {
            0
        }
    } else if (0xE1 <= c && c <= 0xEC) || c == 0xEE || c == 0xEF {
        if rem >= 3 && 0x80 <= b[i + 1] && b[i + 1] <= 0xBF && 0x80 <= b[i + 2] && b[i + 2]
            <= 0xBF {
            3
        } else {
            0
        }
    } else if c == 0xED {
        if rem >= 3 && 0x80 <= b[i + 1] && b[i + 1] <= 0x9F && 0x80 <= b[i + 2] && b[i + 2]
            <= 0xBF {
            3
        } else {
            0
        }
    } else if c == 0xF0 {
        if rem >= 4 && 0x90 <= b[i + 1] && b[i + 1] <= 0xBF && 0x80 <= b[i + 2] && b[i + 2] <= 0xBF
            && 0x80 <= b[i + 3] && b[i + 3] <= 0xBF {
            4
        } else {
            0
        }
    } else if 0xF1 <= c && c <= 0xF3 {
        if rem >= 4 && 0x80 <= b[i + 1] && b[i + 1] <= 0xBF && 0x80 <= b[i + 2] && b[i + 2] <= 0xBF
            && 0x80 <= b[i + 3] && b[i + 3] <= 0xBF {
            4
        } else {
            0
        }
    } else if c == 0xF4 {
        if rem >= 4 && 0x80 <= b[i + 1] && b[i + 1] <= 0x8F && 0x80 <= b[i + 2] && b[i + 2] <= 0xBF
            && 0x80 <= b[i + 3] && b[i + 3] <= 0xBF {
            4
        } else {
            0
        }
    } else {
        0
    }
}

/// Check that a byte vector is valid UTF-8; never panics.
pub fn is_utf8(b: &Vec<u8>) -> (r: bool)
    ensures
        r == spec_is_utf8(b@),
{
    let len = b.len();
    let mut i: usize = 0;
    while i < len
        invariant
            i <= len,
            len == b@.len(),
            spec_is_utf8(b@) == spec_is_utf8_from(b@, i as int),
        decreases len - i,
    {
        let n = utf8_scalar_len(b, i);
        if n == 0 {
            proof {
                assert(!spec_is_utf8_from(b@, i as int));
            }
            return false;
        }
        proof {
            assert(spec_is_utf8_from(b@, i as int) == spec_is_utf8_from(b@, i + n));
        }
        i = i + n;
    }
    proof {
        assert(spec_is_utf8_from(b@, i as int));
    }
    true
}

} // verus!
