//! Interpreting the console answer to the scan question: anything other
//! than a case-insensitive `y`, once surrounding whitespace is trimmed,
//! counts as no.
//!
//! The answer arrives as UTF-8 bytes, and trimming removes every Unicode
//! white-space character through its UTF-8 encoding: the six ASCII ones,
//! the two two-byte ones (next line, no-break space), and the three-byte
//! ones (ogham space mark, the en-quad-to-hair-space run, line and
//! paragraph separators, narrow no-break space, medium mathematical space,
//! ideographic space). Bytes that are not such an encoding are kept.

use vstd::prelude::*;

verus! {

/// A one-byte (ASCII) white-space character: tab, line feed, vertical tab,
/// form feed, carriage return, space.
pub open spec fn is_ascii_space(b: u8) -> bool {
    b == 9 || b == 10 || b == 11 || b == 12 || b == 13 || b == 32
}

/// The two-byte UTF-8 encodings of white space: next line (U+0085) and
/// no-break space (U+00A0).
pub open spec fn is_two_byte_space(a: u8, b: u8) -> bool {
    a == 194 && (b == 133 || b == 160)
}

/// The three-byte UTF-8 encodings of white space: ogham space mark
/// (U+1680), the spaces U+2000 through U+200A, line separator (U+2028),
/// paragraph separator (U+2029), narrow no-break space (U+202F), medium
/// mathematical space (U+205F), ideographic space (U+3000).
pub open spec fn is_three_byte_space(a: u8, b: u8, c: u8) -> bool {
    ||| (a == 225 && b == 154 && c == 128)
    ||| (a == 226 && b == 128 && ((128 <= c && c <= 138) || c == 168 || c == 169 || c == 175))
    ||| (a == 226 && b == 129 && c == 159)
    ||| (a == 227 && b == 128 && c == 128)
}

/// The length of the white-space encoding the byte string opens with, or
/// zero where it opens with none.
pub open spec fn space_head(s: Seq<u8>) -> nat {
    if s.len() >= 1 && is_ascii_space(s[0]) {
        1
    } else if s.len() >= 2 && is_two_byte_space(s[0], s[1]) {
        2
    } else if s.len() >= 3 && is_three_byte_space(s[0], s[1], s[2]) {
        3
    } else {
        0
    }
}

/// The length of the white-space encoding the byte string ends with, or
/// zero where it ends with none.
pub open spec fn space_tail(s: Seq<u8>) -> nat {
    let n = s.len() as int;
    if n >= 1 && is_ascii_space(s[n - 1]) {
        1
    } else if n >= 2 && is_two_byte_space(s[n - 2], s[n - 1]) {
        2
    } else if n >= 3 && is_three_byte_space(s[n - 3], s[n - 2], s[n - 1]) {
        3
    } else {
        0
    }
}

/// The byte string with its leading white space removed.
pub open spec fn trim_front(s: Seq<u8>) -> Seq<u8>
    decreases s.len(),
{
    if 0 < space_head(s) <= s.len() {
        trim_front(s.subrange(space_head(s) as int, s.len() as int))
    } else {
        s
    }
}

/// The byte string with its trailing white space removed.
pub open spec fn trim_back(s: Seq<u8>) -> Seq<u8>
    decreases s.len(),
{
    if 0 < space_tail(s) <= s.len() {
        trim_back(s.subrange(0, s.len() - space_tail(s)))
    } else {
        s
    }
}

/// The answer counts as yes: trimmed of surrounding white space it is
/// exactly `y` (121) or `Y` (89).
pub open spec fn affirmative(s: Seq<u8>) -> bool {
    let t = trim_back(trim_front(s));
    t.len() == 1 && (t[0] == 121 || t[0] == 89)
}

/// The length of the white-space encoding found in `s` at position `i`.
fn leading_space(s: &Vec<u8>, i: usize) -> (r: usize)
    requires
        i <= s@.len(),
    ensures
        r == space_head(s@.subrange(i as int, s@.len() as int)),
{
    let n = s.len();
    proof {
        let sub = s@.subrange(i as int, n as int);
        if i < n {
            assert(sub[0] == s@[i as int]);
        }
        if i + 1 < n {
            assert(sub[1] == s@[i as int + 1]);
        }
        if i + 2 < n {
            assert(sub[2] == s@[i as int + 2]);
        }
    }
    if i < n {
        let b0 = s[i];
        if b0 == 9 || b0 == 10 || b0 == 11 || b0 == 12 || b0 == 13 || b0 == 32 {
            return 1;
        }
        if n - i >= 2 {
            let b1 = s[i + 1];
            if b0 == 194 && (b1 == 133 || b1 == 160) {
                return 2;
            }
            if n - i >= 3 {
                let b2 = s[i + 2];
                if (b0 == 225 && b1 == 154 && b2 == 128)
                    || (b0 == 226 && b1 == 128
                        && ((128 <= b2 && b2 <= 138) || b2 == 168 || b2 == 169 || b2 == 175))
                    || (b0 == 226 && b1 == 129 && b2 == 159)
                    || (b0 == 227 && b1 == 128 && b2 == 128)
                {
                    return 3;
                }
            }
        }
    }
    0
}

/// The length of the white-space encoding `s` ends with just before `hi`,
/// looking back no further than `lo`.
fn trailing_space(s: &Vec<u8>, lo: usize, hi: usize) -> (r: usize)
    requires
        lo <= hi <= s@.len(),
    ensures
        r == space_tail(s@.subrange(lo as int, hi as int)),
{
    proof {
        let sub = s@.subrange(lo as int, hi as int);
        if hi - lo >= 1 {
            assert(sub[sub.len() - 1] == s@[hi - 1]);
        }
        if hi - lo >= 2 {
            assert(sub[sub.len() - 2] == s@[hi - 2]);
        }
        if hi - lo >= 3 {
            assert(sub[sub.len() - 3] == s@[hi - 3]);
        }
    }
    if hi - lo >= 1 {
        let c0 = s[hi - 1];
        if c0 == 9 || c0 == 10 || c0 == 11 || c0 == 12 || c0 == 13 || c0 == 32 {
            return 1;
        }
        if hi - lo >= 2 {
            let c1 = s[hi - 2];
            if c1 == 194 && (c0 == 133 || c0 == 160) {
                return 2;
            }
            if hi - lo >= 3 {
                let c2 = s[hi - 3];
                if (c2 == 225 && c1 == 154 && c0 == 128)
                    || (c2 == 226 && c1 == 128
                        && ((128 <= c0 && c0 <= 138) || c0 == 168 || c0 == 169 || c0 == 175))
                    || (c2 == 226 && c1 == 129 && c0 == 159)
                    || (c2 == 227 && c1 == 128 && c0 == 128)
                {
                    return 3;
                }
            }
        }
    }
    0
}

/// Decide whether a console answer affirms the question.
pub fn is_yes(answer: &Vec<u8>) -> (r: bool)
    ensures
        r == affirmative(answer@),
{
    let n: usize = answer.len();
    proof {
        assert(answer@.subrange(0, n as int) =~= answer@);
    }
    let mut lo: usize = 0;
    while leading_space(answer, lo) > 0
        invariant
            n == answer@.len(),
            lo <= n,
            trim_front(answer@) == trim_front(answer@.subrange(lo as int, n as int)),
        decreases n - lo,
    {
        let step = leading_space(answer, lo);
        proof {
            let sub = answer@.subrange(lo as int, n as int);
            assert(step == space_head(sub));
            assert(0 < space_head(sub) <= sub.len());
            assert(trim_front(sub) == trim_front(
                sub.subrange(space_head(sub) as int, sub.len() as int),
            ));
            assert(sub.subrange(step as int, sub.len() as int) =~= answer@.subrange(
                lo as int + step,
                n as int,
            ));
        }
        lo = lo + step;
    }
    proof {
        let sub = answer@.subrange(lo as int, n as int);
        assert(space_head(sub) == 0);
        assert(trim_front(sub) == sub);
    }
    let mut hi: usize = n;
    while trailing_space(answer, lo, hi) > 0
        invariant
            n == answer@.len(),
            lo <= hi <= n,
            trim_front(answer@) == answer@.subrange(lo as int, n as int),
            trim_back(trim_front(answer@)) == trim_back(answer@.subrange(lo as int, hi as int)),
        decreases hi,
    {
        let step = trailing_space(answer, lo, hi);
        proof {
            let sub = answer@.subrange(lo as int, hi as int);
            assert(step == space_tail(sub));
            assert(0 < space_tail(sub) <= sub.len());
            assert(trim_back(sub) == trim_back(
                sub.subrange(0, sub.len() - space_tail(sub)),
            ));
            assert(sub.subrange(0, sub.len() - step) =~= answer@.subrange(
                lo as int,
                hi - step,
            ));
        }
        hi = hi - step;
    }
    proof {
        let sub = answer@.subrange(lo as int, hi as int);
        assert(space_tail(sub) == 0);
        assert(trim_back(sub) == sub);
        assert(trim_back(trim_front(answer@)) == sub);
    }
    if hi - lo == 1 {
        let b = answer[lo];
        proof {
            assert(answer@.subrange(lo as int, hi as int)[0] == answer@[lo as int]);
        }
        b == 121 || b == 89
    } else {
        false
    }
}

} // verus!
