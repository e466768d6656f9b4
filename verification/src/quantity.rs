//! Parsing of quantity amounts.
//!
//! An amount arrives as a raw string. Whitespace, commas and plus signs are
//! stripped as thousands separators and sign decoration; what remains must be
//! a non-empty run of decimal digits whose value fits an unsigned 64-bit
//! integer, otherwise the amount is rejected. In particular a fractional
//! amount is rejected: its dot is kept and fails the all-digits check.

use vstd::prelude::*;
use vstd::string::StrSliceExecFns;

verus! {

/// Whether `c` is a white-space character (the Unicode `White_Space` set).
pub open spec fn spec_is_space(c: char) -> bool {
    c == '\u{0009}' || c == '\u{000A}' || c == '\u{000B}' || c == '\u{000C}' || c == '\u{000D}'
        || c == '\u{0020}' || c == '\u{0085}' || c == '\u{00A0}' || c == '\u{1680}' || c
        == '\u{2000}' || c == '\u{2001}' || c == '\u{2002}' || c == '\u{2003}' || c == '\u{2004}'
        || c == '\u{2005}' || c == '\u{2006}' || c == '\u{2007}' || c == '\u{2008}' || c
        == '\u{2009}' || c == '\u{200A}' || c == '\u{2028}' || c == '\u{2029}' || c == '\u{202F}'
        || c == '\u{205F}' || c == '\u{3000}'
}

/// Whether `c` survives stripping: anything but whitespace, a thousands
/// separator or a plus sign.
pub open spec fn spec_keep(c: char) -> bool {
    !spec_is_space(c) && c != ',' && c != '+'
}

/// The value of `c` as a decimal digit, if it is one.
pub open spec fn spec_digit(c: char) -> Option<u64> {
    if '0' <= c && c <= '9' {
        Some((c as u64 - '0' as u64) as u64)
    } else {
        None
    }
}

/// Scans the characters from position `i`: stripped characters are skipped,
/// every kept character must be a decimal digit, and the digits accumulate
/// into `acc` without overflowing; `seen` records whether a digit has been
/// taken yet. `None` when a kept non-digit appears, the value overflows, or
/// no digit is ever seen.
pub open spec fn spec_scan(s: Seq<char>, acc: u64, seen: bool) -> Option<u64>
    decreases s.len(),
{
    if s.len() == 0 {
        if seen {
            Some(acc)
        } else {
            None
        }
    } else if !spec_keep(s[0]) {
        spec_scan(s.drop_first(), acc, seen)
    } else {
        match spec_digit(s[0]) {
            Some(d) => if acc <= (u64::MAX - d) / 10 {
                spec_scan(s.drop_first(), (acc * 10 + d) as u64, true)
            } else {
                None
            },
            None => None,
        }
    }
}

/// The parsed value of a raw amount string: strip separators, then read the
/// remaining characters as one unsigned decimal integer.
pub open spec fn spec_parse_quantity(s: Seq<char>) -> Option<u64> {
    spec_scan(s, 0u64, false)
}

/// Whether `c` is a white-space character.
pub fn is_space(c: char) -> (r: bool)
    ensures
        r == spec_is_space(c),
{
    c == '\u{0009}' || c == '\u{000A}' || c == '\u{000B}' || c == '\u{000C}' || c == '\u{000D}'
        || c == '\u{0020}' || c == '\u{0085}' || c == '\u{00A0}' || c == '\u{1680}' || c
        == '\u{2000}' || c == '\u{2001}' || c == '\u{2002}' || c == '\u{2003}' || c == '\u{2004}'
        || c == '\u{2005}' || c == '\u{2006}' || c == '\u{2007}' || c == '\u{2008}' || c
        == '\u{2009}' || c == '\u{200A}' || c == '\u{2028}' || c == '\u{2029}' || c == '\u{202F}'
        || c == '\u{205F}' || c == '\u{3000}'
}

/// Parses a raw amount string as an unsigned integer, stripping whitespace,
/// commas and plus signs first; rejects anything else that is not a decimal
/// digit (a fractional amount among them), an empty remainder, and values
/// over `u64::MAX`.
pub fn parse_quantity(n: &str) -> (r: Option<u64>)
    ensures
        r == spec_parse_quantity(n@),
{
    let len = n.unicode_len();
    proof {
        assert(n@.skip(0) =~= n@);
    }
    let mut i: usize = 0;
    let mut acc: u64 = 0;
    let mut seen: bool = false;
    while i < len
        invariant
            i <= len,
            len == n@.len(),
            spec_scan(n@, 0u64, false) == spec_scan(n@.skip(i as int), acc, seen),
        decreases len - i,
    {
        proof {
            assert(n@.skip(i as int)[0] == n@[i as int]);
            assert(n@.skip(i as int).drop_first() =~= n@.skip(i as int + 1));
        }
        let c = n.get_char(i);
        if !(is_space(c) || c == ',' || c == '+') {
            if '0' <= c && c <= '9' {
                let d: u64 = c as u64 - '0' as u64;
                if acc <= (u64::MAX - d) / 10 {
                    proof {
                        assert(acc * 10 + d <= u64::MAX) by (nonlinear_arith)
                            requires
                                acc <= (u64::MAX - d) / 10,
                                d <= 9,
                        ;
                    }
                    acc = acc * 10 + d;
                    seen = true;
                } else {
                    return None;
                }
            } else {
                return None;
            }
        }
        i = i + 1;
    }
    proof {
        assert(n@.skip(i as int) =~= Seq::<char>::empty());
    }
    if seen {
        Some(acc)
    } else {
        None
    }
}

} // verus!
