//! Unsigned integers written in SVD files: decimal, or hexadecimal after `0x`.
use crate::text::{chars_of, is_white, trim, trim_range};
use vstd::prelude::*;

verus! {

/// Message of an empty number.
pub open spec fn msg_empty() -> Seq<char> {
    "cannot parse integer from empty string"@
}

/// Message of a character that is not a digit.
pub open spec fn msg_invalid() -> Seq<char> {
    "invalid digit found in string"@
}

/// Message of a number above `u64::MAX`.
pub open spec fn msg_overflow() -> Seq<char> {
    "number too large to fit in target type"@
}

/// Value of digit `c` in base `radix` (2..=36; letters of either case above 9).
pub open spec fn digit_value(c: char, radix: u32) -> Option<u64> {
    let v: int = if '0' <= c && c <= '9' {
        c as int - '0' as int
    } else if 'a' <= c && c <= 'z' {
        c as int - 'a' as int + 10
    } else if 'A' <= c && c <= 'Z' {
        c as int - 'A' as int + 10
    } else {
        99
    };
    if v < radix { Some(v as u64) } else { None }
}

/// Value of the first `n` digits of `s`, read left to right, or the message of the first
/// problem met (a non-digit, or a value above `u64::MAX`).
pub open spec fn digits_value(s: Seq<char>, radix: u32, n: int) -> Result<u64, Seq<char>>
    decreases n,
{
    if n <= 0 {
        Ok(0)
    } else {
        match digits_value(s, radix, n - 1) {
            Err(e) => Err(e),
            Ok(v) => match digit_value(s[n - 1], radix) {
                None => Err(msg_invalid()),
                Some(d) => if v * radix + d > u64::MAX {
                    Err(msg_overflow())
                } else {
                    Ok((v * radix + d) as u64)
                },
            },
        }
    }
}

/// `s` read as an unsigned number in base `radix`, with an optional leading `+`, as
/// `u64::from_str_radix`; or the message of its error.
pub open spec fn spec_from_str_radix(s: Seq<char>, radix: u32) -> Result<u64, Seq<char>> {
    if s.len() == 0 {
        Err(msg_empty())
    } else if s.len() == 1 && (s[0] == '+' || s[0] == '-') {
        Err(msg_invalid())
    } else if s[0] == '+' {
        digits_value(s.drop_first(), radix, s.len() - 1)
    } else {
        digits_value(s, radix, s.len() as int)
    }
}

/// A number of an SVD file: surrounding white space ignored; hexadecimal after `0x` or `0X`,
/// else decimal.
pub open spec fn spec_parse_u64(s: Seq<char>) -> Result<u64, Seq<char>> {
    let t = trim(s);
    if t.len() >= 2 && t[0] == '0' && (t[1] == 'x' || t[1] == 'X') {
        spec_from_str_radix(t.subrange(2, t.len() as int), 16)
    } else {
        spec_from_str_radix(t, 10)
    }
}

fn digit(c: char, radix: u32) -> (r: Option<u64>)
    requires
        2 <= radix <= 36,
    ensures
        r == digit_value(c, radix),
{
    let v: u32 = if '0' <= c && c <= '9' {
        (c as u32) - ('0' as u32)
    } else if 'a' <= c && c <= 'z' {
        (c as u32) - ('a' as u32) + 10
    } else if 'A' <= c && c <= 'Z' {
        (c as u32) - ('A' as u32) + 10
    } else {
        99
    };
    if v < radix {
        Some(v as u64)
    } else {
        None
    }
}

/// Reads `x[a..b]` as digits in base `radix`.
fn read_digits(x: &[char], a: usize, b: usize, radix: u32) -> (r: Result<u64, String>)
    requires
        a <= b <= x@.len(),
        2 <= radix <= 36,
    ensures
        match digits_value(x@.subrange(a as int, b as int), radix, (b - a) as int) {
            Ok(v) => r == Ok::<u64, String>(v),
            Err(m) => r matches Err(e) && e@ == m,
        },
{
    let ghost s = x@.subrange(a as int, b as int);
    let mut v: u64 = 0;
    let mut i: usize = a;
    while i < b
        invariant
            a <= i <= b,
            b <= x@.len(),
            2 <= radix <= 36,
            s == x@.subrange(a as int, b as int),
            digits_value(s, radix, (i - a) as int) == Ok::<u64, Seq<char>>(v),
        decreases b - i,
    {
        assert(s[(i - a) as int] == x@[i as int]);
        let d = match digit(x[i], radix) {
            Some(d) => d,
            None => {
                proof {
                    lemma_error_sticks(s, radix, (i - a + 1) as int, (b - a) as int);
                }
                return Err("invalid digit found in string".to_owned());
            },
        };
        let m = match v.checked_mul(radix as u64) {
            Some(m) => m,
            None => {
                proof {
                    lemma_error_sticks(s, radix, (i - a + 1) as int, (b - a) as int);
                }
                return Err("number too large to fit in target type".to_owned());
            },
        };
        let n = match m.checked_add(d) {
            Some(n) => n,
            None => {
                proof {
                    lemma_error_sticks(s, radix, (i - a + 1) as int, (b - a) as int);
                }
                return Err("number too large to fit in target type".to_owned());
            },
        };
        v = n;
        i = i + 1;
    }
    Ok(v)
}

/// An error among the first `k` digits is the error of the first `n >= k`.
proof fn lemma_error_sticks(s: Seq<char>, radix: u32, k: int, n: int)
    requires
        k <= n,
        digits_value(s, radix, k) is Err,
    ensures
        digits_value(s, radix, n) == digits_value(s, radix, k),
    decreases n - k,
{
    if k < n {
        lemma_error_sticks(s, radix, k, n - 1);
    }
}

/// Reads `x[a..b]` as `u64::from_str_radix` does.
pub fn from_str_radix(x: &[char], a: usize, b: usize, radix: u32) -> (r: Result<u64, String>)
    requires
        a <= b <= x@.len(),
        2 <= radix <= 36,
    ensures
        match spec_from_str_radix(x@.subrange(a as int, b as int), radix) {
            Ok(v) => r == Ok::<u64, String>(v),
            Err(m) => r matches Err(e) && e@ == m,
        },
{
    let ghost s = x@.subrange(a as int, b as int);
    if a == b {
        return Err("cannot parse integer from empty string".to_owned());
    }
    assert(s[0] == x@[a as int]);
    if b - a == 1 && (x[a] == '+' || x[a] == '-') {
        return Err("invalid digit found in string".to_owned());
    }
    if x[a] == '+' {
        assert(s.drop_first() =~= x@.subrange(a + 1, b as int));
        read_digits(x, a + 1, b, radix)
    } else {
        read_digits(x, a, b, radix)
    }
}

/// Reads a number of an SVD file (see `spec_parse_u64`).
pub fn parse_u64(input: &str) -> (r: Result<u64, String>)
    ensures
        match spec_parse_u64(input@) {
            Ok(v) => r == Ok::<u64, String>(v),
            Err(m) => r matches Err(e) && e@ == m,
        },
{
    let x = chars_of(input);
    let n = x.len();
    let (a, b) = trim_range(x.as_slice(), 0, n);
    assert(x@.subrange(0, n as int) =~= x@);
    let ghost t = trim(input@);
    assert(t == x@.subrange(a as int, b as int));
    if b - a >= 2 && x[a] == '0' && (x[a + 1] == 'x' || x[a + 1] == 'X') {
        assert(t[0] == x@[a as int] && t[1] == x@[a + 1]);
        assert(t.subrange(2, t.len() as int) =~= x@.subrange(a + 2, b as int));
        from_str_radix(x.as_slice(), a + 2, b, 16)
    } else {
        proof {
            if t.len() >= 2 {
                assert(t[0] == x@[a as int] && t[1] == x@[a + 1]);
            }
        }
        from_str_radix(x.as_slice(), a, b, 10)
    }
}

/// Reads a 32-bit number of an SVD file: the low 32 bits of its 64-bit value.
pub fn parse_u32(input: &str) -> (r: Result<u32, String>)
    ensures
        match spec_parse_u64(input@) {
            Ok(v) => r == Ok::<u32, String>(v as u32),
            Err(m) => r matches Err(e) && e@ == m,
        },
{
    match parse_u64(input) {
        Ok(v) => Ok(v as u32),
        Err(e) => Err(e),
    }
}

} // verus!
