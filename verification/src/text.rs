//! Text helpers: ASCII case handling, prefixes and formatted messages.
use vstd::prelude::*;
use vstd::std_specs::iter::IteratorSpec;

verus! {

/// The lower-case hexadecimal digit of `d` (below 16).
pub open spec fn hex_digit(d: nat) -> char {
    if d < 10 {
        (('0' as u32) + d) as char
    } else {
        (('a' as u32) + d - 10) as char
    }
}

/// The lower-case hexadecimal digits of `n`, most significant first, without leading zeros.
pub open spec fn hex(n: nat) -> Seq<char>
    decreases n,
{
    if n < 16 {
        seq![hex_digit(n)]
    } else {
        hex(n / 16) + seq![hex_digit(n % 16)]
    }
}

/// The hexadecimal digits of `n` padded with zeros on the left to at least `width` characters,
/// as `format!` writes `{:0width$x}`.
pub open spec fn hex_padded(n: nat, width: nat) -> Seq<char> {
    let h = hex(n);
    if h.len() >= width {
        h
    } else {
        Seq::new((width - h.len()) as nat, |i: int| '0') + h
    }
}

/// The text of `prefix`, `0x`, `value` in lower-case hex zero-padded to `digits`, then `suffix`.
pub open spec fn spec_hex_message(prefix: Seq<char>, value: u64, digits: usize, suffix: Seq<char>) -> Seq<char> {
    prefix + "0x"@ + hex_padded(value as nat, digits as nat) + suffix
}

/// The text of `prefix`, `0x`, `v1` in hex (`d1` digits), `middle`, `0x`, `v2` in hex (`d2` digits),
/// then `suffix`.
pub open spec fn spec_hex_message2(
    prefix: Seq<char>,
    v1: u64,
    d1: usize,
    middle: Seq<char>,
    v2: u64,
    d2: usize,
    suffix: Seq<char>,
) -> Seq<char> {
    prefix + "0x"@ + hex_padded(v1 as nat, d1 as nat) + middle + "0x"@ + hex_padded(v2 as nat, d2 as nat) + suffix
}

/// Formats `{prefix}0x{value:0digits$x}{suffix}` with `std::format!` (hex in lower case,
/// zero-padded on the left to `digits`). std's formatter panics on a width above `u16::MAX`,
/// which `requires` rules out.
#[verifier::external_body]
pub(crate) fn hex_message(prefix: &str, value: u64, digits: usize, suffix: &str) -> (s: String)
    requires
        digits <= 65535,
    ensures
        s@ == spec_hex_message(prefix@, value, digits, suffix@),
{
    format!("{prefix}0x{value:0digits$x}{suffix}")
}

/// Formats `{prefix}0x{v1:0d1$x}{middle}0x{v2:0d2$x}{suffix}` with `std::format!`; widths above
/// `u16::MAX`, on which the formatter panics, are ruled out.
#[verifier::external_body]
pub(crate) fn hex_message2(prefix: &str, v1: u64, d1: usize, middle: &str, v2: u64, d2: usize, suffix: &str) -> (s: String)
    requires
        d1 <= 65535,
        d2 <= 65535,
    ensures
        s@ == spec_hex_message2(prefix@, v1, d1, middle@, v2, d2, suffix@),
{
    format!("{prefix}0x{v1:0d1$x}{middle}0x{v2:0d2$x}{suffix}")
}

/// The text of `prefix`, `0x`, `v1` (8 hex digits), `m1`, `0x`, `v2` (8 digits), `m2`, `0x`, `v3`
/// (8 digits).
pub open spec fn spec_hex_message3(
    prefix: Seq<char>,
    v1: u64,
    m1: Seq<char>,
    v2: u64,
    m2: Seq<char>,
    v3: u64,
) -> Seq<char> {
    prefix + "0x"@ + hex_padded(v1 as nat, 8) + m1 + "0x"@ + hex_padded(v2 as nat, 8) + m2 + "0x"@ + hex_padded(
        v3 as nat,
        8,
    )
}

/// Formats `{prefix}0x{v1:08x}{m1}0x{v2:08x}{m2}0x{v3:08x}` with `std::format!`.
#[verifier::external_body]
pub(crate) fn hex_message3(prefix: &str, v1: u64, m1: &str, v2: u64, m2: &str, v3: u64) -> (s: String)
    ensures
        s@ == spec_hex_message3(prefix@, v1, m1@, v2, m2@, v3),
{
    format!("{prefix}0x{v1:08x}{m1}0x{v2:08x}{m2}0x{v3:08x}")
}

/// ASCII upper-case of `c`; other characters are unchanged.
pub open spec fn ascii_upper(c: char) -> char {
    if 'a' <= c && c <= 'z' {
        ((c as u32) - 32) as char
    } else {
        c
    }
}

/// `a` and `b` are equal up to ASCII case.
pub open spec fn eq_ignore_case(a: Seq<char>, b: Seq<char>) -> bool {
    a.len() == b.len() && forall|i: int| 0 <= i < a.len() ==> #[trigger] ascii_upper(a[i]) == ascii_upper(b[i])
}

/// `p` is a prefix of `s`.
pub open spec fn has_prefix(s: Seq<char>, p: Seq<char>) -> bool {
    p.len() <= s.len() && s.subrange(0, p.len() as int) == p
}

/// `p` occurs in `s` at position `i`, up to ASCII case.
pub open spec fn occurs_at_ignore_case(s: Seq<char>, p: Seq<char>, i: int) -> bool {
    0 <= i && i + p.len() <= s.len() && eq_ignore_case(s.subrange(i, i + p.len()), p)
}

/// `p` occurs somewhere in `s`, up to ASCII case.
pub open spec fn contains_ignore_case(s: Seq<char>, p: Seq<char>) -> bool {
    exists|i: int| #[trigger] occurs_at_ignore_case(s, p, i)
}

/// ASCII upper-case of one character.
pub fn char_upper(c: char) -> (r: char)
    ensures
        r == ascii_upper(c),
{
    if 'a' <= c && c <= 'z' {
        let b = (c as u8) - 32;
        b as char
    } else {
        c
    }
}

/// Equality up to ASCII case, as `str::eq_ignore_ascii_case`.
pub fn eq_ignore_ascii_case(a: &str, b: &str) -> (r: bool)
    ensures
        r == eq_ignore_case(a@, b@),
{
    let n = a.unicode_len();
    if n != b.unicode_len() {
        return false;
    }
    let mut i: usize = 0;
    while i < n
        invariant
            n == a@.len(),
            n == b@.len(),
            i <= n,
            forall|j: int| 0 <= j < i ==> #[trigger] ascii_upper(a@[j]) == ascii_upper(b@[j]),
        decreases n - i,
    {
        if char_upper(a.get_char(i)) != char_upper(b.get_char(i)) {
            return false;
        }
        i = i + 1;
    }
    true
}

/// Whether `s` begins with `p`, as `str::starts_with`.
pub fn starts_with(s: &str, p: &str) -> (r: bool)
    ensures
        r == has_prefix(s@, p@),
{
    let n = p.unicode_len();
    if n > s.unicode_len() {
        return false;
    }
    let mut i: usize = 0;
    while i < n
        invariant
            n == p@.len(),
            n <= s@.len(),
            i <= n,
            forall|j: int| 0 <= j < i ==> s@[j] == p@[j],
        decreases n - i,
    {
        if s.get_char(i) != p.get_char(i) {
            assert(s@.subrange(0, n as int)[i as int] != p@[i as int]);
            return false;
        }
        i = i + 1;
    }
    assert(s@.subrange(0, n as int) =~= p@);
    true
}

/// Whether `p` occurs at character position `at` of `s`, up to ASCII case.
fn matches_at_ignore_case(s: &str, p: &str, at: usize) -> (r: bool)
    requires
        at + p@.len() <= s@.len(),
    ensures
        r == occurs_at_ignore_case(s@, p@, at as int),
{
    let n = p.unicode_len();
    let total = s.unicode_len();
    let mut i: usize = 0;
    while i < n
        invariant
            n == p@.len(),
            total == s@.len(),
            at + n <= s@.len(),
            i <= n,
            forall|j: int| 0 <= j < i ==> #[trigger] ascii_upper(s@[at + j]) == ascii_upper(p@[j]),
        decreases n - i,
    {
        if char_upper(s.get_char(at + i)) != char_upper(p.get_char(i)) {
            assert(s@.subrange(at as int, at + n)[i as int] == s@[at + i]);
            return false;
        }
        i = i + 1;
    }
    assert forall|j: int| 0 <= j < n implies #[trigger] ascii_upper(s@.subrange(at as int, at + n)[j]) == ascii_upper(p@[j]) by {
        assert(s@.subrange(at as int, at + n)[j] == s@[at + j]);
    }
    true
}

/// Whether `p` occurs in `s` ignoring ASCII case (`s.to_ascii_uppercase().contains(p)` for an
/// upper-case `p`).
pub fn contains_ignore_ascii_case(s: &str, p: &str) -> (r: bool)
    ensures
        r == contains_ignore_case(s@, p@),
{
    let n = s.unicode_len();
    let m = p.unicode_len();
    if m > n {
        assert forall|i: int| !occurs_at_ignore_case(s@, p@, i) by {}
        return false;
    }
    let mut at: usize = 0;
    while at <= n - m
        invariant
            n == s@.len(),
            m == p@.len(),
            m <= n,
            at <= n - m + 1,
            forall|i: int| 0 <= i < at ==> !occurs_at_ignore_case(s@, p@, i),
        decreases n - at,
    {
        if matches_at_ignore_case(s, p, at) {
            return true;
        }
        at = at + 1;
    }
    assert forall|i: int| !occurs_at_ignore_case(s@, p@, i) by {}
    false
}

/// Exact equality of two strings.
pub fn str_eq(a: &str, b: &str) -> (r: bool)
    ensures
        r == (a@ == b@),
{
    let n = a.unicode_len();
    if n != b.unicode_len() {
        return false;
    }
    let mut i: usize = 0;
    while i < n
        invariant
            n == a@.len(),
            n == b@.len(),
            i <= n,
            forall|j: int| 0 <= j < i ==> a@[j] == b@[j],
        decreases n - i,
    {
        if a.get_char(i) != b.get_char(i) {
            return false;
        }
        i = i + 1;
    }
    assert(a@ =~= b@);
    true
}


/// `p` occurs in `s` at position `i`.
pub open spec fn occurs_at(s: Seq<char>, p: Seq<char>, i: int) -> bool {
    0 <= i && i + p.len() <= s.len() && s.subrange(i, i + p.len()) == p
}

/// `p` occurs somewhere in `s`.
pub open spec fn contains_seq(s: Seq<char>, p: Seq<char>) -> bool {
    exists|i: int| #[trigger] occurs_at(s, p, i)
}

/// Whether `p` occurs at character position `at` of `s`.
fn matches_at(s: &str, p: &str, at: usize) -> (r: bool)
    requires
        at + p@.len() <= s@.len(),
    ensures
        r == occurs_at(s@, p@, at as int),
{
    let n = p.unicode_len();
    let total = s.unicode_len();
    let mut i: usize = 0;
    while i < n
        invariant
            n == p@.len(),
            total == s@.len(),
            at + n <= s@.len(),
            i <= n,
            forall|j: int| 0 <= j < i ==> s@[at + j] == p@[j],
        decreases n - i,
    {
        if s.get_char(at + i) != p.get_char(i) {
            assert(s@.subrange(at as int, at + n)[i as int] == s@[at + i]);
            return false;
        }
        i = i + 1;
    }
    assert(s@.subrange(at as int, at + n) =~= p@);
    true
}

/// Whether `p` occurs in `s`, as `str::contains` with a string pattern.
pub fn contains_str(s: &str, p: &str) -> (r: bool)
    ensures
        r == contains_seq(s@, p@),
{
    let n = s.unicode_len();
    let m = p.unicode_len();
    if m > n {
        assert forall|i: int| !occurs_at(s@, p@, i) by {}
        return false;
    }
    if m == 0 {
        assert(s@.subrange(0, 0) =~= p@);
        assert(occurs_at(s@, p@, 0));
        return true;
    }
    let mut at: usize = 0;
    while at <= n - m
        invariant
            n == s@.len(),
            m == p@.len(),
            m <= n,
            at <= n - m + 1,
            forall|i: int| 0 <= i < at ==> !occurs_at(s@, p@, i),
            m > 0,
        decreases n - at,
    {
        if matches_at(s, p, at) {
            return true;
        }
        at = at + 1;
    }
    assert forall|i: int| !occurs_at(s@, p@, i) by {}
    false
}

/// Whether `s` begins with `p` up to ASCII case.
pub fn starts_with_ignore_ascii_case(s: &str, p: &str) -> (r: bool)
    ensures
        r == occurs_at_ignore_case(s@, p@, 0),
{
    if p.unicode_len() > s.unicode_len() {
        return false;
    }
    matches_at_ignore_case(s, p, 0)
}

/// Decimal digits of `n`, most significant first, without leading zeros.
pub open spec fn decimal(n: nat) -> Seq<char>
    decreases n,
{
    if n < 10 {
        seq![(('0' as u32) + n) as char]
    } else {
        decimal(n / 10) + seq![(('0' as u32) + n % 10) as char]
    }
}

/// `prefix`, `c` and `suffix` joined, through `format!`.
#[verifier::external_body]
pub(crate) fn char_message(prefix: &str, c: char, suffix: &str) -> (s: String)
    ensures
        s@ == prefix@ + seq![c] + suffix@,
{
    format!("{prefix}{c}{suffix}")
}

/// `prefix`, the decimal digits of `n` and `suffix` joined, through `format!` (which writes an
/// integer in decimal, without leading zeros).
#[verifier::external_body]
pub(crate) fn decimal_message(prefix: &str, n: u8, suffix: &str) -> (s: String)
    ensures
        s@ == prefix@ + decimal(n as nat) + suffix@,
{
    format!("{prefix}{n}{suffix}")
}

/// `a`, `b` and `c` joined, through `format!`.
#[verifier::external_body]
pub(crate) fn concat3(a: &str, b: &str, c: &str) -> (s: String)
    ensures
        s@ == a@ + b@ + c@,
{
    format!("{a}{b}{c}")
}

/// White space, as `char::is_whitespace` defines it (the Unicode White_Space property).
pub open spec fn is_white(c: char) -> bool {
    ('\u{9}' <= c && c <= '\u{D}') || c == ' ' || c == '\u{85}' || c == '\u{A0}' || c == '\u{1680}' || (
    '\u{2000}' <= c && c <= '\u{200A}') || c == '\u{2028}' || c == '\u{2029}' || c == '\u{202F}' || c
        == '\u{205F}' || c == '\u{3000}'
}

/// Whether `c` is white space (`char::is_whitespace`).
pub fn white(c: char) -> (r: bool)
    ensures
        r == is_white(c),
{
    ('\u{9}' <= c && c <= '\u{D}') || c == ' ' || c == '\u{85}' || c == '\u{A0}' || c == '\u{1680}' || (
    '\u{2000}' <= c && c <= '\u{200A}') || c == '\u{2028}' || c == '\u{2029}' || c == '\u{202F}' || c
        == '\u{205F}' || c == '\u{3000}'
}

/// Position of the first character of `s` at or after `i` that is not white space (or the
/// length).
pub open spec fn lead_end(s: Seq<char>, i: int) -> int
    decreases s.len() - i,
{
    if i < 0 || i >= s.len() {
        s.len() as int
    } else if is_white(s[i]) {
        lead_end(s, i + 1)
    } else {
        i
    }
}

/// One past the last character of `s` before `j` that is not white space (or 0).
pub open spec fn trail_start(s: Seq<char>, j: int) -> int
    decreases j,
{
    if j <= 0 || j > s.len() {
        0
    } else if is_white(s[j - 1]) {
        trail_start(s, j - 1)
    } else {
        j
    }
}

/// `s` without leading and trailing white space, as `str::trim`.
pub open spec fn trim(s: Seq<char>) -> Seq<char> {
    let a = lead_end(s, 0);
    if a >= s.len() {
        Seq::empty()
    } else {
        s.subrange(a, trail_start(s, s.len() as int))
    }
}

/// The bounds of `x[a..b]` without its leading and trailing white space.
pub fn trim_range(x: &[char], a: usize, b: usize) -> (r: (usize, usize))
    requires
        a <= b <= x@.len(),
    ensures
        a <= r.0 <= r.1 <= b,
        x@.subrange(r.0 as int, r.1 as int) == trim(x@.subrange(a as int, b as int)),
{
    let ghost s = x@.subrange(a as int, b as int);
    let mut i: usize = a;
    while i < b && white(x[i])
        invariant
            a <= i <= b,
            b <= x@.len(),
            s == x@.subrange(a as int, b as int),
            lead_end(s, 0) == lead_end(s, i - a),
        decreases b - i,
    {
        assert(s[i - a] == x@[i as int]);
        i = i + 1;
    }
    if i == b {
        assert(lead_end(s, i - a) == s.len());
        assert(x@.subrange(i as int, i as int) =~= Seq::<char>::empty());
        return (i, i);
    }
    assert(s[i - a] == x@[i as int]);
    assert(lead_end(s, 0) == i - a);
    let mut j: usize = b;
    while j > i && white(x[j - 1])
        invariant
            a <= i < j <= b,
            b <= x@.len(),
            s == x@.subrange(a as int, b as int),
            !is_white(s[i - a]),
            trail_start(s, s.len() as int) == trail_start(s, j - a),
        decreases j,
    {
        assert(s[j - 1 - a] == x@[j - 1]);
        j = j - 1;
    }
    assert(j > i) by {
        if j == i {
            assert(false);
        }
    }
    assert(s[j - 1 - a] == x@[j - 1]);
    assert(trail_start(s, j - a) == j - a);
    assert(x@.subrange(i as int, j as int) =~= s.subrange(i - a, j - a));
    (i, j)
}

/// The characters of `s`.
pub fn chars_of(s: &str) -> (r: Vec<char>)
    ensures
        r@ == s@,
{
    let mut it = s.chars();
    let mut v: Vec<char> = Vec::new();
    proof {
        vstd::string::axiom_spec_iter(s);
    }
    loop
        invariant
            v@ + it.remaining() == s@,
            it.obeys_prophetic_iter_laws(),
            it.decrease() is Some,
        decreases it.decrease()->0,
    {
        let ghost before = it.remaining();
        let ghost it0 = it;
        let next = it.next();
        proof {
            vstd::string::next_postcondition(&it0, &it, next);
        }
        match next {
            Some(c) => {
                assert(before.len() > 0);
                v.push(c);
                assert(v@ + it.remaining() =~= s@) by {
                    assert(before =~= seq![c] + before.drop_first());
                }
            },
            None => {
                assert(v@ =~= s@);
                return v;
            },
        }
    }
}

/// The string of the characters `cs`, through `String`'s `FromIterator<char>` (which appends
/// each character in turn).
#[verifier::external_body]
pub(crate) fn string_of(cs: &[char]) -> (r: String)
    ensures
        r@ == cs@,
{
    cs.iter().collect::<String>()
}

/// `s` with every ASCII lower-case letter in upper case, through `str::to_ascii_uppercase`
/// (which maps 'a'..='z' to 'A'..='Z' and leaves every other character unchanged).
#[verifier::external_body]
pub(crate) fn to_upper(s: &str) -> (r: String)
    ensures
        r@ == s@.map_values(|c: char| ascii_upper(c)),
{
    s.to_ascii_uppercase()
}

/// `prefix`, the decimal digits of `n` and `suffix` joined, through `format!`.
#[verifier::external_body]
pub(crate) fn decimal64_message(prefix: &str, n: u64, suffix: &str) -> (s: String)
    ensures
        s@ == prefix@ + decimal(n as nat) + suffix@,
{
    format!("{prefix}{n}{suffix}")
}

} // verus!
