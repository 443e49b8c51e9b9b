//! Character-level text helpers shared by the parsers: conversion between `str` and
//! character vectors, Unicode whitespace, ASCII case, trimming and decimal digits.

use vstd::prelude::*;

verus! {

/// The characters of `s`, in order.
pub fn chars_of(s: &str) -> (v: Vec<char>)
    ensures
        v@ == s@,
{
    let mut v: Vec<char> = Vec::new();
    for c in it: s.chars()
        invariant
            v@ == it.seq().take(it.index() as int),
            it.seq() == s@,
    {
        v.push(c);
    }
    v
}


/// Appends one character: `String::push`.
#[verifier::external_body]
pub(crate) fn push_char(s: &mut String, c: char)
    ensures
        final(s)@ == old(s)@.push(c),
{
    s.push(c);
}

/// Appends a string slice.
pub fn push_str(s: &mut String, t: &str)
    ensures
        final(s)@ == old(s)@ + t@,
{
    s.append(t);
}

/// A `String` holding exactly the characters of `v`.
pub fn string_of(v: &[char]) -> (s: String)
    ensures
        s@ == v@,
{
    let mut s = String::new();
    let mut i: usize = 0;
    while i < v.len()
        invariant
            i <= v.len(),
            s@ == v@.take(i as int),
        decreases v.len() - i,
    {
        push_char(&mut s, v[i]);
        assert(v@.take(i as int).push(v@[i as int]) =~= v@.take(i + 1));
        i += 1;
    }
    assert(v@.take(v.len() as int) =~= v@);
    s
}

/// The Unicode `White_Space` property, the set that `char::is_whitespace` and
/// `str::trim` use.
pub open spec fn is_white_space(c: char) -> bool {
    let v = c as u32;
    (0x9 <= v <= 0xD) || v == 0x20 || v == 0x85 || v == 0xA0 || v == 0x1680
        || (0x2000 <= v <= 0x200A) || v == 0x2028 || v == 0x2029 || v == 0x202F
        || v == 0x205F || v == 0x3000
}

/// `char::is_whitespace`.
pub fn is_whitespace(c: char) -> (b: bool)
    ensures
        b == is_white_space(c),
{
    let v = c as u32;
    (0x9 <= v && v <= 0xD) || v == 0x20 || v == 0x85 || v == 0xA0 || v == 0x1680
        || (0x2000 <= v && v <= 0x200A) || v == 0x2028 || v == 0x2029 || v == 0x202F
        || v == 0x205F || v == 0x3000
}

/// Number of leading white-space characters of `s`.
pub open spec fn leading_ws(s: Seq<char>) -> nat
    decreases s.len(),
{
    if s.len() > 0 && is_white_space(s[0]) { 1 + leading_ws(s.drop_first()) } else { 0 }
}

/// Number of trailing white-space characters of `s`.
pub open spec fn trailing_ws(s: Seq<char>) -> nat
    decreases s.len(),
{
    if s.len() > 0 && is_white_space(s.last()) { 1 + trailing_ws(s.drop_last()) } else { 0 }
}

/// `str::trim`: `s` without leading and trailing white space.
pub open spec fn trim_spec(s: Seq<char>) -> Seq<char> {
    let start = leading_ws(s) as int;
    let rest = s.subrange(start, s.len() as int);
    rest.subrange(0, rest.len() - trailing_ws(rest) as int)
}



/// The leading-white-space count is the first index that is not white space.
proof fn lemma_leading_ws_is(s: Seq<char>, n: int)
    requires
        0 <= n <= s.len(),
        forall|k: int| 0 <= k < n ==> is_white_space(#[trigger] s[k]),
        n < s.len() ==> !is_white_space(s[n]),
    ensures
        leading_ws(s) == n,
    decreases n,
{
    if n > 0 {
        assert forall|k: int| 0 <= k < n - 1 implies is_white_space(#[trigger] s.drop_first()[k]) by {
            assert(s.drop_first()[k] == s[k + 1]);
        }
        if n - 1 < s.drop_first().len() {
            assert(s.drop_first()[n - 1] == s[n]);
        }
        lemma_leading_ws_is(s.drop_first(), n - 1);
    }
}

/// The trailing-white-space count is the length of the white-space suffix.
proof fn lemma_trailing_ws_is(s: Seq<char>, n: int)
    requires
        0 <= n <= s.len(),
        forall|k: int| s.len() - n <= k < s.len() ==> is_white_space(#[trigger] s[k]),
        n < s.len() ==> !is_white_space(s[s.len() - 1 - n]),
    ensures
        trailing_ws(s) == n,
    decreases n,
{
    if n > 0 {
        let t = s.drop_last();
        assert forall|k: int| t.len() - (n - 1) <= k < t.len() implies is_white_space(#[trigger] t[k]) by {
            assert(t[k] == s[k]);
        }
        if n - 1 < t.len() {
            assert(t[t.len() - 1 - (n - 1)] == s[s.len() - 1 - n]);
        }
        lemma_trailing_ws_is(t, n - 1);
    }
}

/// `str::trim` on a character vector.
pub fn trim_chars(s: &[char]) -> (t: Vec<char>)
    ensures
        t@ == trim_spec(s@),
{
    let mut start: usize = 0;
    while start < s.len() && is_whitespace(s[start])
        invariant
            start <= s.len(),
            forall|k: int| 0 <= k < start ==> is_white_space(#[trigger] s@[k]),
        decreases s.len() - start,
    {
        start += 1;
    }
    proof { lemma_leading_ws_is(s@, start as int); }
    let mut end: usize = s.len();
    while end > start && is_whitespace(s[end - 1])
        invariant
            start <= end <= s.len(),
            forall|k: int| end <= k < s.len() ==> is_white_space(#[trigger] s@[k]),
        decreases end,
    {
        end -= 1;
    }
    let ghost rest = s@.subrange(start as int, s.len() as int);
    proof {
        let n = (s.len() - end) as int;
        assert forall|k: int| rest.len() - n <= k < rest.len() implies is_white_space(#[trigger] rest[k]) by {
            assert(rest[k] == s@[start + k]);
        }
        if n < rest.len() {
            assert(rest[rest.len() - 1 - n] == s@[end - 1]);
        }
        lemma_trailing_ws_is(rest, n);
    }
    let mut t: Vec<char> = Vec::new();
    let mut i = start;
    while i < end
        invariant
            start <= i <= end <= s.len(),
            t@ == s@.subrange(start as int, i as int),
        decreases end - i,
    {
        t.push(s[i]);
        assert(s@.subrange(start as int, i as int).push(s@[i as int]) =~= s@.subrange(start as int, i + 1));
        i += 1;
    }
    assert(t@ =~= trim_spec(s@));
    t
}

/// ASCII lower-case mapping of one character (`char::to_ascii_lowercase`).
pub open spec fn ascii_lower(c: char) -> char {
    if 'A' <= c <= 'Z' { ((c as u32) + 32) as char } else { c }
}

/// ASCII upper-case mapping of one character (`char::to_ascii_uppercase`).
pub open spec fn ascii_upper(c: char) -> char {
    if 'a' <= c <= 'z' { ((c as u32) - 32) as char } else { c }
}

pub fn to_ascii_lower(c: char) -> (r: char)
    ensures
        r == ascii_lower(c),
{
    if 'A' <= c && c <= 'Z' {
        let v = (c as u32) + 32;
        char_of_ascii(v as u8)
    } else {
        c
    }
}

/// The character of an ASCII code.
pub fn char_of_ascii(b: u8) -> (c: char)
    requires
        b < 128,
    ensures
        c as u32 == b as u32,
{
    b as char
}

/// `str::eq_ignore_ascii_case` on character sequences.
pub open spec fn eq_ignore_ascii_case(a: Seq<char>, b: Seq<char>) -> bool {
    a.len() == b.len() && forall|i: int| 0 <= i < a.len() ==> ascii_lower(#[trigger] a[i]) == ascii_lower(b[i])
}

pub fn chars_eq_ignore_ascii_case(a: &[char], b: &[char]) -> (r: bool)
    ensures
        r == eq_ignore_ascii_case(a@, b@),
{
    if a.len() != b.len() {
        return false;
    }
    let mut i: usize = 0;
    while i < a.len()
        invariant
            a.len() == b.len(),
            i <= a.len(),
            forall|k: int| 0 <= k < i ==> ascii_lower(#[trigger] a@[k]) == ascii_lower(b@[k]),
        decreases a.len() - i,
    {
        if to_ascii_lower(a[i]) != to_ascii_lower(b[i]) {
            return false;
        }
        i += 1;
    }
    true
}


/// The value of an ASCII digit character in `radix` (`char::to_digit`), for radix ≤ 36.
pub open spec fn digit_value(c: char, radix: u32) -> Option<u32> {
    let v = c as u32;
    let d: u32 = if '0' <= c <= '9' {
        (v - 0x30) as u32
    } else if 'a' <= c <= 'z' {
        (v - 0x61 + 10) as u32
    } else if 'A' <= c <= 'Z' {
        (v - 0x41 + 10) as u32
    } else {
        99
    };
    if d < radix { Some(d) } else { None }
}

pub fn to_digit(c: char, radix: u32) -> (d: Option<u32>)
    requires
        2 <= radix <= 36,
    ensures
        d == digit_value(c, radix),
{
    let v = c as u32;
    let d: u32 = if '0' <= c && c <= '9' {
        v - 0x30
    } else if 'a' <= c && c <= 'z' {
        v - 0x61 + 10
    } else if 'A' <= c && c <= 'Z' {
        v - 0x41 + 10
    } else {
        99
    };
    if d < radix { Some(d) } else { None }
}

/// The number that a non-empty run of digits denotes, or `None` if a character is not a
/// digit of `radix`. Most significant digit first.
pub open spec fn digits_value(s: Seq<char>, radix: u32) -> Option<nat>
    decreases s.len(),
{
    if s.len() == 0 {
        Some(0)
    } else {
        match (digits_value(s.drop_last(), radix), digit_value(s.last(), radix)) {
            (Some(hi), Some(d)) => Some((hi * radix + d) as nat),
            _ => None,
        }
    }
}

/// `u32::from_str_radix` / `str::parse::<u32>` (radix 10): an optional leading `+`, then at
/// least one digit, and a value that fits.
pub open spec fn parse_u32_spec(s: Seq<char>, radix: u32) -> Option<u32> {
    let digits = if s.len() > 0 && s[0] == '+' { s.drop_first() } else { s };
    if digits.len() == 0 {
        None
    } else {
        match digits_value(digits, radix) {
            Some(v) => if v <= u32::MAX { Some(v as u32) } else { None },
            None => None,
        }
    }
}

/// `str::parse::<u64>`.
pub open spec fn parse_u64_spec(s: Seq<char>) -> Option<u64> {
    let digits = if s.len() > 0 && s[0] == '+' { s.drop_first() } else { s };
    if digits.len() == 0 {
        None
    } else {
        match digits_value(digits, 10) {
            Some(v) => if v <= u64::MAX { Some(v as u64) } else { None },
            None => None,
        }
    }
}

/// `str::parse::<i64>`: an optional `+` or `-`, then at least one decimal digit.
pub open spec fn parse_i64_spec(s: Seq<char>) -> Option<i64> {
    let negative = s.len() > 0 && s[0] == '-';
    let digits = if s.len() > 0 && (s[0] == '+' || s[0] == '-') { s.drop_first() } else { s };
    if digits.len() == 0 {
        None
    } else {
        match digits_value(digits, 10) {
            Some(v) => if negative {
                if v <= 0x8000_0000_0000_0000 { Some((0 - v) as i64) } else { None }
            } else {
                if v <= i64::MAX { Some(v as i64) } else { None }
            },
            None => None,
        }
    }
}

proof fn lemma_digits_value_push(s: Seq<char>, c: char, radix: u32)
    ensures
        digits_value(s.push(c), radix) == (match (digits_value(s, radix), digit_value(c, radix)) {
            (Some(hi), Some(d)) => Some((hi * radix + d) as nat),
            _ => None::<nat>,
        }),
{
    assert(s.push(c).drop_last() =~= s);
}


/// The value of the digits `s[start..]`: `None` on a non-digit, otherwise the value and
/// whether it exceeded `limit` (the value is only meaningful when it did not).
fn digits_value_bounded(s: &[char], start: usize, radix: u32, limit: u64) -> (r: Option<(u64, bool)>)
    requires
        start <= s.len(),
        2 <= radix <= 36,
    ensures
        match digits_value(s@.subrange(start as int, s.len() as int), radix) {
            Some(v) => r is Some && (r.unwrap().1 <==> v > limit) && (v <= limit ==> r.unwrap().0 == v),
            None => r is None,
        },
{
    let ghost full = s@.subrange(start as int, s.len() as int);
    let mut acc: u64 = 0;
    let mut overflow = false;
    let mut i = start;
    while i < s.len()
        invariant
            start <= i <= s.len(),
            2 <= radix <= 36,
            full == s@.subrange(start as int, s.len() as int),
            digits_value(s@.subrange(start as int, i as int), radix) is Some,
            !overflow ==> acc as nat == digits_value(s@.subrange(start as int, i as int), radix).unwrap() && acc <= limit,
            overflow ==> digits_value(s@.subrange(start as int, i as int), radix).unwrap() > limit,
        decreases s.len() - i,
    {
        let d = to_digit(s[i], radix);
        proof {
            assert(s@.subrange(start as int, i + 1) =~= s@.subrange(start as int, i as int).push(s@[i as int]));
            lemma_digits_value_push(s@.subrange(start as int, i as int), s@[i as int], radix);
        }
        match d {
            None => {
                proof {
                    // a later non-digit makes the whole run invalid
                    lemma_none_propagates(full, (i - start) as int, radix);
                }
                return None;
            },
            Some(d) => {
                if !overflow {
                    if d as u64 > limit {
                        overflow = true;
                        proof {
                            let hi = acc as nat;
                            assert(hi * radix + d > limit) by (nonlinear_arith)
                                requires d > limit, radix >= 2;
                        }
                    } else if acc > (limit - d as u64) / radix as u64 {
                        overflow = true;
                        proof {
                            let hi = acc as nat;
                            assert(hi * radix + d > limit) by (nonlinear_arith)
                                requires hi > (limit - d) / (radix as int), radix >= 2, d <= limit;
                        }
                    } else {
                        proof {
                            let hi = acc as nat;
                            assert(hi * radix + d <= limit) by (nonlinear_arith)
                                requires hi <= (limit - d) / (radix as int), radix >= 2, d <= limit;
                        }
                        acc = acc * radix as u64 + d as u64;
                    }
                } else {
                    proof {
                        let hi = digits_value(s@.subrange(start as int, i as int), radix).unwrap();
                        assert(hi * radix + d > limit) by (nonlinear_arith)
                            requires hi > limit, radix >= 2;
                    }
                }
            },
        }
        i += 1;
    }
    assert(s@.subrange(start as int, i as int) =~= full);
    Some((acc, overflow))
}

/// `u32::from_str_radix` (and `str::parse::<u32>` for radix 10) on a character vector.
pub fn parse_u32_radix(s: &[char], radix: u32) -> (r: Option<u32>)
    requires
        2 <= radix <= 36,
    ensures
        r == parse_u32_spec(s@, radix),
{
    let start: usize = if s.len() > 0 && s[0] == '+' { 1 } else { 0 };
    proof {
        if start == 1 {
            assert(s@.subrange(1, s.len() as int) =~= s@.drop_first());
        } else {
            assert(s@.subrange(0, s.len() as int) =~= s@);
        }
    }
    if start == s.len() {
        return None;
    }
    match digits_value_bounded(s, start, radix, 0xFFFF_FFFF) {
        None => None,
        Some((v, overflow)) => if overflow { None } else { Some(v as u32) },
    }
}

/// `str::parse::<u64>` on a character vector.
pub fn parse_u64(s: &[char]) -> (r: Option<u64>)
    ensures
        r == parse_u64_spec(s@),
{
    let start: usize = if s.len() > 0 && s[0] == '+' { 1 } else { 0 };
    proof {
        if start == 1 {
            assert(s@.subrange(1, s.len() as int) =~= s@.drop_first());
        } else {
            assert(s@.subrange(0, s.len() as int) =~= s@);
        }
    }
    if start == s.len() {
        return None;
    }
    match digits_value_bounded(s, start, 10, 0xFFFF_FFFF_FFFF_FFFF) {
        None => None,
        Some((v, overflow)) => if overflow { None } else { Some(v) },
    }
}

/// `str::parse::<i64>` on a character vector.
pub fn parse_i64(s: &[char]) -> (r: Option<i64>)
    ensures
        r == parse_i64_spec(s@),
{
    let negative = s.len() > 0 && s[0] == '-';
    let start: usize = if s.len() > 0 && (s[0] == '+' || s[0] == '-') { 1 } else { 0 };
    proof {
        if start == 1 {
            assert(s@.subrange(1, s.len() as int) =~= s@.drop_first());
        } else {
            assert(s@.subrange(0, s.len() as int) =~= s@);
        }
    }
    if start == s.len() {
        return None;
    }
    let limit: u64 = if negative { 0x8000_0000_0000_0000 } else { 0x7FFF_FFFF_FFFF_FFFF };
    match digits_value_bounded(s, start, 10, limit) {
        None => None,
        Some((v, overflow)) => if overflow {
            None
        } else if negative {
            if v == 0x8000_0000_0000_0000 { Some(i64::MIN) } else { Some(-(v as i64)) }
        } else {
            Some(v as i64)
        },
    }
}

/// The decimal digit character for `d < 10`.
pub open spec fn digit_char(d: nat) -> char {
    (0x30 + d) as char
}

/// The decimal representation of `n`, without sign or leading zeros (`"0"` for zero).
pub open spec fn decimal_digits(n: nat) -> Seq<char>
    decreases n,
{
    if n < 10 { seq![digit_char(n)] } else { decimal_digits(n / 10).push(digit_char(n % 10)) }
}

/// `i64::to_string`: a `-` for negative values, then the decimal digits.
pub open spec fn i64_decimal(n: i64) -> Seq<char> {
    if n < 0 { seq!['-'] + decimal_digits((0 - n) as nat) } else { decimal_digits(n as nat) }
}

/// Appends the decimal digits of `n`.
pub fn push_decimal(out: &mut Vec<char>, n: u64)
    ensures
        final(out)@ == old(out)@ + decimal_digits(n as nat),
    decreases n,
{
    if n >= 10 {
        push_decimal(out, n / 10);
    }
    let d = (n % 10) as u8;
    out.push(char_of_ascii(0x30 + d));
    proof {
        if n >= 10 {
            assert(decimal_digits(n as nat) == decimal_digits((n / 10) as nat).push(digit_char((n % 10) as nat)));
        }
    }
    assert(final(out)@ =~= old(out)@ + decimal_digits(n as nat)) by {
        if n >= 10 {
            assert(decimal_digits(n as nat) == decimal_digits((n / 10) as nat).push(digit_char((n % 10) as nat)));
        }
    }
}

/// Appends `i64::to_string(n)`.
pub fn push_i64(out: &mut Vec<char>, n: i64)
    ensures
        final(out)@ == old(out)@ + i64_decimal(n),
{
    if n < 0 {
        out.push('-');
        let m: u64 = if n == i64::MIN { 0x8000_0000_0000_0000 } else { (-n) as u64 };
        push_decimal(out, m);
        assert(final(out)@ =~= old(out)@ + i64_decimal(n));
    } else {
        push_decimal(out, n as u64);
    }
}

/// Byte length of a character in UTF-8 (`char::len_utf8`).
pub open spec fn utf8_width(c: char) -> nat {
    let v = c as u32;
    if v < 0x80 { 1 } else if v < 0x800 { 2 } else if v < 0x10000 { 3 } else { 4 }
}

/// Byte length of a character sequence in UTF-8 — the unit of `str` indices.
pub open spec fn utf8_len(s: Seq<char>) -> nat
    decreases s.len(),
{
    if s.len() == 0 { 0 } else { utf8_len(s.drop_last()) + utf8_width(s.last()) }
}

pub fn char_utf8_width(c: char) -> (w: usize)
    ensures
        w == utf8_width(c),
{
    let v = c as u32;
    if v < 0x80 { 1 } else if v < 0x800 { 2 } else if v < 0x10000 { 3 } else { 4 }
}

/// Whether `v` is a Unicode scalar value, the values `char` can hold.
pub open spec fn is_scalar_value(v: u32) -> bool {
    v < 0xD800 || (0xE000 <= v && v < 0x110000)
}

/// `char::from_u32`: the character with scalar value `v`, if there is one.
#[verifier::external_body]
pub(crate) fn char_from_u32(v: u32) -> (c: Option<char>)
    ensures
        c is Some <==> is_scalar_value(v),
        c is Some ==> c.unwrap() as u32 == v,
        is_scalar_value(v) ==> c == Some(v as char),
{
    char::from_u32(v)
}

/// What `char::is_alphanumeric` answers (Unicode `Alphabetic` or `Numeric`).
pub uninterp spec fn unicode_alphanumeric(c: char) -> bool;

/// Whether `c` is an ASCII letter or digit.
pub open spec fn is_ascii_alnum(c: char) -> bool {
    ('0' <= c <= '9') || ('a' <= c <= 'z') || ('A' <= c <= 'Z')
}

/// `char::is_alphanumeric`. Within ASCII it holds exactly of letters and digits; beyond
/// ASCII its answer comes from the Unicode tables of the standard library, which are
/// not restated here.
#[verifier::external_body]
pub(crate) fn is_alphanumeric(c: char) -> (b: bool)
    ensures
        b == unicode_alphanumeric(c),
        (c as u32) < 0x80 ==> (b <==> is_ascii_alnum(c)),
{
    c.is_alphanumeric()
}

/// Whether two character slices hold the same characters.
pub fn chars_eq(a: &[char], b: &[char]) -> (r: bool)
    ensures
        r == (a@ == b@),
{
    if a.len() != b.len() {
        return false;
    }
    let mut i: usize = 0;
    while i < a.len()
        invariant
            a.len() == b.len(),
            i <= a.len(),
            forall|k: int| 0 <= k < i ==> #[trigger] a@[k] == b@[k],
        decreases a.len() - i,
    {
        if a[i] != b[i] {
            return false;
        }
        i += 1;
    }
    assert(a@ =~= b@);
    true
}

/// Whether two string slices hold the same characters.
pub fn str_eq(a: &str, b: &str) -> (r: bool)
    ensures
        r == (a@ == b@),
{
    let x = chars_of(a);
    let y = chars_of(b);
    chars_eq(&x, &y)
}

/// Whether `needle` occurs in `hay` as a contiguous run.
pub open spec fn seq_contains(hay: Seq<char>, needle: Seq<char>) -> bool {
    exists|i: int| 0 <= i && i + needle.len() <= hay.len() && #[trigger] hay.subrange(i, i + needle.len()) == needle
}

/// Whether `needle` occurs at position `i` of `hay`.
fn occurs_at(hay: &[char], needle: &[char], i: usize) -> (r: bool)
    requires
        i + needle.len() <= hay.len(),
    ensures
        r == (hay@.subrange(i as int, i + needle.len()) == needle@),
{
    let mut k: usize = 0;
    while k < needle.len()
        invariant
            i + needle.len() <= hay.len(),
            k <= needle.len(),
            forall|j: int| 0 <= j < k ==> #[trigger] needle@[j] == hay@[i + j],
        decreases needle.len() - k,
    {
        if hay[i + k] != needle[k] {
            assert(hay@.subrange(i as int, i + needle.len())[k as int] != needle@[k as int]);
            return false;
        }
        k += 1;
    }
    assert(hay@.subrange(i as int, i + needle.len()) =~= needle@);
    true
}

/// Substring search (`str::contains`) on character slices.
pub fn contains_chars(hay: &[char], needle: &[char]) -> (r: bool)
    ensures
        r == seq_contains(hay@, needle@),
{
    if needle.len() > hay.len() {
        return false;
    }
    let last = hay.len() - needle.len();
    let mut i: usize = 0;
    loop
        invariant
            last + needle.len() == hay.len(),
            i <= last,
            forall|j: int| 0 <= j < i ==> #[trigger] hay@.subrange(j, j + needle.len()) != needle@,
        decreases last - i,
    {
        if occurs_at(hay, needle, i) {
            return true;
        }
        if i == last {
            return false;
        }
        i += 1;
    }
}

/// Whether every character is ASCII.
pub open spec fn all_ascii(s: Seq<char>) -> bool {
    forall|i: int| 0 <= i < s.len() ==> (#[trigger] s[i] as u32) < 0x80
}

/// What `str::to_lowercase` returns.
pub uninterp spec fn lowercase_of(s: Seq<char>) -> Seq<char>;

/// What `str::to_uppercase` returns.
pub uninterp spec fn uppercase_of(s: Seq<char>) -> Seq<char>;

/// `str::to_lowercase`. On ASCII text it maps `A`–`Z` to `a`–`z` and keeps the rest; on
/// other text the Unicode case tables of the standard library decide, and those are
/// not restated here.
#[verifier::external_body]
pub(crate) fn to_lowercase(s: &str) -> (r: String)
    ensures
        r@ == lowercase_of(s@),
        all_ascii(s@) ==> r@ == s@.map_values(|c: char| ascii_lower(c)),
{
    s.to_lowercase()
}

/// `str::to_uppercase`. On ASCII text it maps `a`–`z` to `A`–`Z` and keeps the rest; on
/// other text the Unicode case tables of the standard library decide, and those are
/// not restated here.
#[verifier::external_body]
pub(crate) fn to_uppercase(s: &str) -> (r: String)
    ensures
        r@ == uppercase_of(s@),
        all_ascii(s@) ==> r@ == s@.map_values(|c: char| ascii_upper(c)),
{
    s.to_uppercase()
}

proof fn lemma_none_propagates(s: Seq<char>, k: int, radix: u32)
    requires
        0 <= k < s.len(),
        digit_value(s[k], radix) is None,
    ensures
        digits_value(s, radix) is None,
    decreases s.len(),
{
    if k < s.len() - 1 {
        assert(s.drop_last()[k] == s[k]);
        lemma_none_propagates(s.drop_last(), k, radix);
    }
}

} // verus!
