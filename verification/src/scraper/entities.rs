//! HTML character references in the free-text fields of the ScreenScraper API
//! (descriptions, genres, developer and publisher names), which arrive already escaped.
//! Named references `&amp;`, `&lt;`, `&gt;`, `&quot;`, `&apos;` and numeric ones
//! (`&#39;`, `&#x27;`) are decoded; anything else keeps its `&` as written.

use vstd::prelude::*;
use crate::pathname::{first_index_of, find_first, lemma_first_index_bound};
use crate::text::{
    char_from_u32, char_utf8_width, chars_of, is_scalar_value, parse_u32_radix, parse_u32_spec,
    push_char, utf8_len, utf8_width,
};

verus! {

/// The longest reference body, in bytes, that is looked at: a `;` further away than this
/// from the `&` does not close a reference.
pub const MAX_ENTITY_BYTES: usize = 10;

/// The character a numeric reference body (`#65`, `#x41`, `#X41`) stands for.
pub open spec fn numeric_entity(e: Seq<char>) -> Option<char> {
    let rest = e.drop_first();
    let value = if rest.len() > 0 && (rest[0] == 'x' || rest[0] == 'X') {
        parse_u32_spec(rest.drop_first(), 16)
    } else {
        parse_u32_spec(rest, 10)
    };
    match value {
        Some(v) => if is_scalar_value(v) { Some(v as char) } else { None },
        None => None,
    }
}

/// The character a reference body (what stands between `&` and `;`) stands for.
pub open spec fn decode_entity(e: Seq<char>) -> Option<char> {
    if e == seq!['a', 'm', 'p'] {
        Some('&')
    } else if e == seq!['l', 't'] {
        Some('<')
    } else if e == seq!['g', 't'] {
        Some('>')
    } else if e == seq!['q', 'u', 'o', 't'] {
        Some('"')
    } else if e == seq!['a', 'p', 'o', 's'] || e == seq!['#', '3', '9'] || e == seq!['#', 'x', '2', '7']
        || e == seq!['#', 'X', '2', '7'] {
        Some('\'')
    } else if e.len() > 0 && e[0] == '#' {
        numeric_entity(e)
    } else {
        None
    }
}

/// Where the body of a reference that starts just after an `&` ends: the first `;` of
/// `t`, if the body before it is at most [`MAX_ENTITY_BYTES`] bytes long in UTF-8.
pub open spec fn entity_end(t: Seq<char>) -> Option<int> {
    match first_index_of(t, ';') {
        Some(p) => if utf8_len(t.take(p)) <= MAX_ENTITY_BYTES { Some(p) } else { None },
        None => None,
    }
}

/// `s` with its character references decoded, left to right. After a decoded reference
/// the scan goes on behind its `;`; after an `&` that opens none, it goes on right behind
/// that `&`, so a reference that follows it is still found.
pub open spec fn unescape_spec(s: Seq<char>) -> Seq<char>
    decreases s.len(),
{
    proof {
        lemma_first_index_bound(s, '&');
    }
    match first_index_of(s, '&') {
        None => s,
        Some(a) => {
            let after = s.subrange(a + 1, s.len() as int);
            proof {
                lemma_first_index_bound(after, ';');
            }
            let tail = match entity_end(after) {
                Some(p) => match decode_entity(after.take(p)) {
                    Some(c) => seq![c] + unescape_spec(after.subrange(p + 1, after.len() as int)),
                    None => seq!['&'] + unescape_spec(after),
                },
                None => seq!['&'] + unescape_spec(after),
            };
            s.take(a) + tail
        },
    }
}

proof fn lemma_utf8_len_prefix(s: Seq<char>, k: int)
    requires
        0 <= k <= s.len(),
    ensures
        utf8_len(s.take(k)) <= utf8_len(s),
    decreases s.len() - k,
{
    if k < s.len() {
        lemma_utf8_len_prefix(s, k + 1);
        assert(s.take(k + 1).drop_last() =~= s.take(k));
    } else {
        assert(s.take(k) =~= s);
    }
}

/// Whether `s[a..b]` is at most [`MAX_ENTITY_BYTES`] bytes long in UTF-8.
fn short_enough(s: &[char], a: usize, b: usize) -> (r: bool)
    requires
        a <= b <= s.len(),
    ensures
        r == (utf8_len(s@.subrange(a as int, b as int)) <= MAX_ENTITY_BYTES),
{
    let ghost t = s@.subrange(a as int, b as int);
    let mut total: usize = 0;
    let mut j = a;
    while j < b
        invariant
            a <= j <= b <= s.len(),
            t == s@.subrange(a as int, b as int),
            total == utf8_len(t.take(j - a)),
            total <= MAX_ENTITY_BYTES,
        decreases b - j,
    {
        let w = char_utf8_width(s[j]);
        assert(t.take(j - a + 1).drop_last() =~= t.take(j - a));
        assert(t.take(j - a + 1).last() == s@[j as int]);
        if total + w > MAX_ENTITY_BYTES {
            proof {
                lemma_utf8_len_prefix(t, j - a + 1);
            }
            return false;
        }
        total = total + w;
        j += 1;
    }
    assert(t.take(b - a) =~= t);
    true
}

/// Decodes the reference body `s[a..b]`.
fn decode_entity_at(s: &[char], a: usize, b: usize) -> (r: Option<char>)
    requires
        a <= b <= s.len(),
    ensures
        r == decode_entity(s@.subrange(a as int, b as int)),
{
    let ghost e = s@.subrange(a as int, b as int);
    let n = b - a;
    let is = |k: usize, c: char| -> (t: bool)
        requires
            a <= b <= s.len(),
            k < b - a,
        ensures
            t == (s@[a + k] == c),
        { s[a + k] == c };
    let amp = n == 3 && is(0, 'a') && is(1, 'm') && is(2, 'p');
    let lt = n == 2 && is(0, 'l') && is(1, 't');
    let gt = n == 2 && is(0, 'g') && is(1, 't');
    let quot = n == 4 && is(0, 'q') && is(1, 'u') && is(2, 'o') && is(3, 't');
    let apos = n == 4 && is(0, 'a') && is(1, 'p') && is(2, 'o') && is(3, 's');
    let dec39 = n == 3 && is(0, '#') && is(1, '3') && is(2, '9');
    let hex27 = n == 4 && is(0, '#') && (is(1, 'x') || is(1, 'X')) && is(2, '2') && is(3, '7');
    proof {
        assert(amp <==> e == seq!['a', 'm', 'p']) by {
            if e == seq!['a', 'm', 'p'] { assert(e[0] == 'a' && e[1] == 'm' && e[2] == 'p'); }
            if amp { assert(e =~= seq!['a', 'm', 'p']); }
        }
        assert(lt <==> e == seq!['l', 't']) by {
            if e == seq!['l', 't'] { assert(e[0] == 'l' && e[1] == 't'); }
            if lt { assert(e =~= seq!['l', 't']); }
        }
        assert(gt <==> e == seq!['g', 't']) by {
            if e == seq!['g', 't'] { assert(e[0] == 'g' && e[1] == 't'); }
            if gt { assert(e =~= seq!['g', 't']); }
        }
        assert(quot <==> e == seq!['q', 'u', 'o', 't']) by {
            if e == seq!['q', 'u', 'o', 't'] { assert(e[0] == 'q' && e[1] == 'u' && e[2] == 'o' && e[3] == 't'); }
            if quot { assert(e =~= seq!['q', 'u', 'o', 't']); }
        }
        assert(apos <==> e == seq!['a', 'p', 'o', 's']) by {
            if e == seq!['a', 'p', 'o', 's'] { assert(e[0] == 'a' && e[1] == 'p' && e[2] == 'o' && e[3] == 's'); }
            if apos { assert(e =~= seq!['a', 'p', 'o', 's']); }
        }
        assert(dec39 <==> e == seq!['#', '3', '9']) by {
            if e == seq!['#', '3', '9'] { assert(e[0] == '#' && e[1] == '3' && e[2] == '9'); }
            if dec39 { assert(e =~= seq!['#', '3', '9']); }
        }
        assert(hex27 <==> (e == seq!['#', 'x', '2', '7'] || e == seq!['#', 'X', '2', '7'])) by {
            if e == seq!['#', 'x', '2', '7'] { assert(e[0] == '#' && e[1] == 'x' && e[2] == '2' && e[3] == '7'); }
            if e == seq!['#', 'X', '2', '7'] { assert(e[0] == '#' && e[1] == 'X' && e[2] == '2' && e[3] == '7'); }
            if hex27 {
                if s@[a + 1] == 'x' { assert(e =~= seq!['#', 'x', '2', '7']); }
                else { assert(e =~= seq!['#', 'X', '2', '7']); }
            }
        }
    }
    if amp {
        Some('&')
    } else if lt {
        Some('<')
    } else if gt {
        Some('>')
    } else if quot {
        Some('"')
    } else if apos || dec39 || hex27 {
        Some('\'')
    } else if n > 0 && s[a] == '#' {
        let ghost rest = e.drop_first();
        let hex = n > 1 && (s[a + 1] == 'x' || s[a + 1] == 'X');
        let value = if hex {
            let digits = slice_of(s, a + 2, b);
            assert(digits@ =~= rest.drop_first());
            parse_u32_radix(&digits, 16)
        } else {
            let digits = slice_of(s, a + 1, b);
            assert(digits@ =~= rest);
            parse_u32_radix(&digits, 10)
        };
        match value {
            Some(v) => char_from_u32(v),
            None => None,
        }
    } else {
        None
    }
}

/// A copy of `s[a..b]`.
fn slice_of(s: &[char], a: usize, b: usize) -> (v: Vec<char>)
    requires
        a <= b <= s.len(),
    ensures
        v@ == s@.subrange(a as int, b as int),
{
    crate::pathname::copy_range(s, a, b)
}

/// The body end of a reference whose `&` stands at `a`: exec form of [`entity_end`].
fn entity_end_at(s: &[char], a: usize) -> (r: Option<usize>)
    requires
        a < s.len(),
    ensures
        match entity_end(s@.subrange(a + 1, s.len() as int)) {
            Some(p) => r == Some((a + 1 + p) as usize),
            None => r is None,
        },
{
    let ghost after = s@.subrange(a + 1, s.len() as int);
    proof {
        lemma_first_index_bound(after, ';');
    }
    match find_first(s, a + 1, ';') {
        Some(q) => {
            assert(after.take(q - (a + 1)) =~= s@.subrange(a + 1, q as int));
            if short_enough(s, a + 1, q) { Some(q) } else { None }
        },
        None => None,
    }
}

/// Appends `s[a..b]` to `out`.
fn push_range(out: &mut String, s: &[char], a: usize, b: usize)
    requires
        a <= b <= s.len(),
    ensures
        final(out)@ == old(out)@ + s@.subrange(a as int, b as int),
{
    let mut i = a;
    while i < b
        invariant
            a <= i <= b <= s.len(),
            out@ == old(out)@ + s@.subrange(a as int, i as int),
        decreases b - i,
    {
        push_char(out, s[i]);
        assert(s@.subrange(a as int, i as int).push(s@[i as int]) =~= s@.subrange(a as int, i + 1));
        i += 1;
    }
}

/// Decodes the HTML character references in `text` (see [`unescape_spec`]).
#[verifier::rlimit(40)]
#[verifier::spinoff_prover]
pub fn unescape_html_entities(text: &str) -> (r: String)
    ensures
        r@ == unescape_spec(text@),
{
    let s = chars_of(text);
    let n = s.len();
    let mut out = String::new();
    let mut i: usize = 0;
    assert(s@.subrange(0, n as int) =~= s@);
    assert(out@ + s@ =~= s@);
    while i < n
        invariant
            n == s.len(),
            i <= n,
            out@ + unescape_spec(s@.subrange(i as int, n as int)) == unescape_spec(s@),
        decreases n - i,
    {
        let ghost rest = s@.subrange(i as int, n as int);
        let found = find_first(&s, i, '&');
        proof {
            lemma_first_index_bound(rest, '&');
        }
        match found {
            None => {
                let ghost before = out@;
                push_range(&mut out, &s, i, n);
                assert(unescape_spec(rest) == rest);
                assert(s@.subrange(n as int, n as int) =~= Seq::<char>::empty());
                assert(unescape_spec(Seq::<char>::empty()) =~= Seq::<char>::empty());
                assert(out@ + unescape_spec(s@.subrange(n as int, n as int)) =~= before + unescape_spec(rest));
                i = n;
            },
            Some(a) => {
                let ghost before = out@;
                push_range(&mut out, &s, i, a);
                let ghost after = s@.subrange(a + 1, n as int);
                assert(rest.subrange((a - i) + 1, rest.len() as int) =~= after);
                assert(rest.take(a - i) =~= s@.subrange(i as int, a as int));
                proof {
                    lemma_first_index_bound(after, ';');
                }
                let end = entity_end_at(&s, a);
                let mut next = a + 1;
                let ghost mut x: char = '&';
                match end {
                    Some(q) => {
                        let decoded = decode_entity_at(&s, a + 1, q);
                        assert(after.take(q - (a + 1)) =~= s@.subrange(a + 1, q as int));
                        match decoded {
                            Some(c) => {
                                push_char(&mut out, c);
                                next = q + 1;
                                proof { x = c; }
                                assert(after.subrange(q - (a + 1) + 1, after.len() as int) =~= s@.subrange(q + 1, n as int));
                                assert(unescape_spec(rest) == rest.take(a - i) + (seq![c] + unescape_spec(s@.subrange(q + 1, n as int))));
                            },
                            None => {
                                push_char(&mut out, '&');
                                assert(unescape_spec(rest) == rest.take(a - i) + (seq!['&'] + unescape_spec(after)));
                            },
                        }
                    },
                    None => {
                        push_char(&mut out, '&');
                        assert(unescape_spec(rest) == rest.take(a - i) + (seq!['&'] + unescape_spec(after)));
                    },
                }
                assert(unescape_spec(rest) == rest.take(a - i) + (seq![x] + unescape_spec(s@.subrange(next as int, n as int))));
                assert(out@ + unescape_spec(s@.subrange(next as int, n as int))
                    =~= before + (rest.take(a - i) + (seq![x] + unescape_spec(s@.subrange(next as int, n as int)))));
                i = next;
            },
        }
    }
    assert(s@.subrange(n as int, n as int) =~= Seq::<char>::empty());
    assert(unescape_spec(Seq::<char>::empty()) =~= Seq::<char>::empty());
    assert(out@ =~= unescape_spec(text@));
    out
}

/// Text without an `&` comes back unchanged.
pub proof fn lemma_unescape_keeps_plain_text(s: Seq<char>)
    requires
        forall|i: int| 0 <= i < s.len() ==> s[i] != '&',
    ensures
        unescape_spec(s) == s,
{
    lemma_first_index_bound(s, '&');
    if first_index_of(s, '&') is Some {
        let a = first_index_of(s, '&').unwrap();
        assert(s[a] == '&');
    }
}

} // verus!
