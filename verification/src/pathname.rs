//! `std::path` semantics for Unix paths held as text: the final component of a path
//! (`Path::file_name`), its extension (`Path::extension`) and stem (`Path::file_stem`).
//! Paths are `/`-separated; empty components (from repeated separators) and `.`
//! components are skipped, and a final `..` has no file name.

use vstd::prelude::*;

verus! {

/// The index of the last `c` in `s`, if any.
pub open spec fn last_index_of(s: Seq<char>, c: char) -> Option<int>
    decreases s.len(),
{
    if s.len() == 0 {
        None
    } else if s.last() == c {
        Some(s.len() - 1)
    } else {
        last_index_of(s.drop_last(), c)
    }
}

/// The index of the first `c` in `s`, if any.
pub open spec fn first_index_of(s: Seq<char>, c: char) -> Option<int>
    decreases s.len(),
{
    if s.len() == 0 {
        None
    } else if s[0] == c {
        Some(0)
    } else {
        match first_index_of(s.drop_first(), c) {
            Some(i) => Some(i + 1),
            None => None,
        }
    }
}

/// `Path::file_name`: the last component that is neither empty nor `.`, unless it is `..`.
pub open spec fn file_name_spec(s: Seq<char>) -> Option<Seq<char>>
    decreases s.len(),
{
    proof {
        lemma_last_index_bound(s, '/');
    }
    let piece = match last_index_of(s, '/') {
        Some(k) => s.subrange(k + 1, s.len() as int),
        None => s,
    };
    if piece.len() == 0 || piece == seq!['.'] {
        match last_index_of(s, '/') {
            Some(k) => file_name_spec(s.take(k)),
            None => None,
        }
    } else if piece == seq!['.', '.'] {
        None
    } else {
        Some(piece)
    }
}

/// The extension of a file name: what follows its last `.`, unless that dot starts the name.
pub open spec fn name_extension(f: Seq<char>) -> Option<Seq<char>> {
    match last_index_of(f, '.') {
        Some(d) => if d == 0 || f == seq!['.', '.'] { None } else { Some(f.subrange(d + 1, f.len() as int)) },
        None => None,
    }
}

/// The stem of a file name: what precedes its last `.`, or the whole name.
pub open spec fn name_stem(f: Seq<char>) -> Seq<char> {
    match last_index_of(f, '.') {
        Some(d) => if d == 0 || f == seq!['.', '.'] { f } else { f.take(d) },
        None => f,
    }
}

/// `Path::extension`.
pub open spec fn extension_spec(s: Seq<char>) -> Option<Seq<char>> {
    match file_name_spec(s) {
        Some(f) => name_extension(f),
        None => None,
    }
}

/// `Path::file_stem`.
pub open spec fn file_stem_spec(s: Seq<char>) -> Option<Seq<char>> {
    match file_name_spec(s) {
        Some(f) => Some(name_stem(f)),
        None => None,
    }
}

pub proof fn lemma_last_index_bound(s: Seq<char>, c: char)
    ensures
        last_index_of(s, c) matches Some(k) ==> 0 <= k < s.len() && s[k] == c
            && forall|j: int| k < j < s.len() ==> s[j] != c,
        last_index_of(s, c) is None ==> forall|j: int| 0 <= j < s.len() ==> s[j] != c,
    decreases s.len(),
{
    if s.len() > 0 && s.last() != c {
        let t = s.drop_last();
        lemma_last_index_bound(t, c);
        assert(last_index_of(s, c) == last_index_of(t, c));
        assert forall|j: int| 0 <= j < s.len() - 1 implies s[j] == #[trigger] t[j] by {}
        match last_index_of(t, c) {
            Some(k) => {
                assert forall|j: int| k < j < s.len() implies s[j] != c by {
                    if j < s.len() - 1 { assert(s[j] == t[j]); }
                }
            },
            None => {
                assert forall|j: int| 0 <= j < s.len() implies s[j] != c by {
                    if j < s.len() - 1 { assert(s[j] == t[j]); }
                }
            },
        }
    }
}

pub proof fn lemma_first_index_bound(s: Seq<char>, c: char)
    ensures
        first_index_of(s, c) matches Some(k) ==> 0 <= k < s.len() && s[k] == c
            && forall|j: int| 0 <= j < k ==> s[j] != c,
        first_index_of(s, c) is None ==> forall|j: int| 0 <= j < s.len() ==> s[j] != c,
    decreases s.len(),
{
    if s.len() > 0 && s[0] != c {
        let t = s.drop_first();
        lemma_first_index_bound(t, c);
        assert forall|j: int| 1 <= j < s.len() implies s[j] == #[trigger] t[j - 1] by {}
        match first_index_of(t, c) {
            Some(k) => {
                assert forall|j: int| 0 <= j < k + 1 implies s[j] != c by {
                    if j > 0 { assert(s[j] == t[j - 1]); }
                }
            },
            None => {
                assert forall|j: int| 0 <= j < s.len() implies s[j] != c by {
                    if j > 0 { assert(s[j] == t[j - 1]); }
                }
            },
        }
    }
}

/// Exec counterpart of [`last_index_of`] on the prefix `s[..end]`.
pub fn find_last(s: &[char], end: usize, c: char) -> (r: Option<usize>)
    requires
        end <= s.len(),
    ensures
        match last_index_of(s@.take(end as int), c) {
            Some(k) => r == Some(k as usize),
            None => r is None,
        },
    decreases end,
{
    if end == 0 {
        return None;
    }
    assert(s@.take(end as int).drop_last() =~= s@.take(end - 1));
    if s[end - 1] == c {
        Some(end - 1)
    } else {
        find_last(s, end - 1, c)
    }
}

/// Exec counterpart of [`first_index_of`] on the suffix `s[start..]`, as an absolute index.
pub fn find_first(s: &[char], start: usize, c: char) -> (r: Option<usize>)
    requires
        start <= s.len(),
    ensures
        match first_index_of(s@.subrange(start as int, s.len() as int), c) {
            Some(k) => r == Some((start + k) as usize),
            None => r is None,
        },
    decreases s.len() - start,
{
    if start == s.len() {
        return None;
    }
    assert(s@.subrange(start as int, s.len() as int).drop_first() =~= s@.subrange(start + 1, s.len() as int));
    if s[start] == c {
        Some(start)
    } else {
        find_first(s, start + 1, c)
    }
}

/// `Path::file_name` over the prefix `s[..end]`, as a range of `s`.
fn file_name_range(s: &[char], end: usize) -> (r: Option<(usize, usize)>)
    requires
        end <= s.len(),
    ensures
        match file_name_spec(s@.take(end as int)) {
            Some(f) => r matches Some((a, b)) && a <= b <= end && s@.subrange(a as int, b as int) == f,
            None => r is None,
        },
    decreases end,
{
    let ghost t = s@.take(end as int);
    let k = find_last(s, end, '/');
    proof {
        lemma_last_index_bound(t, '/');
    }
    let start: usize = match k { Some(k) => k + 1, None => 0 };
    let len = end - start;
    let piece_is_dot = len == 1 && s[start] == '.';
    let piece_is_dotdot = len == 2 && s[start] == '.' && s[start + 1] == '.';
    let ghost piece = s@.subrange(start as int, end as int);
    assert(piece =~= (match last_index_of(t, '/') { Some(k) => t.subrange(k + 1, t.len() as int), None => t }));
    assert(piece_is_dot <==> piece == seq!['.']) by {
        if piece == seq!['.'] { assert(piece[0] == '.'); }
        if piece_is_dot { assert(piece =~= seq!['.']); }
    }
    assert(piece_is_dotdot <==> piece == seq!['.', '.']) by {
        if piece == seq!['.', '.'] { assert(piece[0] == '.' && piece[1] == '.'); }
        if piece_is_dotdot { assert(piece =~= seq!['.', '.']); }
    }
    if len == 0 || piece_is_dot {
        match k {
            Some(k) => {
                assert(t.take(k as int) =~= s@.take(k as int));
                file_name_range(s, k)
            },
            None => None,
        }
    } else if piece_is_dotdot {
        None
    } else {
        Some((start, end))
    }
}

/// `Path::file_name`.
pub fn file_name(s: &[char]) -> (r: Option<Vec<char>>)
    ensures
        match file_name_spec(s@) {
            Some(f) => r matches Some(v) && v@ == f,
            None => r is None,
        },
{
    assert(s@.take(s.len() as int) =~= s@);
    match file_name_range(s, s.len()) {
        Some((a, b)) => Some(copy_range(s, a, b)),
        None => None,
    }
}

/// A copy of `s[a..b]`.
pub fn copy_range(s: &[char], a: usize, b: usize) -> (v: Vec<char>)
    requires
        a <= b <= s.len(),
    ensures
        v@ == s@.subrange(a as int, b as int),
{
    let mut v: Vec<char> = Vec::new();
    let mut i = a;
    while i < b
        invariant
            a <= i <= b <= s.len(),
            v@ == s@.subrange(a as int, i as int),
        decreases b - i,
    {
        v.push(s[i]);
        assert(s@.subrange(a as int, i as int).push(s@[i as int]) =~= s@.subrange(a as int, i + 1));
        i += 1;
    }
    v
}

/// The extension of a file name (see [`name_extension`]).
pub fn file_name_extension(f: &[char]) -> (r: Option<Vec<char>>)
    ensures
        match name_extension(f@) {
            Some(e) => r matches Some(v) && v@ == e,
            None => r is None,
        },
{
    assert(f@.take(f.len() as int) =~= f@);
    let is_dotdot = f.len() == 2 && f[0] == '.' && f[1] == '.';
    assert(is_dotdot <==> f@ == seq!['.', '.']) by {
        if f@ == seq!['.', '.'] { assert(f@[0] == '.' && f@[1] == '.'); }
        if is_dotdot { assert(f@ =~= seq!['.', '.']); }
    }
    proof { lemma_last_index_bound(f@, '.'); }
    match find_last(f, f.len(), '.') {
        Some(d) => if d == 0 || is_dotdot { None } else { Some(copy_range(f, d + 1, f.len())) },
        None => None,
    }
}

/// The stem of a file name (see [`name_stem`]).
pub fn file_name_stem(f: &[char]) -> (r: Vec<char>)
    ensures
        r@ == name_stem(f@),
{
    assert(f@.take(f.len() as int) =~= f@);
    let is_dotdot = f.len() == 2 && f[0] == '.' && f[1] == '.';
    assert(is_dotdot <==> f@ == seq!['.', '.']) by {
        if f@ == seq!['.', '.'] { assert(f@[0] == '.' && f@[1] == '.'); }
        if is_dotdot { assert(f@ =~= seq!['.', '.']); }
    }
    proof { lemma_last_index_bound(f@, '.'); }
    match find_last(f, f.len(), '.') {
        Some(d) => if d == 0 || is_dotdot { copy_range(f, 0, f.len()) } else { copy_range(f, 0, d) },
        None => copy_range(f, 0, f.len()),
    }
}

/// `Path::extension`.
pub fn extension(s: &[char]) -> (r: Option<Vec<char>>)
    ensures
        match extension_spec(s@) {
            Some(e) => r matches Some(v) && v@ == e,
            None => r is None,
        },
{
    match file_name(s) {
        Some(f) => file_name_extension(&f),
        None => None,
    }
}

/// `Path::file_stem`.
pub fn file_stem(s: &[char]) -> (r: Option<Vec<char>>)
    ensures
        match file_stem_spec(s@) {
            Some(e) => r matches Some(v) && v@ == e,
            None => r is None,
        },
{
    match file_name(s) {
        Some(f) => Some(file_name_stem(&f)),
        None => None,
    }
}

} // verus!
