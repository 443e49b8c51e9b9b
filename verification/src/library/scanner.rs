//! The rules of a ROM directory scan: display titles and regions from file names, sort
//! titles, which platforms a file can belong to, whether a known file needs another look,
//! and the tally of a scan. The walk over the disk and the database writes are done by
//! the application, which asks these functions at each step.

use vstd::prelude::*;
use crate::db::models::Platform;
use crate::pathname::{file_stem, file_stem_spec, first_index_of, lemma_first_index_bound};
use crate::text::{
    chars_eq, chars_eq_ignore_ascii_case, chars_of, eq_ignore_ascii_case, lowercase_of,
    string_of, to_lowercase, trim_chars, trim_spec,
};

verus! {

// ----- titles -----

/// Region tags recognised in parentheses (No-Intro and GoodTools naming).
pub open spec fn known_regions() -> Seq<Seq<char>> {
    seq![
        "USA"@, "Europe"@, "Japan"@, "World"@, "Germany"@, "France"@, "Spain"@, "Italy"@,
        "Australia"@, "Korea"@, "China"@, "Brazil"@, "Netherlands"@, "Sweden"@, "Asia"@, "UK"@,
        "Canada"@,
    ]
}

/// Whether a tag names a known region, in any ASCII case.
pub open spec fn is_known_region(tag: Seq<char>) -> bool {
    exists|k: int| 0 <= k < known_regions().len() && eq_ignore_ascii_case(#[trigger] known_regions()[k], tag)
}

/// The state of the title scan after a prefix of the file stem.
pub struct TitleScan {
    pub paren: nat,
    pub bracket: nat,
    pub tag: Seq<char>,
    pub region: Option<Seq<char>>,
    pub cleaned: Seq<char>,
}

pub open spec fn title_scan_start() -> TitleScan {
    TitleScan { paren: 0, bracket: 0, tag: Seq::empty(), region: None, cleaned: Seq::empty() }
}

/// One character of the stem. `(` opens a tag and empties the tag buffer; `)` closes one,
/// and the first closed tag that names a known region (trimmed) becomes the region; `[`
/// and `]` nest bracket groups; a character inside parentheses goes to the tag buffer,
/// inside brackets nowhere, elsewhere to the title.
pub open spec fn title_step(st: TitleScan, ch: char) -> TitleScan {
    if ch == '(' {
        TitleScan { paren: st.paren + 1, tag: Seq::empty(), ..st }
    } else if ch == ')' {
        if st.paren > 0 {
            let region = if st.region is None && is_known_region(trim_spec(st.tag)) {
                Some(trim_spec(st.tag))
            } else {
                st.region
            };
            TitleScan { paren: (st.paren - 1) as nat, region, ..st }
        } else {
            st
        }
    } else if ch == '[' {
        TitleScan { bracket: st.bracket + 1, ..st }
    } else if ch == ']' {
        TitleScan { bracket: if st.bracket > 0 { (st.bracket - 1) as nat } else { 0 }, ..st }
    } else if st.paren > 0 {
        TitleScan { tag: st.tag.push(ch), ..st }
    } else if st.bracket > 0 {
        st
    } else {
        TitleScan { cleaned: st.cleaned.push(ch), ..st }
    }
}

pub open spec fn title_scan(s: Seq<char>) -> TitleScan
    decreases s.len(),
{
    if s.len() == 0 { title_scan_start() } else { title_step(title_scan(s.drop_last()), s.last()) }
}

/// No bracket character ever reaches the display title: every `(...)` and `[...]` group
/// is removed, and stray closing brackets are dropped too.
pub proof fn lemma_title_has_no_brackets(s: Seq<char>)
    ensures
        forall|i: int|
            0 <= i < title_scan(s).cleaned.len() ==> {
                let c = #[trigger] title_scan(s).cleaned[i];
                c != '(' && c != ')' && c != '[' && c != ']'
            },
    decreases s.len(),
{
    if s.len() > 0 {
        lemma_title_has_no_brackets(s.drop_last());
        let st = title_scan(s.drop_last());
        let ch = s.last();
        assert forall|i: int| 0 <= i < title_scan(s).cleaned.len() implies {
            let c = #[trigger] title_scan(s).cleaned[i];
            c != '(' && c != ')' && c != '[' && c != ']'
        } by {
            if i < st.cleaned.len() {
                assert(title_scan(s).cleaned[i] == st.cleaned[i]);
            }
        }
    }
}

/// The stem a title is cleaned from: the file stem, or the whole name when there is none.
pub open spec fn title_stem(filename: Seq<char>) -> Seq<char> {
    match file_stem_spec(filename) {
        Some(s) => s,
        None => filename,
    }
}

/// The display title of a ROM file name: the stem without any `(...)` or `[...]` group,
/// trimmed.
pub open spec fn clean_title_spec(filename: Seq<char>) -> Seq<char> {
    trim_spec(title_scan(title_stem(filename)).cleaned)
}

/// The region of a ROM file name: the first parenthesised tag naming a known region.
pub open spec fn title_region_spec(filename: Seq<char>) -> Option<Seq<char>> {
    title_scan(title_stem(filename)).region
}

fn known_region_names() -> (v: Vec<Vec<char>>)
    ensures
        v@.len() == known_regions().len(),
        forall|k: int| 0 <= k < v@.len() ==> #[trigger] v@[k]@ == known_regions()[k],
{
    let mut v: Vec<Vec<char>> = Vec::new();
    v.push(chars_of("USA"));
    v.push(chars_of("Europe"));
    v.push(chars_of("Japan"));
    v.push(chars_of("World"));
    v.push(chars_of("Germany"));
    v.push(chars_of("France"));
    v.push(chars_of("Spain"));
    v.push(chars_of("Italy"));
    v.push(chars_of("Australia"));
    v.push(chars_of("Korea"));
    v.push(chars_of("China"));
    v.push(chars_of("Brazil"));
    v.push(chars_of("Netherlands"));
    v.push(chars_of("Sweden"));
    v.push(chars_of("Asia"));
    v.push(chars_of("UK"));
    v.push(chars_of("Canada"));
    v
}

fn known_region(names: &Vec<Vec<char>>, tag: &[char]) -> (b: bool)
    requires
        names@.len() == known_regions().len(),
        forall|k: int| 0 <= k < names@.len() ==> #[trigger] names@[k]@ == known_regions()[k],
    ensures
        b == is_known_region(tag@),
{
    let mut k: usize = 0;
    while k < names.len()
        invariant
            names@.len() == known_regions().len(),
            forall|j: int| 0 <= j < names@.len() ==> #[trigger] names@[j]@ == known_regions()[j],
            k <= names.len(),
            forall|j: int| 0 <= j < k ==> !eq_ignore_ascii_case(#[trigger] known_regions()[j], tag@),
        decreases names.len() - k,
    {
        if chars_eq_ignore_ascii_case(names[k].as_slice(), tag) {
            assert(eq_ignore_ascii_case(known_regions()[k as int], tag@));
            return true;
        }
        k += 1;
    }
    false
}

/// The display title and region of a ROM file name, e.g. `"Super Mario World (USA)
/// [!].sfc"` gives `"Super Mario World"` and `"USA"`.
pub fn clean_title(filename: &str) -> (r: (String, Option<String>))
    ensures
        r.0@ == clean_title_spec(filename@),
        match title_region_spec(filename@) {
            Some(g) => r.1 matches Some(t) && t@ == g,
            None => r.1 is None,
        },
{
    let name = chars_of(filename);
    let stem = match file_stem(&name) {
        Some(s) => s,
        None => name,
    };
    let names = known_region_names();
    let mut paren: usize = 0;
    let mut bracket: usize = 0;
    let mut tag: Vec<char> = Vec::new();
    let mut region: Option<Vec<char>> = None;
    let mut cleaned: Vec<char> = Vec::new();
    let mut i: usize = 0;
    while i < stem.len()
        invariant
            names@.len() == known_regions().len(),
            forall|k: int| 0 <= k < names@.len() ==> #[trigger] names@[k]@ == known_regions()[k],
            i <= stem.len(),
            paren <= i,
            bracket <= i,
            ({
                let st = title_scan(stem@.take(i as int));
                &&& st.paren == paren
                &&& st.bracket == bracket
                &&& st.tag == tag@
                &&& st.cleaned == cleaned@
                &&& match st.region {
                    Some(g) => region matches Some(v) && v@ == g,
                    None => region is None,
                }
            }),
        decreases stem.len() - i,
    {
        let ch = stem[i];
        assert(stem@.take(i + 1).drop_last() =~= stem@.take(i as int));
        if ch == '(' {
            paren += 1;
            tag = Vec::new();
        } else if ch == ')' {
            if paren > 0 {
                paren -= 1;
                if region.is_none() {
                    let candidate = trim_chars(tag.as_slice());
                    if known_region(&names, candidate.as_slice()) {
                        region = Some(candidate);
                    }
                }
            }
        } else if ch == '[' {
            bracket += 1;
        } else if ch == ']' {
            if bracket > 0 {
                bracket -= 1;
            }
        } else if paren > 0 {
            tag.push(ch);
        } else if bracket > 0 {
        } else {
            cleaned.push(ch);
        }
        i += 1;
    }
    assert(stem@.take(stem.len() as int) =~= stem@);
    let title = string_of(trim_chars(cleaned.as_slice()).as_slice());
    let region = match region {
        Some(v) => Some(string_of(v.as_slice())),
        None => None,
    };
    (title, region)
}

/// What [`make_sort_title`] gives: the lower-cased title without a leading `"the "`.
pub open spec fn sort_title_spec(title: Seq<char>) -> Seq<char> {
    let lower = lowercase_of(title);
    if lower.len() >= 4 && lower.take(4) == "the "@ { lower.subrange(4, lower.len() as int) } else { lower }
}

/// The sort key of a title: lower case, without a leading `"the "`.
pub fn make_sort_title(title: &str) -> (r: String)
    ensures
        r@ == sort_title_spec(title@),
{
    let lower = to_lowercase(title);
    let c = chars_of(lower.as_str());
    let article = chars_of("the ");
    if c.len() >= 4 && chars_eq(&c.as_slice()[0..4], article.as_slice()) {
        assert(c@.subrange(0, 4) == c@.take(4));
        string_of(&c.as_slice()[4..c.len()])
    } else {
        assert(c.len() >= 4 ==> c@.subrange(0, 4) == c@.take(4));
        lower
    }
}

// ----- platforms -----

/// The pieces of `s` between the separators `c` (`str::split`); an empty `s` is one
/// empty piece.
pub open spec fn split_on(s: Seq<char>, c: char) -> Seq<Seq<char>>
    decreases s.len(),
{
    proof {
        lemma_first_index_bound(s, c);
    }
    match first_index_of(s, c) {
        None => seq![s],
        Some(k) => seq![s.take(k)] + split_on(s.subrange(k + 1, s.len() as int), c),
    }
}

/// Whether a platform's comma-separated extension list names `ext`, ignoring spaces
/// around each entry and ASCII case.
pub open spec fn accepts_extension(list: Seq<char>, ext: Seq<char>) -> bool {
    exists|k: int| 0 <= k < split_on(list, ',').len() && eq_ignore_ascii_case(
        trim_spec(#[trigger] split_on(list, ',')[k]),
        ext,
    )
}

/// Whether an extension names an archive format.
pub open spec fn is_archive_extension(ext: Seq<char>) -> bool {
    ext == "zip"@ || ext == "7z"@
}

/// The extensions to look for inside an archive for a platform: its list, trimmed,
/// without the archive extensions themselves.
pub open spec fn inner_extensions_spec(list: Seq<char>) -> Seq<Seq<char>> {
    split_on(list, ',').map_values(|p: Seq<char>| trim_spec(p)).filter(|e: Seq<char>| !is_archive_extension(e))
}

/// Whether platform `p` is considered for a file: it matches the directory's platform
/// hint, if any, and accepts the extension.
pub open spec fn is_candidate(p: Platform, ext: Seq<char>, hint: Option<i64>) -> bool {
    (match hint {
        Some(h) => p.id == h,
        None => true,
    }) && accepts_extension(p.extensions@, ext)
}

/// The indices of the candidate platforms, in list order.
pub open spec fn candidate_indices(platforms: Seq<Platform>, ext: Seq<char>, hint: Option<i64>) -> Seq<int>
    decreases platforms.len(),
{
    if platforms.len() == 0 {
        Seq::empty()
    } else {
        let rest = candidate_indices(platforms.drop_last(), ext, hint);
        if is_candidate(platforms.last(), ext, hint) { rest.push(platforms.len() - 1) } else { rest }
    }
}

/// A platform a file may belong to, and the extensions to look for when the file is an
/// archive (empty for a plain file).
#[derive(Debug)]
pub struct PlatformCandidate {
    pub platform: usize,
    pub inner_extensions: Vec<String>,
}

pub open spec fn strings_view(v: Seq<String>) -> Seq<Seq<char>> {
    v.map_values(|s: String| s@)
}

/// The platforms to try for a file with (lower-case) extension `ext`, in order. A plain
/// file is tried against the first candidate only, hashed whole; an archive against
/// every candidate in turn, each time looking inside for that platform's extensions.
/// The first attempt that hashes decides the platform.
pub open spec fn platform_candidates_spec(platforms: Seq<Platform>, ext: Seq<char>, hint: Option<i64>) -> Seq<
    (int, Seq<Seq<char>>),
> {
    let idx = candidate_indices(platforms, ext, hint);
    if is_archive_extension(ext) {
        idx.map_values(|i: int| (i, inner_extensions_spec(platforms[i].extensions@)))
    } else if idx.len() > 0 {
        seq![(idx[0], Seq::<Seq<char>>::empty())]
    } else {
        Seq::empty()
    }
}

/// Archives are looked into, whatever their format: for a `.zip` and a `.7z` alike, every
/// candidate platform is tried in turn, each with its own extensions to look for inside,
/// which never name an archive format. A plain file is tried against the first
/// candidate only, hashed whole.
pub proof fn lemma_archives_are_looked_into(platforms: Seq<Platform>, hint: Option<i64>, ext: Seq<char>, list: Seq<char>)
    ensures
        platform_candidates_spec(platforms, "zip"@, hint) == candidate_indices(platforms, "zip"@, hint).map_values(
            |i: int| (i, inner_extensions_spec(platforms[i].extensions@)),
        ),
        platform_candidates_spec(platforms, "7z"@, hint) == candidate_indices(platforms, "7z"@, hint).map_values(
            |i: int| (i, inner_extensions_spec(platforms[i].extensions@)),
        ),
        !inner_extensions_spec(list).contains("zip"@),
        !inner_extensions_spec(list).contains("7z"@),
        ext != "zip"@ && ext != "7z"@ ==> platform_candidates_spec(platforms, ext, hint).len() <= 1,
        ext != "zip"@ && ext != "7z"@ && candidate_indices(platforms, ext, hint).len() > 0 ==> platform_candidates_spec(
            platforms,
            ext,
            hint,
        ) == seq![(candidate_indices(platforms, ext, hint)[0], Seq::<Seq<char>>::empty())],
{
    let inner = inner_extensions_spec(list);
    let pred = |e: Seq<char>| !is_archive_extension(e);
    let trimmed = split_on(list, ',').map_values(|p: Seq<char>| trim_spec(p));
    if inner.contains("zip"@) {
        let k = choose|k: int| 0 <= k < inner.len() && inner[k] == "zip"@;
        trimmed.lemma_filter_pred(pred, k);
    }
    if inner.contains("7z"@) {
        let k = choose|k: int| 0 <= k < inner.len() && inner[k] == "7z"@;
        trimmed.lemma_filter_pred(pred, k);
    }
}

fn split_commas(s: &[char]) -> (v: Vec<Vec<char>>)
    ensures
        v@.map_values(|p: Vec<char>| p@) == split_on(s@, ','),
{
    let mut v: Vec<Vec<char>> = Vec::new();
    let mut start: usize = 0;
    let ghost mut done: Seq<Seq<char>> = Seq::empty();
    assert(s@.subrange(0, s.len() as int) =~= s@);
    loop
        invariant
            start <= s.len(),
            v@.map_values(|p: Vec<char>| p@) + split_on(s@.subrange(start as int, s.len() as int), ',')
                == split_on(s@, ','),
        decreases s.len() - start,
    {
        let ghost rest = s@.subrange(start as int, s.len() as int);
        proof {
            lemma_first_index_bound(rest, ',');
        }
        match crate::pathname::find_first(s, start, ',') {
            None => {
                let piece = crate::pathname::copy_range(s, start, s.len());
                let ghost before = v@.map_values(|p: Vec<char>| p@);
                v.push(piece);
                assert(v@.map_values(|p: Vec<char>| p@) =~= before + seq![rest]);
                return v;
            },
            Some(k) => {
                let piece = crate::pathname::copy_range(s, start, k);
                let ghost before = v@.map_values(|p: Vec<char>| p@);
                v.push(piece);
                assert(rest.take(k - start) =~= s@.subrange(start as int, k as int));
                assert(rest.subrange(k - start + 1, rest.len() as int) =~= s@.subrange(k + 1, s.len() as int));
                assert(v@.map_values(|p: Vec<char>| p@) =~= before + seq![rest.take(k - start)]);
                assert(split_on(rest, ',') == seq![rest.take(k - start)] + split_on(
                    s@.subrange(k + 1, s.len() as int),
                    ',',
                ));
                assert(v@.map_values(|p: Vec<char>| p@) + split_on(s@.subrange(k + 1, s.len() as int), ',')
                    =~= before + split_on(rest, ','));
                start = k + 1;
            },
        }
    }
}

fn accepts(list: &str, ext: &[char]) -> (b: bool)
    ensures
        b == accepts_extension(list@, ext@),
{
    let pieces = split_commas(&chars_of(list));
    let ghost sp = split_on(list@, ',');
    assert(sp.len() == pieces@.len());
    let mut k: usize = 0;
    while k < pieces.len()
        invariant
            sp == split_on(list@, ','),
            pieces@.map_values(|p: Vec<char>| p@) == sp,
            k <= pieces.len(),
            forall|j: int| 0 <= j < k ==> !eq_ignore_ascii_case(trim_spec(#[trigger] sp[j]), ext@),
        decreases pieces.len() - k,
    {
        assert(pieces@[k as int]@ == sp[k as int]);
        let t = trim_chars(pieces[k].as_slice());
        if chars_eq_ignore_ascii_case(t.as_slice(), ext) {
            return true;
        }
        k += 1;
    }
    false
}

fn archive_ext(ext: &[char]) -> (b: bool)
    ensures
        b == is_archive_extension(ext@),
{
    let zip = chars_of("zip");
    let sevenz = chars_of("7z");
    chars_eq(ext, zip.as_slice()) || chars_eq(ext, sevenz.as_slice())
}

fn inner_extensions(list: &str) -> (v: Vec<String>)
    ensures
        strings_view(v@) == inner_extensions_spec(list@),
{
    let pieces = split_commas(&chars_of(list));
    let ghost sp = split_on(list@, ',');
    let ghost trimmed = sp.map_values(|p: Seq<char>| trim_spec(p));
    let mut v: Vec<String> = Vec::new();
    let mut k: usize = 0;
    while k < pieces.len()
        invariant
            sp == split_on(list@, ','),
            trimmed == sp.map_values(|p: Seq<char>| trim_spec(p)),
            pieces@.map_values(|p: Vec<char>| p@) == sp,
            k <= pieces.len(),
            strings_view(v@) == trimmed.take(k as int).filter(|e: Seq<char>| !is_archive_extension(e)),
        decreases pieces.len() - k,
    {
        assert(pieces@[k as int]@ == sp[k as int]);
        let t = trim_chars(pieces[k].as_slice());
        assert(trimmed.take(k + 1).drop_last() =~= trimmed.take(k as int));
        assert(trimmed.take(k + 1).last() == t@);
        let ghost before = strings_view(v@);
        if !archive_ext(t.as_slice()) {
            v.push(string_of(t.as_slice()));
            assert(strings_view(v@) =~= before.push(t@));
        }
        proof {
            reveal(Seq::filter);
            assert(trimmed.take(k + 1).filter(|e: Seq<char>| !is_archive_extension(e)) == (if !is_archive_extension(t@) {
                trimmed.take(k as int).filter(|e: Seq<char>| !is_archive_extension(e)).push(t@)
            } else {
                trimmed.take(k as int).filter(|e: Seq<char>| !is_archive_extension(e))
            }));
        }
        k += 1;
    }
    assert(trimmed.take(pieces@.len() as int) =~= trimmed);
    v
}

/// The platforms to try for a file, in order (see [`platform_candidates_spec`]).
pub fn platform_candidates(platforms: &[Platform], extension: &str, platform_hint: Option<i64>) -> (r: Vec<
    PlatformCandidate,
>)
    ensures
        r@.map_values(|c: PlatformCandidate| (c.platform as int, strings_view(c.inner_extensions@)))
            == platform_candidates_spec(platforms@, extension@, platform_hint),
{
    let ext = chars_of(extension);
    let archive = archive_ext(ext.as_slice());
    let mut idx: Vec<usize> = Vec::new();
    let mut i: usize = 0;
    while i < platforms.len()
        invariant
            i <= platforms.len(),
            ext@ == extension@,
            idx@.map_values(|j: usize| j as int) == candidate_indices(platforms@.take(i as int), extension@, platform_hint),
            forall|j: int| 0 <= j < idx@.len() ==> #[trigger] idx@[j] < i,
        decreases platforms.len() - i,
    {
        assert(platforms@.take(i + 1).drop_last() =~= platforms@.take(i as int));
        assert(platforms@.take(i + 1).last() == platforms@[i as int]);
        let p = &platforms[i];
        let hint_ok = match platform_hint {
            Some(h) => p.id == h,
            None => true,
        };
        let ghost before = idx@.map_values(|j: usize| j as int);
        if hint_ok && accepts(p.extensions.as_str(), ext.as_slice()) {
            idx.push(i);
            assert(idx@.map_values(|j: usize| j as int) =~= before.push(i as int));
        }
        i += 1;
    }
    assert(platforms@.take(platforms.len() as int) =~= platforms@);
    let ghost iv = idx@.map_values(|j: usize| j as int);
    let mut r: Vec<PlatformCandidate> = Vec::new();
    if archive {
        let mut k: usize = 0;
        while k < idx.len()
            invariant
                iv == idx@.map_values(|j: usize| j as int),
                iv == candidate_indices(platforms@, extension@, platform_hint),
                forall|j: int| 0 <= j < idx@.len() ==> #[trigger] idx@[j] < platforms@.len(),
                k <= idx.len(),
                r@.map_values(|c: PlatformCandidate| (c.platform as int, strings_view(c.inner_extensions@)))
                    == iv.take(k as int).map_values(|i: int| (i, inner_extensions_spec(platforms@[i].extensions@))),
            decreases idx.len() - k,
        {
            let pi = idx[k];
            let inner = inner_extensions(platforms[pi].extensions.as_str());
            let ghost before = r@.map_values(|c: PlatformCandidate| (c.platform as int, strings_view(c.inner_extensions@)));
            r.push(PlatformCandidate { platform: pi, inner_extensions: inner });
            assert(iv.take(k + 1) =~= iv.take(k as int).push(pi as int));
            assert(r@.map_values(|c: PlatformCandidate| (c.platform as int, strings_view(c.inner_extensions@)))
                =~= before.push((pi as int, inner_extensions_spec(platforms@[pi as int].extensions@))));
            k += 1;
        }
        assert(iv.take(idx@.len() as int) =~= iv);
    } else if idx.len() > 0 {
        r.push(PlatformCandidate { platform: idx[0], inner_extensions: Vec::new() });
        assert(strings_view(Seq::<String>::empty()) =~= Seq::<Seq<char>>::empty());
    }
    assert(r@.map_values(|c: PlatformCandidate| (c.platform as int, strings_view(c.inner_extensions@)))
        =~= platform_candidates_spec(platforms@, extension@, platform_hint));
    r
}

// ----- incremental scan -----

/// Whether a file found on disk needs hashing again. `existing` is the stored
/// `(mtime, platform id)` of the same path, if any. A known file with the same mtime is
/// left alone, unless the directory's platform hint names another platform than the
/// stored one: then it is classified again.
pub open spec fn is_unchanged(existing: Option<(i64, i64)>, file_mtime: i64, hint: Option<i64>) -> bool {
    match existing {
        Some((mtime, platform)) => mtime == file_mtime && match hint {
            Some(h) => h == platform,
            None => true,
        },
        None => false,
    }
}

/// Scanning again finds a file it has just stored unchanged, as long as the directory's
/// platform hint (if any) names the platform it was stored under; a hint naming another
/// platform sends the file through classification again.
pub proof fn lemma_rescan_of_stored_file(mtime: i64, platform: i64, hint: Option<i64>)
    ensures
        (hint is None || hint == Some(platform)) ==> is_unchanged(Some((mtime, platform)), mtime, hint),
        (hint matches Some(h) && h != platform) ==> !is_unchanged(Some((mtime, platform)), mtime, hint),
{
}

/// What the scan does with one file.
#[derive(Debug, Clone, Copy, PartialEq, Eq, Structural)]
pub enum FileVerdict {
    /// Known and unchanged: counted, not hashed.
    Unchanged,
    /// To be classified and hashed; `is_new` when the path is not stored yet.
    Process { is_new: bool },
}

/// The verdict for one file (see [`is_unchanged`]).
pub fn file_verdict(existing: Option<(i64, i64)>, file_mtime: i64, platform_hint: Option<i64>) -> (v: FileVerdict)
    ensures
        v == verdict_spec(existing, file_mtime, platform_hint),
        is_unchanged(existing, file_mtime, platform_hint) ==> v == FileVerdict::Unchanged,
        !is_unchanged(existing, file_mtime, platform_hint) ==> v == (FileVerdict::Process { is_new: existing is None }),
{
    let platform_matches_hint = match (platform_hint, existing) {
        (Some(hint), Some((_, platform))) => hint == platform,
        _ => true,
    };
    match existing {
        Some((mtime, _)) => if mtime == file_mtime && platform_matches_hint {
            FileVerdict::Unchanged
        } else {
            FileVerdict::Process { is_new: false }
        },
        None => FileVerdict::Process { is_new: true },
    }
}

/// How one file ended in a scan.
#[derive(Debug, Clone, Copy, PartialEq, Eq, Structural)]
pub enum FileOutcome {
    Added,
    Updated,
    Unchanged,
    /// No extension, or no platform that takes it.
    Skipped,
}

/// The verdict for one file as a value (see [`is_unchanged`]).
pub open spec fn verdict_spec(existing: Option<(i64, i64)>, file_mtime: i64, hint: Option<i64>) -> FileVerdict {
    if is_unchanged(existing, file_mtime, hint) {
        FileVerdict::Unchanged
    } else {
        FileVerdict::Process { is_new: existing is None }
    }
}

/// How a file ends once its verdict is known and, for a file to process, whether a
/// platform took it and its hashing succeeded (`resolved`): unchanged files stay
/// unchanged; a processed file is added or updated when resolved, skipped otherwise.
pub open spec fn outcome_spec(verdict: FileVerdict, resolved: bool) -> FileOutcome {
    match verdict {
        FileVerdict::Unchanged => FileOutcome::Unchanged,
        FileVerdict::Process { is_new } => if !resolved {
            FileOutcome::Skipped
        } else if is_new {
            FileOutcome::Added
        } else {
            FileOutcome::Updated
        },
    }
}

/// How a file ends (see [`outcome_spec`]).
pub fn file_outcome(verdict: FileVerdict, resolved: bool) -> (o: FileOutcome)
    ensures
        o == outcome_spec(verdict, resolved),
{
    match verdict {
        FileVerdict::Unchanged => FileOutcome::Unchanged,
        FileVerdict::Process { is_new } => if !resolved {
            FileOutcome::Skipped
        } else if is_new {
            FileOutcome::Added
        } else {
            FileOutcome::Updated
        },
    }
}

/// What is stored for a file after a scan: a file added or updated is stored with its
/// mtime and the platform it resolved to; otherwise the row (if any) is left as it was.
pub open spec fn stored_after(existing: Option<(i64, i64)>, file_mtime: i64, outcome: FileOutcome, resolved: Option<i64>) -> Option<
    (i64, i64),
> {
    if outcome == FileOutcome::Added || outcome == FileOutcome::Updated {
        Some((file_mtime, resolved.unwrap()))
    } else {
        existing
    }
}

/// How a file ends in a second scan right after the first, with nothing changed:
/// skipped again if it was skipped, unchanged otherwise.
pub open spec fn rescan_outcome(first: FileOutcome) -> FileOutcome {
    if first == FileOutcome::Skipped { FileOutcome::Skipped } else { FileOutcome::Unchanged }
}

/// A second scan right after the first, with the file and the directory's hint as they
/// were, ends for each file as [`rescan_outcome`] of the first: a file the first scan
/// stored is found unchanged, and a file it skipped is skipped again. `resolved` is the
/// platform the file resolves to (the same in both scans, as nothing changed); the
/// candidates are those of the hint, so a resolved platform never contradicts it.
pub proof fn lemma_rescan_file(existing: Option<(i64, i64)>, file_mtime: i64, hint: Option<i64>, resolved: Option<i64>)
    requires
        resolved matches Some(p) ==> (hint is None || hint == Some(p)),
    ensures
        ({
            let first = outcome_spec(verdict_spec(existing, file_mtime, hint), resolved is Some);
            outcome_spec(
                verdict_spec(stored_after(existing, file_mtime, first, resolved), file_mtime, hint),
                resolved is Some,
            ) == rescan_outcome(first)
        }),
{
}

proof fn lemma_rescan_counts_step(first: Seq<FileOutcome>)
    ensures
        count_outcome(first.map_values(|o: FileOutcome| rescan_outcome(o)), FileOutcome::Unchanged) == count_outcome(
            first,
            FileOutcome::Added,
        ) + count_outcome(first, FileOutcome::Updated) + count_outcome(first, FileOutcome::Unchanged),
        count_outcome(first.map_values(|o: FileOutcome| rescan_outcome(o)), FileOutcome::Skipped) == count_outcome(
            first,
            FileOutcome::Skipped,
        ),
        count_outcome(first.map_values(|o: FileOutcome| rescan_outcome(o)), FileOutcome::Added) == 0,
        count_outcome(first.map_values(|o: FileOutcome| rescan_outcome(o)), FileOutcome::Updated) == 0,
    decreases first.len(),
{
    if first.len() > 0 {
        let rest = first.drop_last();
        lemma_rescan_counts_step(rest);
        assert(first.map_values(|o: FileOutcome| rescan_outcome(o)).drop_last() =~= rest.map_values(
            |o: FileOutcome| rescan_outcome(o),
        ));
    }
}

/// The tally of a second scan right after the first, with nothing changed: every file
/// the first scan added, updated or found unchanged counts as unchanged; the skipped ones
/// are skipped again; nothing is added or updated (and, by
/// [`lemma_rescan_changes_nothing`], nothing is removed).
pub proof fn lemma_second_scan_counts(first: Seq<FileOutcome>)
    ensures
        ({
            let second = first.map_values(|o: FileOutcome| rescan_outcome(o));
            &&& count_outcome(second, FileOutcome::Unchanged) == count_outcome(first, FileOutcome::Added)
                + count_outcome(first, FileOutcome::Updated) + count_outcome(first, FileOutcome::Unchanged)
            &&& count_outcome(second, FileOutcome::Skipped) == count_outcome(first, FileOutcome::Skipped)
            &&& count_outcome(second, FileOutcome::Added) == 0
            &&& count_outcome(second, FileOutcome::Updated) == 0
        }),
{
    lemma_rescan_counts_step(first);
}

/// Progress after one file.
#[derive(Debug)]
pub struct ScanProgress {
    pub current: usize,
    pub total: usize,
    pub current_file: String,
}

/// The tally of a scan.
#[derive(Debug, Clone, Copy, PartialEq, Eq, Structural)]
pub struct ScanSummary {
    pub added: usize,
    pub updated: usize,
    pub unchanged: usize,
    pub removed: usize,
    pub skipped_unknown_extension: usize,
}

/// How many of `outcomes` are `o`.
pub open spec fn count_outcome(outcomes: Seq<FileOutcome>, o: FileOutcome) -> nat
    decreases outcomes.len(),
{
    if outcomes.len() == 0 {
        0
    } else {
        count_outcome(outcomes.drop_last(), o) + if outcomes.last() == o { 1nat } else { 0nat }
    }
}

proof fn lemma_count_bound(outcomes: Seq<FileOutcome>, o: FileOutcome)
    ensures
        count_outcome(outcomes, o) <= outcomes.len(),
    decreases outcomes.len(),
{
    if outcomes.len() > 0 {
        lemma_count_bound(outcomes.drop_last(), o);
    }
}

impl ScanSummary {
    /// The tally of the files' outcomes, with `removed` stale entries.
    pub fn tally(outcomes: &[FileOutcome], removed: usize) -> (s: ScanSummary)
        ensures
            s.added == count_outcome(outcomes@, FileOutcome::Added),
            s.updated == count_outcome(outcomes@, FileOutcome::Updated),
            s.unchanged == count_outcome(outcomes@, FileOutcome::Unchanged),
            s.skipped_unknown_extension == count_outcome(outcomes@, FileOutcome::Skipped),
            s.removed == removed,
    {
        let mut s = ScanSummary { added: 0, updated: 0, unchanged: 0, removed, skipped_unknown_extension: 0 };
        let mut i: usize = 0;
        while i < outcomes.len()
            invariant
                i <= outcomes.len(),
                s.added == count_outcome(outcomes@.take(i as int), FileOutcome::Added),
                s.updated == count_outcome(outcomes@.take(i as int), FileOutcome::Updated),
                s.unchanged == count_outcome(outcomes@.take(i as int), FileOutcome::Unchanged),
                s.skipped_unknown_extension == count_outcome(outcomes@.take(i as int), FileOutcome::Skipped),
                s.removed == removed,
            decreases outcomes.len() - i,
        {
            proof {
                assert(outcomes@.take(i + 1).drop_last() =~= outcomes@.take(i as int));
                lemma_count_bound(outcomes@.take(i as int), FileOutcome::Added);
                lemma_count_bound(outcomes@.take(i as int), FileOutcome::Updated);
                lemma_count_bound(outcomes@.take(i as int), FileOutcome::Unchanged);
                lemma_count_bound(outcomes@.take(i as int), FileOutcome::Skipped);
            }
            match outcomes[i] {
                FileOutcome::Added => s.added = s.added + 1,
                FileOutcome::Updated => s.updated = s.updated + 1,
                FileOutcome::Unchanged => s.unchanged = s.unchanged + 1,
                FileOutcome::Skipped => s.skipped_unknown_extension = s.skipped_unknown_extension + 1,
            }
            i += 1;
        }
        assert(outcomes@.take(outcomes.len() as int) =~= outcomes@);
        s
    }
}

/// The lower-cased extension of a path, the key platforms are matched by.
pub fn file_extension_lower(path: &str) -> (r: Option<String>)
    ensures
        match crate::pathname::extension_spec(path@) {
            Some(e) => r matches Some(s) && s@ == lowercase_of(e),
            None => r is None,
        },
{
    match crate::pathname::extension(&chars_of(path)) {
        Some(e) => {
            let s = string_of(e.as_slice());
            Some(to_lowercase(s.as_str()))
        },
        None => None,
    }
}

// ----- removal of stale rows -----

/// Whether a stored path lies in the scanned directory `dir`: it is the directory itself,
/// or begins with the directory followed by a separator. A sibling whose name merely
/// begins with the same letters (`/roms2` beside `/roms`) is not in it.
pub open spec fn under_dir(path: Seq<char>, dir: Seq<char>) -> bool {
    let prefix = crate::paths::join_spec(dir, Seq::empty());
    path == dir || (prefix.len() <= path.len() && path.subrange(0, prefix.len() as int) == prefix)
}

/// The stored paths, in stored order, that lie in `dir` and were not found on disk by
/// this scan: the games to delete. Games of other directories are left alone.
pub open spec fn stale_spec(dir: Seq<char>, stored: Seq<Seq<char>>, found: Seq<Seq<char>>) -> Seq<Seq<char>> {
    stored.filter(|p: Seq<char>| under_dir(p, dir) && !found.contains(p))
}

fn has_prefix(s: &[char], p: &[char]) -> (b: bool)
    ensures
        b == (p@.len() <= s@.len() && s@.subrange(0, p@.len() as int) == p@),
{
    if p.len() > s.len() {
        return false;
    }
    let mut i: usize = 0;
    while i < p.len()
        invariant
            p.len() <= s.len(),
            i <= p.len(),
            forall|j: int| 0 <= j < i ==> s@[j] == p@[j],
        decreases p.len() - i,
    {
        if s[i] != p[i] {
            assert(s@.subrange(0, p@.len() as int)[i as int] != p@[i as int]);
            return false;
        }
        i += 1;
    }
    assert(s@.subrange(0, p@.len() as int) =~= p@);
    true
}

fn listed(found: &[String], path: &str) -> (b: bool)
    ensures
        b == strings_view(found@).contains(path@),
{
    let mut i: usize = 0;
    while i < found.len()
        invariant
            i <= found.len(),
            forall|j: int| 0 <= j < i ==> found@[j]@ != path@,
        decreases found.len() - i,
    {
        if crate::text::str_eq(found[i].as_str(), path) {
            assert(strings_view(found@)[i as int] == path@);
            return true;
        }
        i += 1;
    }
    proof {
        if strings_view(found@).contains(path@) {
            let k = choose|k: int| 0 <= k < strings_view(found@).len() && strings_view(found@)[k] == path@;
            assert(found@[k]@ == path@);
        }
    }
    false
}

/// The games to delete after scanning `dir_path` (see [`stale_spec`]): of the `stored`
/// paths, those in the directory that are not among the `found` ones.
pub fn stale_rows(dir_path: &str, stored: &[String], found: &[String]) -> (r: Vec<String>)
    ensures
        strings_view(r@) == stale_spec(dir_path@, strings_view(stored@), strings_view(found@)),
{
    let prefix = crate::paths::join(dir_path, "");
    let pre = chars_of(prefix.as_str());
    let ghost sv = strings_view(stored@);
    let ghost keep = |p: Seq<char>| under_dir(p, dir_path@) && !strings_view(found@).contains(p);
    let mut r: Vec<String> = Vec::new();
    let mut i: usize = 0;
    proof {
        assert(""@ =~= Seq::<char>::empty()) by {
            reveal_strlit("");
        }
    }
    while i < stored.len()
        invariant
            i <= stored.len(),
            sv == strings_view(stored@),
            pre@ == crate::paths::join_spec(dir_path@, Seq::empty()),
            keep == (|p: Seq<char>| under_dir(p, dir_path@) && !strings_view(found@).contains(p)),
            strings_view(r@) == sv.take(i as int).filter(keep),
        decreases stored.len() - i,
    {
        let path = stored[i].as_str();
        let inside = crate::text::str_eq(path, dir_path) || has_prefix(chars_of(path).as_slice(), pre.as_slice());
        let take = inside && !listed(found, path);
        assert(take == keep(sv[i as int]));
        assert(sv.take(i + 1).drop_last() =~= sv.take(i as int));
        assert(sv.take(i + 1).last() == sv[i as int]);
        let ghost before = strings_view(r@);
        if take {
            r.push(stored[i].clone());
            assert(strings_view(r@) =~= before.push(sv[i as int]));
        }
        proof {
            reveal(Seq::filter);
            assert(sv.take(i + 1).filter(keep) == (if keep(sv[i as int]) {
                sv.take(i as int).filter(keep).push(sv[i as int])
            } else {
                sv.take(i as int).filter(keep)
            }));
        }
        i += 1;
    }
    assert(sv.take(stored.len() as int) =~= sv);
    r
}

proof fn lemma_all_unchanged_counts(outcomes: Seq<FileOutcome>)
    requires
        forall|i: int| 0 <= i < outcomes.len() ==> outcomes[i] == FileOutcome::Unchanged,
    ensures
        count_outcome(outcomes, FileOutcome::Unchanged) == outcomes.len(),
        count_outcome(outcomes, FileOutcome::Added) == 0,
        count_outcome(outcomes, FileOutcome::Updated) == 0,
        count_outcome(outcomes, FileOutcome::Skipped) == 0,
    decreases outcomes.len(),
{
    if outcomes.len() > 0 {
        lemma_all_unchanged_counts(outcomes.drop_last());
    }
}

proof fn lemma_nothing_stale(dir: Seq<char>, stored: Seq<Seq<char>>, found: Seq<Seq<char>>)
    requires
        forall|p: Seq<char>| stored.contains(p) && under_dir(p, dir) ==> found.contains(p),
    ensures
        stale_spec(dir, stored, found).len() == 0,
    decreases stored.len(),
{
    reveal(Seq::filter);
    if stored.len() > 0 {
        let rest = stored.drop_last();
        assert forall|p: Seq<char>| rest.contains(p) && under_dir(p, dir) implies found.contains(p) by {
            let k = choose|k: int| 0 <= k < rest.len() && rest[k] == p;
            assert(stored[k] == p);
        }
        lemma_nothing_stale(dir, rest, found);
        assert(stored.contains(stored.last())) by {
            assert(stored[stored.len() - 1] == stored.last());
        }
    }
}

/// Scanning again with nothing changed on disk changes nothing: when every file's verdict
/// is "unchanged" (see [`lemma_rescan_of_stored_file`]) and every stored game of the
/// directory was found again, the tally counts every file as unchanged, none added,
/// updated or skipped, and no game is deleted.
pub proof fn lemma_rescan_changes_nothing(
    outcomes: Seq<FileOutcome>,
    dir: Seq<char>,
    stored: Seq<Seq<char>>,
    found: Seq<Seq<char>>,
)
    requires
        forall|i: int| 0 <= i < outcomes.len() ==> outcomes[i] == FileOutcome::Unchanged,
        forall|p: Seq<char>| stored.contains(p) && under_dir(p, dir) ==> found.contains(p),
    ensures
        count_outcome(outcomes, FileOutcome::Unchanged) == outcomes.len(),
        count_outcome(outcomes, FileOutcome::Added) == 0,
        count_outcome(outcomes, FileOutcome::Updated) == 0,
        count_outcome(outcomes, FileOutcome::Skipped) == 0,
        stale_spec(dir, stored, found).len() == 0,
{
    lemma_all_unchanged_counts(outcomes);
    lemma_nothing_stale(dir, stored, found);
}

} // verus!
