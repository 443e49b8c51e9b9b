//! The game list query: filter, full-text search terms, sort order and paging, turned
//! into SQL text and its parameters. The application runs the statements.

use vstd::prelude::*;
use crate::archive::{join_spec, strings_view};
use crate::db::models::Platform;
use crate::text::{
    chars_of, is_alphanumeric, is_white_space, is_whitespace, push_char, push_str, string_of,
    unicode_alphanumeric,
};

verus! {

/// Games per page unless the filter says otherwise.
pub const DEFAULT_PAGE_SIZE: u32 = 50;

/// Games per page unless the filter says otherwise.
pub fn default_page_size() -> (n: u32)
    ensures
        n == DEFAULT_PAGE_SIZE,
{
    DEFAULT_PAGE_SIZE
}

/// The column a game list is sorted by.
#[derive(Debug, Clone, Copy, PartialEq, Eq, Structural)]
pub enum SortField {
    Title,
    LastPlayed,
    AddedAt,
}

pub open spec fn column_spec(f: SortField) -> Seq<char> {
    match f {
        SortField::Title => "g.sort_title"@,
        SortField::LastPlayed => "g.last_played"@,
        SortField::AddedAt => "g.added_at"@,
    }
}

impl SortField {
    /// The SQL column: titles sort by their sort title.
    pub fn column(self) -> (c: &'static str)
        ensures
            c@ == column_spec(self),
    {
        match self {
            SortField::Title => "g.sort_title",
            SortField::LastPlayed => "g.last_played",
            SortField::AddedAt => "g.added_at",
        }
    }
}

/// Ascending or descending.
#[derive(Debug, Clone, Copy, PartialEq, Eq, Structural)]
pub enum SortDirection {
    Asc,
    Desc,
}

pub open spec fn direction_spec(d: SortDirection) -> Seq<char> {
    match d {
        SortDirection::Asc => "ASC"@,
        SortDirection::Desc => "DESC"@,
    }
}

/// Each sort field orders by its own column of the games table: the date added by
/// `added_at`, the last play by `last_played`, titles by `sort_title`; so different
/// fields never sort by the same column. The two directions are different keywords.
pub proof fn lemma_sort_columns_are_their_own(a: SortField, b: SortField, x: SortDirection, y: SortDirection)
    ensures
        column_spec(SortField::AddedAt) == "g.added_at"@,
        column_spec(SortField::LastPlayed) == "g.last_played"@,
        column_spec(SortField::Title) == "g.sort_title"@,
        a != b ==> column_spec(a) != column_spec(b),
        direction_spec(SortDirection::Asc) == "ASC"@,
        direction_spec(SortDirection::Desc) == "DESC"@,
        x != y ==> direction_spec(x) != direction_spec(y),
{
    reveal_strlit("g.added_at");
    reveal_strlit("g.last_played");
    reveal_strlit("g.sort_title");
    reveal_strlit("ASC");
    reveal_strlit("DESC");
    if a != b && column_spec(a) == column_spec(b) {
        assert(column_spec(a).len() == column_spec(b).len());
        assert(column_spec(a)[2] == column_spec(b)[2]);
    }
    if x != y && direction_spec(x) == direction_spec(y) {
        assert(direction_spec(x).len() == direction_spec(y).len());
    }
}

impl SortDirection {
    /// The SQL keyword.
    pub fn sql(self) -> (s: &'static str)
        ensures
            s@ == direction_spec(self),
    {
        match self {
            SortDirection::Asc => "ASC",
            SortDirection::Desc => "DESC",
        }
    }
}

/// A game list request. Every filter is optional; sort and paging have defaults.
#[derive(Debug)]
pub struct GameFilter {
    pub platform_id: Option<i64>,
    /// Free-text search over titles and descriptions.
    pub search: Option<String>,
    pub favorites_only: bool,
    pub sort: SortField,
    pub sort_direction: SortDirection,
    pub page: u32,
    pub page_size: u32,
}

impl GameFilter {
    /// No filter: every game, by title ascending, first page of [`DEFAULT_PAGE_SIZE`].
    pub fn default_filter() -> (f: GameFilter)
        ensures
            f.platform_id is None,
            f.search is None,
            !f.favorites_only,
            f.sort == SortField::Title,
            f.sort_direction == SortDirection::Asc,
            f.page == 0,
            f.page_size == DEFAULT_PAGE_SIZE,
    {
        GameFilter {
            platform_id: None,
            search: None,
            favorites_only: false,
            sort: SortField::Title,
            sort_direction: SortDirection::Asc,
            page: 0,
            page_size: DEFAULT_PAGE_SIZE,
        }
    }
}

impl Default for GameFilter {
    fn default() -> (f: GameFilter)
        ensures
            f.platform_id is None,
            f.search is None,
            !f.favorites_only,
            f.sort == SortField::Title,
            f.sort_direction == SortDirection::Asc,
            f.page == 0,
            f.page_size == DEFAULT_PAGE_SIZE,
    {
        GameFilter::default_filter()
    }
}

/// A platform with the number of games it has.
#[derive(Debug)]
pub struct PlatformSummary {
    pub platform: Platform,
    pub game_count: i64,
}

// ----- full-text search -----

/// The words of `s`: its maximal runs of non-whitespace (`str::split_whitespace`).
pub open spec fn words(s: Seq<char>) -> Seq<Seq<char>>
    decreases s.len(),
{
    words_from(s, Seq::empty())
}

/// The words of `s`, where `cur` is a word under way before `s`.
pub open spec fn words_from(s: Seq<char>, cur: Seq<char>) -> Seq<Seq<char>>
    decreases s.len(),
{
    if s.len() == 0 {
        if cur.len() > 0 { seq![cur] } else { Seq::empty() }
    } else if is_white_space(s[0]) {
        if cur.len() > 0 {
            seq![cur] + words_from(s.drop_first(), Seq::empty())
        } else {
            words_from(s.drop_first(), Seq::empty())
        }
    } else {
        words_from(s.drop_first(), cur.push(s[0]))
    }
}

/// A word with everything but letters and digits removed.
pub open spec fn alnum_only(w: Seq<char>) -> Seq<char> {
    w.filter(|c: char| unicode_alphanumeric(c))
}

/// The FTS5 terms of a search: each word, cleaned to its letters and digits, as a prefix
/// search; words with nothing left are dropped.
pub open spec fn fts_terms(search: Seq<char>) -> Seq<Seq<char>> {
    words(search).map_values(|w: Seq<char>| alnum_only(w)).filter(|c: Seq<char>| c.len() > 0).map_values(
        |c: Seq<char>| c + "*"@,
    )
}

/// The FTS5 `MATCH` text of a search (terms joined by spaces, an implicit AND), or
/// `None` when no term is left.
pub open spec fn fts_query_spec(search: Seq<char>) -> Option<Seq<char>> {
    if fts_terms(search).len() == 0 { None } else { Some(join_spec(fts_terms(search), " "@)) }
}

proof fn lemma_words_step(s: Seq<char>, cur: Seq<char>, i: int)
    requires
        0 <= i < s.len(),
    ensures
        words_from(s.subrange(i, s.len() as int), cur) == (if is_white_space(s[i]) {
            if cur.len() > 0 {
                seq![cur] + words_from(s.subrange(i + 1, s.len() as int), Seq::empty())
            } else {
                words_from(s.subrange(i + 1, s.len() as int), Seq::empty())
            }
        } else {
            words_from(s.subrange(i + 1, s.len() as int), cur.push(s[i]))
        }),
{
    assert(s.subrange(i, s.len() as int).drop_first() =~= s.subrange(i + 1, s.len() as int));
}

/// The words of a search, exec form of [`words`].
fn split_words(s: &[char]) -> (v: Vec<Vec<char>>)
    ensures
        v@.map_values(|w: Vec<char>| w@) == words(s@),
{
    let mut v: Vec<Vec<char>> = Vec::new();
    let mut cur: Vec<char> = Vec::new();
    let mut i: usize = 0;
    assert(s@.subrange(0, s.len() as int) =~= s@);
    while i < s.len()
        invariant
            i <= s.len(),
            v@.map_values(|w: Vec<char>| w@) + words_from(s@.subrange(i as int, s.len() as int), cur@) == words(s@),
        decreases s.len() - i,
    {
        proof {
            lemma_words_step(s@, cur@, i as int);
        }
        let ghost before = v@.map_values(|w: Vec<char>| w@);
        let ghost c0 = cur@;
        let ghost rest1 = s@.subrange(i + 1, s.len() as int);
        if is_whitespace(s[i]) {
            if cur.len() > 0 {
                let word = cur;
                v.push(word);
                cur = Vec::new();
                assert(v@.map_values(|w: Vec<char>| w@) =~= before + seq![c0]);
                assert(cur@ =~= Seq::<char>::empty());
                assert(before + seq![c0] + words_from(rest1, Seq::empty()) =~= before + (seq![c0] + words_from(
                    rest1,
                    Seq::empty(),
                )));
            } else {
                assert(c0 =~= Seq::<char>::empty());
            }
        } else {
            cur.push(s[i]);
        }
        i += 1;
    }
    let ghost before = v@.map_values(|w: Vec<char>| w@);
    assert(s@.subrange(s.len() as int, s.len() as int) =~= Seq::<char>::empty());
    if cur.len() > 0 {
        let ghost c = cur@;
        v.push(cur);
        assert(v@.map_values(|w: Vec<char>| w@) =~= before + seq![c]);
    }
    assert(v@.map_values(|w: Vec<char>| w@) =~= words(s@));
    v
}

fn clean_word(w: &[char]) -> (c: Vec<char>)
    ensures
        c@ == alnum_only(w@),
{
    let mut c: Vec<char> = Vec::new();
    let mut i: usize = 0;
    while i < w.len()
        invariant
            i <= w.len(),
            c@ == alnum_only(w@.take(i as int)),
        decreases w.len() - i,
    {
        proof {
            reveal(Seq::filter);
            assert(w@.take(i + 1).drop_last() =~= w@.take(i as int));
        }
        if is_alphanumeric(w[i]) {
            c.push(w[i]);
        }
        i += 1;
    }
    assert(w@.take(w.len() as int) =~= w@);
    c
}

/// The FTS5 `MATCH` text of a free-text search (see [`fts_query_spec`]).
pub fn fts_query(search: &str) -> (q: Option<String>)
    ensures
        match fts_query_spec(search@) {
            Some(t) => q matches Some(s) && s@ == t,
            None => q is None,
        },
{
    let ws = split_words(chars_of(search).as_slice());
    let ghost wv = ws@.map_values(|w: Vec<char>| w@);
    let ghost cleaned = wv.map_values(|w: Seq<char>| alnum_only(w));
    let ghost kept = cleaned.filter(|c: Seq<char>| c.len() > 0);
    let mut terms: Vec<String> = Vec::new();
    let mut i: usize = 0;
    while i < ws.len()
        invariant
            wv == ws@.map_values(|w: Vec<char>| w@),
            wv == words(search@),
            cleaned == wv.map_values(|w: Seq<char>| alnum_only(w)),
            i <= ws.len(),
            strings_view(terms@) == cleaned.take(i as int).filter(|c: Seq<char>| c.len() > 0).map_values(
                |c: Seq<char>| c + "*"@,
            ),
        decreases ws.len() - i,
    {
        let c = clean_word(ws[i].as_slice());
        assert(c@ == cleaned[i as int]);
        let ghost prev = cleaned.take(i as int).filter(|c: Seq<char>| c.len() > 0);
        proof {
            reveal(Seq::filter);
            assert(cleaned.take(i + 1).drop_last() =~= cleaned.take(i as int));
        }
        if c.len() > 0 {
            let mut t = string_of(c.as_slice());
            push_str(&mut t, "*");
            let ghost before = strings_view(terms@);
            terms.push(t);
            assert(strings_view(terms@) =~= before.push(c@ + "*"@));
            assert(cleaned.take(i + 1).filter(|c: Seq<char>| c.len() > 0) == prev.push(c@));
            assert(prev.push(c@).map_values(|c: Seq<char>| c + "*"@) =~= prev.map_values(|c: Seq<char>| c + "*"@).push(
                c@ + "*"@,
            ));
        } else {
            assert(cleaned.take(i + 1).filter(|c: Seq<char>| c.len() > 0) == prev);
        }
        i += 1;
    }
    assert(cleaned.take(ws@.len() as int) =~= cleaned);
    assert(strings_view(terms@) == fts_terms(search@));
    if terms.len() == 0 {
        None
    } else {
        Some(crate::archive::join(terms.as_slice(), " "))
    }
}

// ----- the list query -----

/// A query parameter.
#[derive(Debug)]
pub enum SqlParam {
    Text(String),
    Int(i64),
    UInt(u32),
}

/// The columns of a game row, in the order rows are read.
pub const GAME_COLUMNS: &'static str = "g.id, g.platform_id, g.title, g.sort_title, g.rom_path, g.rom_size, g.archive_inner, g.crc32, g.md5, g.sha1, g.description, g.developer, g.publisher, g.genre, g.players, g.release_date, g.rating, g.region, g.cover_path, g.screenshot_path, g.wheel_path, g.video_path, g.scrape_status, g.scraped_at, g.last_played, g.play_count, g.play_time_seconds, g.favorite, g.added_at, g.file_mtime, g.cover_width, g.cover_height";

/// The conditions of a list query, in order: full-text match, platform, favourites.
pub open spec fn list_conditions(fts: bool, platform: bool, favorites: bool) -> Seq<Seq<char>> {
    (if fts { seq!["f.games_fts MATCH ?"@] } else { Seq::empty() }) + (if platform {
        seq!["g.platform_id = ?"@]
    } else {
        Seq::empty()
    }) + (if favorites { seq!["g.favorite = 1"@] } else { Seq::empty() })
}

/// The SQL text of a list query.
pub open spec fn list_sql_spec(filter: GameFilter) -> Seq<char> {
    let fts = match filter.search {
        Some(s) => fts_query_spec(s@) is Some,
        None => false,
    };
    let conds = list_conditions(fts, filter.platform_id is Some, filter.favorites_only);
    "SELECT "@ + GAME_COLUMNS@ + " FROM games g"@ + (if fts { " JOIN games_fts f ON f.rowid = g.id"@ } else {
        Seq::empty()
    }) + (if conds.len() > 0 { " WHERE "@ + join_spec(conds, " AND "@) } else { Seq::empty() }) + " ORDER BY "@
        + column_spec(filter.sort) + " "@ + direction_spec(filter.sort_direction) + " LIMIT ? OFFSET ?"@
}

/// Whether `p` is the parameter list of a list query: the match text, the platform id,
/// the page size and the offset of the page (page times page size, wrapping in `u32`).
pub open spec fn is_list_params(filter: GameFilter, p: Seq<SqlParam>) -> bool {
    let fts = match filter.search {
        Some(s) => fts_query_spec(s@),
        None => None,
    };
    let n_fts: int = if fts is Some { 1 } else { 0 };
    let n_platform: int = if filter.platform_id is Some { 1 } else { 0 };
    &&& p.len() == n_fts + n_platform + 2
    &&& (fts matches Some(t) ==> p[0] matches SqlParam::Text(s) && s@ == t)
    &&& (filter.platform_id matches Some(id) ==> p[n_fts] == SqlParam::Int(id))
    &&& p[n_fts + n_platform] == SqlParam::UInt(filter.page_size)
    &&& p[n_fts + n_platform + 1] == SqlParam::UInt(((filter.page as nat * filter.page_size as nat) % 0x1_0000_0000) as u32)
}

/// The SQL text and parameters that list the games a filter asks for.
pub fn list_games_query(filter: &GameFilter) -> (r: (String, Vec<SqlParam>))
    ensures
        r.0@ == list_sql_spec(*filter),
        is_list_params(*filter, r.1@),
{
    let mut sql = String::from_str("SELECT ");
    push_str(&mut sql, GAME_COLUMNS);
    push_str(&mut sql, " FROM games g");
    let mut conditions: Vec<String> = Vec::new();
    let mut params: Vec<SqlParam> = Vec::new();
    let fts_match = match &filter.search {
        Some(s) => fts_query(s.as_str()),
        None => None,
    };
    let has_fts = fts_match.is_some();
    match fts_match {
        Some(m) => {
            push_str(&mut sql, " JOIN games_fts f ON f.rowid = g.id");
            conditions.push(String::from_str("f.games_fts MATCH ?"));
            params.push(SqlParam::Text(m));
        },
        None => {},
    }
    if let Some(platform_id) = filter.platform_id {
        conditions.push(String::from_str("g.platform_id = ?"));
        params.push(SqlParam::Int(platform_id));
    }
    if filter.favorites_only {
        conditions.push(String::from_str("g.favorite = 1"));
    }
    assert(strings_view(conditions@) =~= list_conditions(has_fts, filter.platform_id is Some, filter.favorites_only));
    if conditions.len() > 0 {
        push_str(&mut sql, " WHERE ");
        let joined = crate::archive::join(conditions.as_slice(), " AND ");
        push_str(&mut sql, joined.as_str());
    }
    push_str(&mut sql, " ORDER BY ");
    push_str(&mut sql, filter.sort.column());
    push_str(&mut sql, " ");
    push_str(&mut sql, filter.sort_direction.sql());
    push_str(&mut sql, " LIMIT ? OFFSET ?");
    params.push(SqlParam::UInt(filter.page_size));
    let offset = filter.page.wrapping_mul(filter.page_size);
    params.push(SqlParam::UInt(offset));
    proof {
        assert(offset == ((filter.page as nat * filter.page_size as nat) % 0x1_0000_0000) as u32);
    }
    assert(sql@ =~= list_sql_spec(*filter));
    (sql, params)
}

/// The SQL text of the pending-games query, and its parameter when a platform is given.
pub open spec fn pending_sql_spec(platform: bool) -> Seq<char> {
    "SELECT "@ + GAME_COLUMNS@ + " FROM games g WHERE g.scrape_status = 'pending'"@ + (if platform {
        " AND g.platform_id = ?"@
    } else {
        Seq::empty()
    }) + " ORDER BY g.id"@
}

/// The games still waiting to be scraped, optionally of one platform, in id order.
pub fn pending_games_query(platform_id: Option<i64>) -> (r: (String, Vec<SqlParam>))
    ensures
        r.0@ == pending_sql_spec(platform_id is Some),
        match platform_id {
            Some(id) => r.1@ == seq![SqlParam::Int(id)],
            None => r.1@.len() == 0,
        },
{
    let mut sql = String::from_str("SELECT ");
    push_str(&mut sql, GAME_COLUMNS);
    push_str(&mut sql, " FROM games g WHERE g.scrape_status = 'pending'");
    let mut params: Vec<SqlParam> = Vec::new();
    if let Some(id) = platform_id {
        push_str(&mut sql, " AND g.platform_id = ?");
        params.push(SqlParam::Int(id));
    }
    push_str(&mut sql, " ORDER BY g.id");
    assert(sql@ =~= pending_sql_spec(platform_id is Some));
    assert(params@ =~= (match platform_id {
        Some(id) => seq![SqlParam::Int(id)],
        None => params@,
    }));
    (sql, params)
}

} // verus!
