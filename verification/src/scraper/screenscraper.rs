//! The ScreenScraper `jeuInfos.php` lookup: the query it sends, how the HTTP status and
//! the reply are read, and how metadata is extracted from a reply with the region and
//! language priorities applied.
//!
//! One request carries every identifier at hand (hashes, size, file name, system); the
//! server tries the hashes first and the name after them.

use vstd::prelude::*;
use crate::scraper::entities::{unescape_html_entities, unescape_spec};
use crate::scraper::types::{
    copy_medias, Genre, Jeu, JeuInfosBody, JeuInfosResponse, LangText, Media, OneOrMany,
    RegionText,
};
use crate::text::{
    chars_eq, chars_of, contains_chars, decimal_digits, i64_decimal, lowercase_of,
    parse_i64, parse_i64_spec, parse_u32_radix, parse_u32_spec, parse_u64, parse_u64_spec,
    push_decimal, push_i64, push_str, seq_contains, str_eq, string_of, to_lowercase,
};

verus! {

/// Developer and user credentials for the API. The user pair is optional: without it the
/// quota is small, which is no error.
#[derive(Debug)]
pub struct ScreenScraperCredentials {
    pub devid: String,
    pub devpassword: String,
    pub ssid: Option<String>,
    pub sspassword: Option<String>,
}

/// What identifies a ROM to the API: its hashes, size and file name, and the system id.
#[derive(Debug)]
pub struct RomIdentity<'a> {
    pub crc32: Option<&'a str>,
    pub md5: Option<&'a str>,
    pub sha1: Option<&'a str>,
    pub size: Option<u64>,
    pub filename: &'a str,
    pub systemeid: i64,
}

/// Metadata extracted from a reply, with the priorities applied and entities decoded.
/// The rating is kept as the text the API sent; the application reads it as a number.
#[derive(Debug)]
pub struct GameMetadata {
    pub title: String,
    pub description: Option<String>,
    pub developer: Option<String>,
    pub publisher: Option<String>,
    pub genre: Option<String>,
    pub players: Option<i64>,
    pub release_date: Option<String>,
    pub rating_text: Option<String>,
    pub region: Option<String>,
    pub medias: Vec<Media>,
}

/// The caller's quota as a reply reports it.
#[derive(Debug, Clone, Copy, PartialEq, Eq, Structural)]
pub struct QuotaInfo {
    pub maxthreads: u32,
    pub requests_today: u64,
    pub max_requests_per_day: u64,
    pub closed_for_nonmember: bool,
    pub closed_for_leecher: bool,
}

/// A game that is not in the database is a lawful answer, not an error.
#[derive(Debug)]
pub enum ScrapeOutcome {
    Found(GameMetadata),
    NotFound,
}

#[derive(Debug)]
pub struct LookupSuccess {
    pub outcome: ScrapeOutcome,
    pub quota: Option<QuotaInfo>,
}

/// Why a lookup failed. `RateLimited` asks for a later retry; the others do not.
#[derive(Debug)]
pub enum LookupError {
    /// HTTP 429 or 430, or an "API closed" text reply.
    RateLimited { status: u16 },
    /// Another HTTP status outside 2xx.
    HttpStatus { status: u16 },
    /// A reply that is not the expected JSON; `message` is the decoder's.
    BadJson { message: String },
}

/// The user-facing text of a lookup error. The status is given by its number.
pub open spec fn lookup_error_message(e: LookupError) -> Seq<char> {
    match e {
        LookupError::RateLimited { status } => "ScreenScraper kvota viršyta arba API laikinai uždaryta (HTTP "@
            + crate::text::decimal_digits(status as nat) + ")"@,
        LookupError::HttpStatus { status } => "ScreenScraper HTTP "@ + crate::text::decimal_digits(status as nat),
        LookupError::BadJson { message } => "ScreenScraper JSON parsinimo klaida: "@ + message@,
    }
}

impl LookupError {
    /// The user-facing text (see [`lookup_error_message`]).
    pub fn message(&self) -> (m: String)
        ensures
            m@ == lookup_error_message(*self),
    {
        match self {
            LookupError::RateLimited { status } => {
                let mut digits: Vec<char> = Vec::new();
                crate::text::push_decimal(&mut digits, *status as u64);
                let mut m = String::from_str("ScreenScraper kvota viršyta arba API laikinai uždaryta (HTTP ");
                push_str(&mut m, string_of(digits.as_slice()).as_str());
                push_str(&mut m, ")");
                m
            },
            LookupError::HttpStatus { status } => {
                let mut digits: Vec<char> = Vec::new();
                crate::text::push_decimal(&mut digits, *status as u64);
                let mut m = String::from_str("ScreenScraper HTTP ");
                push_str(&mut m, string_of(digits.as_slice()).as_str());
                m
            },
            LookupError::BadJson { message } => {
                let mut m = String::from_str("ScreenScraper JSON parsinimo klaida: ");
                push_str(&mut m, message.as_str());
                m
            },
        }
    }
}

// ----- optional strings -----

pub open spec fn opt_view(o: Option<String>) -> Option<Seq<char>> {
    match o {
        Some(s) => Some(s@),
        None => None,
    }
}

// ----- priorities -----

pub open spec fn keys_view(v: Seq<Vec<char>>) -> Seq<Seq<char>> {
    v.map_values(|k: Vec<char>| k@)
}

/// Region priority for titles and dates.
pub open spec fn region_priority() -> Seq<Seq<char>> {
    seq!["wor"@, "eu"@, "us"@, "jp"@, "ss"@]
}

/// Language priority for descriptions and genres.
pub open spec fn lang_priority() -> Seq<Seq<char>> {
    seq!["en"@, "lt"@]
}

/// The index of the first key equal to `key`.
pub open spec fn index_of_key(keys: Seq<Seq<char>>, key: Seq<char>) -> Option<int>
    decreases keys.len(),
{
    if keys.len() == 0 {
        None
    } else if keys[0] == key {
        Some(0)
    } else {
        match index_of_key(keys.drop_first(), key) {
            Some(i) => Some(i + 1),
            None => None,
        }
    }
}

/// The item to take: the first one carrying the highest-priority key that occurs at
/// all; failing that, the first item.
pub open spec fn priority_index(keys: Seq<Seq<char>>, priority: Seq<Seq<char>>) -> Option<int>
    decreases priority.len(),
{
    if priority.len() == 0 {
        if keys.len() > 0 { Some(0) } else { None }
    } else {
        match index_of_key(keys, priority[0]) {
            Some(i) => Some(i),
            None => priority_index(keys, priority.drop_first()),
        }
    }
}

pub proof fn lemma_index_of_key(keys: Seq<Seq<char>>, key: Seq<char>)
    ensures
        index_of_key(keys, key) matches Some(i) ==> 0 <= i < keys.len() && keys[i] == key
            && forall|j: int| 0 <= j < i ==> keys[j] != key,
        index_of_key(keys, key) is None ==> forall|j: int| 0 <= j < keys.len() ==> keys[j] != key,
    decreases keys.len(),
{
    if keys.len() > 0 && keys[0] != key {
        let t = keys.drop_first();
        lemma_index_of_key(t, key);
        match index_of_key(t, key) {
            Some(i) => {
                assert forall|j: int| 0 <= j < i + 1 implies keys[j] != key by {
                    if j > 0 {
                        assert(keys[j] == t[j - 1]);
                    }
                }
            },
            None => {
                assert forall|j: int| 0 <= j < keys.len() implies keys[j] != key by {
                    if j > 0 {
                        assert(keys[j] == t[j - 1]);
                    }
                }
            },
        }
    }
}

/// The pick is some item exactly when there are items.
pub proof fn lemma_priority_index(keys: Seq<Seq<char>>, priority: Seq<Seq<char>>)
    ensures
        priority_index(keys, priority) matches Some(i) ==> 0 <= i < keys.len(),
        priority_index(keys, priority) is None <==> keys.len() == 0,
    decreases priority.len(),
{
    if priority.len() > 0 {
        lemma_index_of_key(keys, priority[0]);
        lemma_priority_index(keys, priority.drop_first());
    }
}

pub open spec fn region_keys(items: Seq<RegionText>) -> Seq<Seq<char>> {
    items.map_values(|r: RegionText| r.region@)
}

pub open spec fn lang_keys(items: Seq<LangText>) -> Seq<Seq<char>> {
    items.map_values(|l: LangText| l.langue@)
}

/// The text chosen by region priority, with entities decoded.
pub open spec fn region_pick(items: Seq<RegionText>) -> Option<Seq<char>> {
    match priority_index(region_keys(items), region_priority()) {
        Some(i) => Some(unescape_spec(items[i].text@)),
        None => None,
    }
}

/// The text chosen by language priority, with entities decoded.
pub open spec fn lang_pick(items: Seq<LangText>) -> Option<Seq<char>> {
    match priority_index(lang_keys(items), lang_priority()) {
        Some(i) => Some(unescape_spec(items[i].text@)),
        None => None,
    }
}

/// The highest-priority region that occurs among the names, or the first name's region.
pub open spec fn available_region(items: Seq<RegionText>) -> Option<Seq<char>> {
    match priority_index(region_keys(items), region_priority()) {
        Some(i) => Some(items[i].region@),
        None => None,
    }
}

/// The genre: the first genre's name, chosen by language priority.
pub open spec fn genre_pick(genres: Seq<Genre>) -> Option<Seq<char>> {
    if genres.len() == 0 { None } else { lang_pick(genres[0].noms.items()) }
}

fn priority_keys(region: bool) -> (v: Vec<Vec<char>>)
    ensures
        keys_view(v@) == (if region { region_priority() } else { lang_priority() }),
{
    let mut v: Vec<Vec<char>> = Vec::new();
    if region {
        v.push(chars_of("wor"));
        v.push(chars_of("eu"));
        v.push(chars_of("us"));
        v.push(chars_of("jp"));
        v.push(chars_of("ss"));
    } else {
        v.push(chars_of("en"));
        v.push(chars_of("lt"));
    }
    assert(keys_view(v@) =~= (if region { region_priority() } else { lang_priority() }));
    v
}

fn index_of_key_exec(keys: &Vec<Vec<char>>, key: &Vec<char>) -> (r: Option<usize>)
    ensures
        match index_of_key(keys_view(keys@), key@) {
            Some(i) => r == Some(i as usize),
            None => r is None,
        },
{
    let ghost kv = keys_view(keys@);
    proof {
        lemma_index_of_key(kv, key@);
    }
    let mut i: usize = 0;
    while i < keys.len()
        invariant
            kv == keys_view(keys@),
            i <= keys.len(),
            forall|j: int| 0 <= j < i ==> kv[j] != key@,
        decreases keys.len() - i,
    {
        if chars_eq(&keys[i], key) {
            proof {
                lemma_index_of_key(kv, key@);
                if index_of_key(kv, key@) != Some(i as int) {
                    assert(kv[i as int] == key@);
                }
            }
            return Some(i);
        }
        i += 1;
    }
    None
}

fn priority_pick(keys: &Vec<Vec<char>>, priority: &Vec<Vec<char>>) -> (r: Option<usize>)
    ensures
        match priority_index(keys_view(keys@), keys_view(priority@)) {
            Some(i) => r == Some(i as usize),
            None => r is None,
        },
{
    let ghost kv = keys_view(keys@);
    let ghost pv = keys_view(priority@);
    let mut j: usize = 0;
    assert(pv.subrange(0, pv.len() as int) =~= pv);
    while j < priority.len()
        invariant
            kv == keys_view(keys@),
            pv == keys_view(priority@),
            j <= priority.len(),
            priority_index(kv, pv) == priority_index(kv, pv.subrange(j as int, pv.len() as int)),
        decreases priority.len() - j,
    {
        let ghost tail = pv.subrange(j as int, pv.len() as int);
        assert(tail.drop_first() =~= pv.subrange(j + 1, pv.len() as int));
        assert(tail[0] == priority@[j as int]@);
        match index_of_key_exec(keys, &priority[j]) {
            Some(i) => {
                return Some(i);
            },
            None => {},
        }
        j += 1;
    }
    assert(pv.subrange(j as int, pv.len() as int).len() == 0);
    if keys.len() > 0 { Some(0) } else { None }
}

fn region_keys_exec(items: &[RegionText]) -> (v: Vec<Vec<char>>)
    ensures
        keys_view(v@) == region_keys(items@),
{
    let mut v: Vec<Vec<char>> = Vec::new();
    let mut i: usize = 0;
    while i < items.len()
        invariant
            i <= items.len(),
            v.len() == i,
            keys_view(v@) == region_keys(items@.take(i as int)),
        decreases items.len() - i,
    {
        let k = chars_of(items[i].region.as_str());
        assert(k@ == items@[i as int].region@);
        let ghost prev = v@;
        v.push(k);
        assert forall|j: int| 0 <= j < i + 1 implies #[trigger] keys_view(v@)[j] == region_keys(items@.take(i + 1))[j] by {
            if j < i {
                assert(v@[j] == prev[j]);
                assert(keys_view(prev)[j] == region_keys(items@.take(i as int))[j]);
            }
        }
        assert(keys_view(v@) =~= region_keys(items@.take(i + 1)));
        i += 1;
    }
    assert(items@.take(items.len() as int) =~= items@);
    v
}

fn lang_keys_exec(items: &[LangText]) -> (v: Vec<Vec<char>>)
    ensures
        keys_view(v@) == lang_keys(items@),
{
    let mut v: Vec<Vec<char>> = Vec::new();
    let mut i: usize = 0;
    while i < items.len()
        invariant
            i <= items.len(),
            v.len() == i,
            keys_view(v@) == lang_keys(items@.take(i as int)),
        decreases items.len() - i,
    {
        let k = chars_of(items[i].langue.as_str());
        assert(k@ == items@[i as int].langue@);
        let ghost prev = v@;
        v.push(k);
        assert forall|j: int| 0 <= j < i + 1 implies #[trigger] keys_view(v@)[j] == lang_keys(items@.take(i + 1))[j] by {
            if j < i {
                assert(v@[j] == prev[j]);
                assert(keys_view(prev)[j] == lang_keys(items@.take(i as int))[j]);
            }
        }
        assert(keys_view(v@) =~= lang_keys(items@.take(i + 1)));
        i += 1;
    }
    assert(items@.take(items.len() as int) =~= items@);
    v
}

/// The region-priority pick of titles or dates.
pub fn pick_region_text(items: &[RegionText]) -> (r: Option<String>)
    ensures
        opt_view(r) == region_pick(items@),
{
    let keys = region_keys_exec(items);
    let priority = priority_keys(true);
    proof {
        lemma_priority_index(region_keys(items@), region_priority());
    }
    match priority_pick(&keys, &priority) {
        Some(i) => Some(unescape_html_entities(items[i].text.as_str())),
        None => None,
    }
}

/// The language-priority pick of descriptions or genre names.
pub fn pick_lang_text(items: &[LangText]) -> (r: Option<String>)
    ensures
        opt_view(r) == lang_pick(items@),
{
    let keys = lang_keys_exec(items);
    let priority = priority_keys(false);
    proof {
        lemma_priority_index(lang_keys(items@), lang_priority());
    }
    match priority_pick(&keys, &priority) {
        Some(i) => Some(unescape_html_entities(items[i].text.as_str())),
        None => None,
    }
}

/// The highest-priority region among the names.
pub fn pick_available_region(noms: &[RegionText]) -> (r: Option<String>)
    ensures
        opt_view(r) == available_region(noms@),
{
    let keys = region_keys_exec(noms);
    let priority = priority_keys(true);
    proof {
        lemma_priority_index(region_keys(noms@), region_priority());
    }
    match priority_pick(&keys, &priority) {
        Some(i) => Some(noms[i].region.clone()),
        None => None,
    }
}

/// A single item is always the pick.
proof fn lemma_pick_single(keys: Seq<Seq<char>>, priority: Seq<Seq<char>>)
    requires
        keys.len() == 1,
    ensures
        priority_index(keys, priority) == Some(0int),
    decreases priority.len(),
{
    if priority.len() > 0 {
        lemma_index_of_key(keys, priority[0]);
        lemma_pick_single(keys, priority.drop_first());
    }
}

fn pick_region_of(items: &OneOrMany<RegionText>) -> (r: Option<String>)
    ensures
        opt_view(r) == region_pick(items.items()),
{
    match items {
        OneOrMany::One(item) => {
            proof {
                assert(region_keys(items.items()).len() == 1);
                lemma_pick_single(region_keys(items.items()), region_priority());
            }
            Some(unescape_html_entities(item.text.as_str()))
        },
        OneOrMany::Many(v) => pick_region_text(v.as_slice()),
    }
}

fn pick_lang_of(items: &OneOrMany<LangText>) -> (r: Option<String>)
    ensures
        opt_view(r) == lang_pick(items.items()),
{
    match items {
        OneOrMany::One(item) => {
            proof {
                assert(lang_keys(items.items()).len() == 1);
                lemma_pick_single(lang_keys(items.items()), lang_priority());
            }
            Some(unescape_html_entities(item.text.as_str()))
        },
        OneOrMany::Many(v) => pick_lang_text(v.as_slice()),
    }
}

fn available_region_of(items: &OneOrMany<RegionText>) -> (r: Option<String>)
    ensures
        opt_view(r) == available_region(items.items()),
{
    match items {
        OneOrMany::One(item) => {
            proof {
                assert(region_keys(items.items()).len() == 1);
                lemma_pick_single(region_keys(items.items()), region_priority());
            }
            Some(item.region.clone())
        },
        OneOrMany::Many(v) => pick_available_region(v.as_slice()),
    }
}

/// The genre: the first genre's name, chosen by language priority.
pub fn pick_genre(genres: &[Genre]) -> (r: Option<String>)
    ensures
        opt_view(r) == genre_pick(genres@),
{
    if genres.len() == 0 {
        None
    } else {
        pick_lang_of(&genres[0].noms)
    }
}

fn copy_medias_of(items: &OneOrMany<Media>) -> (r: Vec<Media>)
    ensures
        r@ == items.items(),
{
    match items {
        OneOrMany::One(item) => {
            let mut v = Vec::new();
            v.push(item.duplicate());
            v
        },
        OneOrMany::Many(v) => copy_medias(v.as_slice()),
    }
}

/// Whether `m` is the metadata that [`extract_metadata`] takes from `jeu`.
pub open spec fn is_metadata_of(m: GameMetadata, jeu: Jeu) -> bool {
    &&& m.title@ == (match region_pick(jeu.noms.items()) {
        Some(t) => t,
        None => Seq::<char>::empty(),
    })
    &&& opt_view(m.description) == lang_pick(jeu.synopsis.items())
    &&& opt_view(m.developer) == (match jeu.developpeur {
        Some(d) => Some(unescape_spec(d.text@)),
        None => None,
    })
    &&& opt_view(m.publisher) == (match jeu.editeur {
        Some(e) => Some(unescape_spec(e.text@)),
        None => None,
    })
    &&& opt_view(m.genre) == genre_pick(jeu.genres.items())
    &&& m.players == (match jeu.joueurs {
        Some(j) => parse_i64_spec(j.text@),
        None => None,
    })
    &&& opt_view(m.release_date) == region_pick(jeu.dates.items())
    &&& opt_view(m.rating_text) == (match jeu.note {
        Some(n) => Some(n.text@),
        None => None,
    })
    &&& opt_view(m.region) == available_region(jeu.noms.items())
    &&& m.medias@ == jeu.medias.items()
}

/// Metadata from a game record: title and date by region priority, description and
/// genre by language priority, entities decoded in every free-text field, the player
/// count read as an integer (absent when it is not one).
pub fn extract_metadata(jeu: &Jeu) -> (m: GameMetadata)
    ensures
        is_metadata_of(m, *jeu),
{
    let title = match pick_region_of(&jeu.noms) {
        Some(t) => t,
        None => String::new(),
    };
    let developer = match &jeu.developpeur {
        Some(d) => Some(unescape_html_entities(d.text.as_str())),
        None => None,
    };
    let publisher = match &jeu.editeur {
        Some(e) => Some(unescape_html_entities(e.text.as_str())),
        None => None,
    };
    let genre = match &jeu.genres {
        OneOrMany::One(g) => {
            assert(jeu.genres.items()[0] == *g);
            pick_lang_of(&g.noms)
        },
        OneOrMany::Many(v) => pick_genre(v.as_slice()),
    };
    let players = match &jeu.joueurs {
        Some(j) => parse_i64(&chars_of(j.text.as_str())),
        None => None,
    };
    let rating_text = match &jeu.note {
        Some(n) => Some(n.text.clone()),
        None => None,
    };
    GameMetadata {
        title,
        description: pick_lang_of(&jeu.synopsis),
        developer,
        publisher,
        genre,
        players,
        release_date: pick_region_of(&jeu.dates),
        rating_text,
        region: available_region_of(&jeu.noms),
        medias: copy_medias_of(&jeu.medias),
    }
}

// ----- quota -----

/// The quota a reply body reports: `None` without a user block. A number that does not
/// read as one counts as 1 thread, or 0 requests.
pub open spec fn quota_spec(body: JeuInfosBody) -> Option<QuotaInfo> {
    match body.ssuser {
        None => None,
        Some(u) => Some(QuotaInfo {
            maxthreads: match parse_u32_spec(u.maxthreads@, 10) {
                Some(v) => v,
                None => 1,
            },
            requests_today: match parse_u64_spec(u.requeststoday@) {
                Some(v) => v,
                None => 0,
            },
            max_requests_per_day: match parse_u64_spec(u.maxrequestsperday@) {
                Some(v) => v,
                None => 0,
            },
            closed_for_nonmember: match body.serveurs {
                Some(s) => s.closefornomember@ == seq!['1'],
                None => false,
            },
            closed_for_leecher: match body.serveurs {
                Some(s) => s.closeforleecher@ == seq!['1'],
                None => false,
            },
        }),
    }
}

fn is_one(s: &String) -> (b: bool)
    ensures
        b == (s@ == seq!['1']),
{
    let c = chars_of(s.as_str());
    let r = c.len() == 1 && c[0] == '1';
    assert(r ==> c@ =~= seq!['1']);
    assert(c@ == seq!['1'] ==> c@[0] == '1');
    r
}

/// The quota in a reply body (see [`quota_spec`]).
pub fn extract_quota(body: &JeuInfosBody) -> (q: Option<QuotaInfo>)
    ensures
        q == quota_spec(*body),
{
    let ssuser = match &body.ssuser {
        Some(u) => u,
        None => {
            return None;
        },
    };
    let maxthreads = match parse_u32_radix(&chars_of(ssuser.maxthreads.as_str()), 10) {
        Some(v) => v,
        None => 1,
    };
    let requests_today = match parse_u64(&chars_of(ssuser.requeststoday.as_str())) {
        Some(v) => v,
        None => 0,
    };
    let max_requests_per_day = match parse_u64(&chars_of(ssuser.maxrequestsperday.as_str())) {
        Some(v) => v,
        None => 0,
    };
    let (closed_for_nonmember, closed_for_leecher) = match &body.serveurs {
        Some(s) => (is_one(&s.closefornomember), is_one(&s.closeforleecher)),
        None => (false, false),
    };
    Some(QuotaInfo {
        maxthreads,
        requests_today,
        max_requests_per_day,
        closed_for_nonmember,
        closed_for_leecher,
    })
}

// ----- reading a reply -----

/// What a text reply must contain, once lower-cased, to mean "API closed".
pub open spec fn api_closed_marker() -> Seq<char> {
    "api closed"@
}

/// Reads a reply body. `parsed` is the JSON decoding of `body`, or the decoder's message
/// when it failed. A body that does not decode is a rate limit when its lower-cased text
/// contains "api closed", else a bad reply; a reply without a `response` block means the
/// game is unknown; otherwise the metadata and quota are taken from it.
pub fn parse_response(parsed: Result<JeuInfosResponse, String>, body: &str, status: u16) -> (r: Result<
    LookupSuccess,
    LookupError,
>)
    ensures
        match parsed {
            Err(message) => if seq_contains(lowercase_of(body@), api_closed_marker()) {
                r matches Err(LookupError::RateLimited { status: s }) && s == status
            } else {
                r matches Err(LookupError::BadJson { message: m }) && m@ == message@
            },
            Ok(reply) => match reply.response {
                None => r matches Ok(ok) && ok.outcome is NotFound && ok.quota is None,
                Some(b) => r matches Ok(ok) && ok.outcome matches ScrapeOutcome::Found(m)
                    && is_metadata_of(m, b.jeu) && ok.quota == quota_spec(b),
            },
        },
{
    match parsed {
        Err(message) => {
            let lower = to_lowercase(body);
            let marker = chars_of("api closed");
            if contains_chars(&chars_of(lower.as_str()), &marker) {
                Err(LookupError::RateLimited { status })
            } else {
                Err(LookupError::BadJson { message })
            }
        },
        Ok(reply) => match reply.response {
            None => Ok(LookupSuccess { outcome: ScrapeOutcome::NotFound, quota: None }),
            Some(b) => {
                let quota = extract_quota(&b);
                Ok(LookupSuccess { outcome: ScrapeOutcome::Found(extract_metadata(&b.jeu)), quota })
            },
        },
    }
}

/// What the HTTP status alone decides: 429 and 430 are a rate limit, 404 an unknown game,
/// another status outside 2xx a failure. `None`: a 2xx status, the body has to be read.
pub fn status_outcome(status: u16) -> (r: Option<Result<LookupSuccess, LookupError>>)
    ensures
        (status == 429 || status == 430) ==> (r matches Some(Err(LookupError::RateLimited { status: s })) && s == status),
        status == 404 ==> (r matches Some(Ok(ok)) && ok.outcome is NotFound && ok.quota is None),
        (status != 429 && status != 430 && status != 404 && !(200 <= status < 300)) ==> (r matches Some(
            Err(LookupError::HttpStatus { status: s }),
        ) && s == status),
        (200 <= status < 300) ==> r is None,
{
    if status == 429 || status == 430 {
        Some(Err(LookupError::RateLimited { status }))
    } else if status == 404 {
        Some(Ok(LookupSuccess { outcome: ScrapeOutcome::NotFound, quota: None }))
    } else if !(200 <= status && status < 300) {
        Some(Err(LookupError::HttpStatus { status }))
    } else {
        None
    }
}

// ----- the query -----

pub open spec fn pairs_view(v: Seq<(String, String)>) -> Seq<(Seq<char>, Seq<char>)> {
    v.map_values(|p: (String, String)| (p.0@, p.1@))
}

pub open spec fn opt_pair(key: Seq<char>, value: Option<Seq<char>>) -> Seq<(Seq<char>, Seq<char>)> {
    match value {
        Some(v) => seq![(key, v)],
        None => Seq::empty(),
    }
}

pub open spec fn opt_str_view(o: Option<&str>) -> Option<Seq<char>> {
    match o {
        Some(s) => Some(s@),
        None => None,
    }
}

/// The query parameters of a lookup, in the order they are sent.
pub open spec fn lookup_query_spec(c: ScreenScraperCredentials, rom: RomIdentity, softname: Seq<char>) -> Seq<
    (Seq<char>, Seq<char>),
> {
    seq![
        ("devid"@, c.devid@),
        ("devpassword"@, c.devpassword@),
        ("softname"@, softname),
        ("output"@, "json"@),
        ("romnom"@, rom.filename@),
        ("systemeid"@, i64_decimal(rom.systemeid)),
    ] + opt_pair("ssid"@, opt_view(c.ssid)) + opt_pair("sspassword"@, opt_view(c.sspassword)) + opt_pair(
        "crc"@,
        opt_str_view(rom.crc32),
    ) + opt_pair("md5"@, opt_str_view(rom.md5)) + opt_pair("sha1"@, opt_str_view(rom.sha1)) + opt_pair(
        "romtaille"@,
        match rom.size {
            Some(n) => Some(decimal_digits(n as nat)),
            None => None,
        },
    )
}

fn push_pair(q: &mut Vec<(String, String)>, key: &str, value: String)
    ensures
        pairs_view(final(q)@) == pairs_view(old(q)@).push((key@, value@)),
{
    q.push((String::from_str(key), value));
    assert(pairs_view(q@) =~= pairs_view(old(q)@).push((key@, value@)));
}

fn push_opt_pair(q: &mut Vec<(String, String)>, key: &str, value: Option<String>)
    ensures
        pairs_view(final(q)@) == pairs_view(old(q)@) + opt_pair(key@, opt_view(value)),
{
    match value {
        Some(v) => {
            push_pair(q, key, v);
            assert(pairs_view(q@) =~= pairs_view(old(q)@) + opt_pair(key@, opt_view(Some(v))));
        },
        None => {
            assert(pairs_view(q@) =~= pairs_view(old(q)@) + opt_pair(key@, None));
        },
    }
}

fn opt_owned(o: Option<&str>) -> (r: Option<String>)
    ensures
        opt_view(r) == opt_str_view(o),
{
    match o {
        Some(s) => Some(String::from_str(s)),
        None => None,
    }
}

/// The query parameters of a lookup: the credentials, the client name `softname`, JSON
/// output, the file name and system, then whichever of the user pair, hashes and size
/// are known.
pub fn lookup_query(credentials: &ScreenScraperCredentials, rom: &RomIdentity, softname: &str) -> (q: Vec<
    (String, String),
>)
    ensures
        pairs_view(q@) == lookup_query_spec(*credentials, *rom, softname@),
{
    let mut q: Vec<(String, String)> = Vec::new();
    push_pair(&mut q, "devid", credentials.devid.clone());
    push_pair(&mut q, "devpassword", credentials.devpassword.clone());
    push_pair(&mut q, "softname", String::from_str(softname));
    push_pair(&mut q, "output", String::from_str("json"));
    push_pair(&mut q, "romnom", String::from_str(rom.filename));
    let mut digits: Vec<char> = Vec::new();
    push_i64(&mut digits, rom.systemeid);
    assert(digits@ =~= i64_decimal(rom.systemeid));
    push_pair(&mut q, "systemeid", string_of(&digits));
    let ghost fixed = pairs_view(q@);
    push_opt_pair(&mut q, "ssid", crate::scraper::types::copy_opt_string(&credentials.ssid));
    push_opt_pair(&mut q, "sspassword", crate::scraper::types::copy_opt_string(&credentials.sspassword));
    push_opt_pair(&mut q, "crc", opt_owned(rom.crc32));
    push_opt_pair(&mut q, "md5", opt_owned(rom.md5));
    push_opt_pair(&mut q, "sha1", opt_owned(rom.sha1));
    let size = match rom.size {
        Some(n) => {
            let mut d: Vec<char> = Vec::new();
            push_decimal(&mut d, n);
            assert(d@ =~= decimal_digits(n as nat));
            Some(string_of(&d))
        },
        None => None,
    };
    push_opt_pair(&mut q, "romtaille", size);
    assert(pairs_view(q@) =~= lookup_query_spec(*credentials, *rom, softname@));
    q
}

// ----- credentials -----

/// A stored setting that counts: present and not empty.
pub open spec fn non_empty(o: Option<Seq<char>>) -> Option<Seq<char>> {
    match o {
        Some(s) => if s.len() > 0 { Some(s) } else { None },
        None => None,
    }
}

pub open spec fn or_else(a: Option<Seq<char>>, b: Option<Seq<char>>) -> Option<Seq<char>> {
    match a {
        Some(x) => Some(x),
        None => b,
    }
}

fn keep_non_empty(o: Option<String>) -> (r: Option<String>)
    ensures
        opt_view(r) == non_empty(opt_view(o)),
{
    match o {
        Some(s) => {
            let c = chars_of(s.as_str());
            if c.len() > 0 { Some(s) } else { None }
        },
        None => None,
    }
}

fn first_of(a: Option<String>, b: Option<String>) -> (r: Option<String>)
    ensures
        opt_view(r) == or_else(opt_view(a), opt_view(b)),
{
    match a {
        Some(x) => Some(x),
        None => b,
    }
}

impl ScreenScraperCredentials {
    /// Settings edited in the application win over the environment: each stored value
    /// that is present and non-empty is taken, the environment's otherwise. `None` when
    /// either developer value is then still missing.
    pub fn resolve(
        stored_devid: Option<String>,
        stored_devpassword: Option<String>,
        stored_ssid: Option<String>,
        stored_sspassword: Option<String>,
        env: Option<ScreenScraperCredentials>,
    ) -> (r: Option<ScreenScraperCredentials>)
        ensures
            ({
                let devid = or_else(non_empty(opt_view(stored_devid)), match env {
                    Some(e) => Some(e.devid@),
                    None => None,
                });
                let devpassword = or_else(non_empty(opt_view(stored_devpassword)), match env {
                    Some(e) => Some(e.devpassword@),
                    None => None,
                });
                match (devid, devpassword) {
                    (Some(d), Some(p)) => r matches Some(c) && c.devid@ == d && c.devpassword@ == p
                        && opt_view(c.ssid) == or_else(non_empty(opt_view(stored_ssid)), match env {
                            Some(e) => opt_view(e.ssid),
                            None => None,
                        }) && opt_view(c.sspassword) == or_else(non_empty(opt_view(stored_sspassword)), match env {
                            Some(e) => opt_view(e.sspassword),
                            None => None,
                        }),
                    _ => r is None,
                }
            }),
    {
        let ghost env0 = env;
        let (env_devid, env_devpassword, env_ssid, env_sspassword) = match env {
            Some(e) => (Some(e.devid), Some(e.devpassword), e.ssid, e.sspassword),
            None => (None, None, None, None),
        };
        let devid = first_of(keep_non_empty(stored_devid), env_devid);
        let devpassword = first_of(keep_non_empty(stored_devpassword), env_devpassword);
        let ssid = first_of(keep_non_empty(stored_ssid), env_ssid);
        let sspassword = first_of(keep_non_empty(stored_sspassword), env_sspassword);
        match (devid, devpassword) {
            (Some(devid), Some(devpassword)) => Some(ScreenScraperCredentials { devid, devpassword, ssid, sspassword }),
            _ => None,
        }
    }
}

} // verus!
