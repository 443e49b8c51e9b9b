//! Quota-safe lookups: the cache key of a ROM, how long a cached answer counts, the
//! retry schedule after a rate limit, and the concurrency limit that follows the
//! server's `maxthreads`.

use vstd::prelude::*;
use crate::scraper::screenscraper::{GameMetadata, LookupError, LookupSuccess, QuotaInfo, ScrapeOutcome};
use crate::text::{push_str, to_uppercase, uppercase_of};

verus! {

/// How long a "not found" answer stays cached: seven days. Found answers do not expire.
pub const NOTFOUND_TTL_SECONDS: i64 = 604800;

/// The waits between attempts after a rate limit, in seconds; after the last wait comes
/// one final attempt.
pub open spec fn backoff_schedule() -> Seq<u64> {
    seq![2u64, 4, 8, 16]
}

/// A lookup result and whether it came from the cache.
#[derive(Debug)]
pub struct CachedLookup {
    pub outcome: ScrapeOutcome,
    pub quota: Option<QuotaInfo>,
    pub from_cache: bool,
}

/// The cache key of a ROM: its CRC (upper case) when known, which survives renames;
/// otherwise platform and file name.
pub open spec fn cache_key_spec(crc32: Option<Seq<char>>, platform_slug: Seq<char>, filename: Seq<char>) -> Seq<
    char,
> {
    match crc32 {
        Some(crc) => "crc:"@ + uppercase_of(crc),
        None => "name:"@ + platform_slug + ":"@ + filename,
    }
}

/// The cache key of a ROM (see [`cache_key_spec`]).
pub fn cache_key(crc32: Option<&str>, platform_slug: &str, filename: &str) -> (k: String)
    ensures
        k@ == cache_key_spec(
            match crc32 {
                Some(c) => Some(c@),
                None => None,
            },
            platform_slug@,
            filename@,
        ),
{
    match crc32 {
        Some(crc) => {
            let mut k = String::from_str("crc:");
            let upper = to_uppercase(crc);
            push_str(&mut k, upper.as_str());
            k
        },
        None => {
            let mut k = String::from_str("name:");
            push_str(&mut k, platform_slug);
            push_str(&mut k, ":");
            push_str(&mut k, filename);
            k
        },
    }
}

/// What a stored cache row means now.
#[derive(Debug, Clone, Copy, PartialEq, Eq, Structural)]
pub enum CacheVerdict {
    /// No usable entry: look the game up.
    Miss,
    /// A fresh "not found".
    NotFound,
    /// A found answer; its stored metadata is to be read.
    Found,
}

/// Whether a "not found" stored at `fetched_at` has outlived its time at `now`.
pub open spec fn notfound_expired(fetched_at: i64, now: i64) -> bool {
    now - fetched_at > NOTFOUND_TTL_SECONDS
}

/// What a cache row (`found` flag and time stored), if there is one, means at time `now`.
pub open spec fn cache_verdict_spec(row: Option<(bool, i64)>, now: i64) -> CacheVerdict {
    match row {
        None => CacheVerdict::Miss,
        Some((true, _)) => CacheVerdict::Found,
        Some((false, fetched_at)) => if notfound_expired(fetched_at, now) {
            CacheVerdict::Miss
        } else {
            CacheVerdict::NotFound
        },
    }
}

/// The cache row a lookup's outcome is stored as at time `now`: whether the game was
/// found, and when. (A found answer's metadata is stored beside it.)
pub fn cache_entry(outcome: &ScrapeOutcome, now: i64) -> (r: (bool, i64))
    ensures
        r == (outcome is Found, now),
{
    match outcome {
        ScrapeOutcome::Found(_) => (true, now),
        ScrapeOutcome::NotFound => (false, now),
    }
}

/// Reading back a stored outcome: a found answer is answered from the cache whenever it
/// is read; a "not found" is answered from the cache for seven days after it was stored,
/// and after that the game is looked up again. Nothing stored means a lookup.
pub proof fn lemma_cache_read_of_write(found: bool, stored_at: i64, now: i64)
    ensures
        cache_verdict_spec(None, now) == CacheVerdict::Miss,
        found ==> cache_verdict_spec(Some((found, stored_at)), now) == CacheVerdict::Found,
        !found && now - stored_at <= NOTFOUND_TTL_SECONDS ==> cache_verdict_spec(Some((found, stored_at)), now)
            == CacheVerdict::NotFound,
        !found && now - stored_at > NOTFOUND_TTL_SECONDS ==> cache_verdict_spec(Some((found, stored_at)), now)
            == CacheVerdict::Miss,
{
}

/// The metadata stored beside a cache row for an outcome: a found game's, none otherwise.
pub open spec fn stored_metadata(outcome: ScrapeOutcome) -> Option<GameMetadata> {
    match outcome {
        ScrapeOutcome::Found(m) => Some(m),
        ScrapeOutcome::NotFound => None,
    }
}

/// What the cache answers for a verdict, with the metadata stored beside a found row:
/// nothing on a miss (the game is fetched), otherwise the stored outcome, marked as
/// coming from the cache and carrying no quota (no request was made).
pub open spec fn cache_hit_spec(verdict: CacheVerdict, stored: Option<GameMetadata>) -> Option<CachedLookup> {
    match verdict {
        CacheVerdict::Miss => None,
        CacheVerdict::NotFound => Some(CachedLookup { outcome: ScrapeOutcome::NotFound, quota: None, from_cache: true }),
        CacheVerdict::Found => Some(
            CachedLookup { outcome: ScrapeOutcome::Found(stored.unwrap()), quota: None, from_cache: true },
        ),
    }
}

/// The cache's answer (see [`cache_hit_spec`]). A found row always has its metadata.
pub fn cache_hit(verdict: CacheVerdict, stored: Option<GameMetadata>) -> (r: Option<CachedLookup>)
    requires
        verdict == CacheVerdict::Found ==> stored is Some,
    ensures
        r == cache_hit_spec(verdict, stored),
{
    match verdict {
        CacheVerdict::Miss => None,
        CacheVerdict::NotFound => Some(CachedLookup { outcome: ScrapeOutcome::NotFound, quota: None, from_cache: true }),
        CacheVerdict::Found => match stored {
            Some(m) => Some(CachedLookup { outcome: ScrapeOutcome::Found(m), quota: None, from_cache: true }),
            None => None,
        },
    }
}

/// A lookup stored in the cache is answered from it: the same outcome (a found game with
/// the metadata stored), marked as from the cache, with no quota and so no request. It
/// holds for a found answer at any later time, and for a "not found" within seven days.
pub proof fn lemma_cache_hit_returns_stored(outcome: ScrapeOutcome, stored_at: i64, now: i64)
    requires
        !(outcome is NotFound && notfound_expired(stored_at, now)),
    ensures
        cache_hit_spec(cache_verdict_spec(Some((outcome is Found, stored_at)), now), stored_metadata(outcome))
            == Some(CachedLookup { outcome, quota: None, from_cache: true }),
{
}

/// Reads a cache row (`found` flag and time stored), if there is one, at time `now`.
pub fn cache_verdict(row: Option<(bool, i64)>, now: i64) -> (v: CacheVerdict)
    ensures
        v == cache_verdict_spec(row, now),
        match row {
            None => v == CacheVerdict::Miss,
            Some((true, _)) => v == CacheVerdict::Found,
            Some((false, fetched_at)) => v == if notfound_expired(fetched_at, now) {
                CacheVerdict::Miss
            } else {
                CacheVerdict::NotFound
            },
        },
{
    match row {
        None => CacheVerdict::Miss,
        Some((found, fetched_at)) => {
            if found {
                CacheVerdict::Found
            } else {
                let age = now as i128 - fetched_at as i128;
                if age > NOTFOUND_TTL_SECONDS as i128 {
                    CacheVerdict::Miss
                } else {
                    CacheVerdict::NotFound
                }
            }
        },
    }
}

/// What to do after an attempt.
#[derive(Debug)]
pub enum RetryStep {
    /// The lookup is over with this result.
    Done(Result<LookupSuccess, LookupError>),
    /// Rate limited: wait this many seconds and try again.
    Wait(u64),
    /// Still rate limited after the last attempt (HTTP status of the last reply).
    GiveUp(u16),
}

/// The step after attempt number `attempt` (from 0) gave `result`: success and other
/// errors end the lookup; a rate limit waits 2, 4, 8 and 16 seconds after the first four
/// attempts, and after the fifth gives up.
pub fn retry_step(attempt: usize, result: Result<LookupSuccess, LookupError>) -> (s: RetryStep)
    requires
        attempt <= 4,
    ensures
        match result {
            Err(LookupError::RateLimited { status }) => if attempt < 4 {
                s matches RetryStep::Wait(d) && d == backoff_schedule()[attempt as int]
            } else {
                s matches RetryStep::GiveUp(st) && st == status
            },
            _ => s matches RetryStep::Done(r) && r == result,
        },
{
    match result {
        Err(LookupError::RateLimited { status }) => {
            if attempt < 4 {
                let d: u64 = if attempt == 0 {
                    2
                } else if attempt == 1 {
                    4
                } else if attempt == 2 {
                    8
                } else {
                    16
                };
                RetryStep::Wait(d)
            } else {
                RetryStep::GiveUp(status)
            }
        },
        other => RetryStep::Done(other),
    }
}

/// The permits granted after a reply announcing `maxthreads` (zero counts as one): the
/// larger of that and what was granted before.
pub open spec fn granted_after(granted: int, maxthreads: u32) -> int {
    let wanted = if maxthreads < 1 { 1 } else { maxthreads as int };
    if wanted > granted { wanted } else { granted }
}

/// The number of concurrent lookups granted so far. It starts at one and only grows:
/// permits already handed out cannot be taken back.
#[derive(Debug, Clone, Copy, PartialEq, Eq, Structural)]
pub struct PermitCount {
    pub granted: usize,
}

impl PermitCount {
    pub fn new() -> (p: PermitCount)
        ensures
            p.granted == 1,
    {
        PermitCount { granted: 1 }
    }

    /// Takes a reply's `maxthreads` into account and returns how many permits to add.
    pub fn update_maxthreads(&mut self, maxthreads: u32) -> (added: usize)
        ensures
            final(self).granted == granted_after(old(self).granted as int, maxthreads),
            added == final(self).granted - old(self).granted,
    {
        let wanted: usize = if maxthreads < 1 { 1 } else { maxthreads as usize };
        if wanted > self.granted {
            let added = wanted - self.granted;
            self.granted = wanted;
            added
        } else {
            0
        }
    }
}

/// The granted count never shrinks, never falls below a `maxthreads` announced, and is
/// at least one.
pub proof fn lemma_permits_only_grow(granted: int, maxthreads: u32)
    ensures
        granted_after(granted, maxthreads) >= granted,
        granted_after(granted, maxthreads) >= maxthreads,
        granted_after(granted, maxthreads) >= 1,
{
}

/// A key made from a CRC never equals a key made from a name: the two kinds live under
/// different prefixes.
pub proof fn lemma_cache_key_kinds_never_collide(crc: Seq<char>, slug: Seq<char>, file: Seq<char>)
    ensures
        cache_key_spec(Some(crc), slug, file) != cache_key_spec(None, slug, file),
{
    reveal_strlit("crc:");
    reveal_strlit("name:");
    assert(cache_key_spec(Some(crc), slug, file)[0] == 'c');
    assert(cache_key_spec(None, slug, file)[0] == 'n');
}

} // verus!
