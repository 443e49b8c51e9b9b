//! Game metadata from ScreenScraper: the reply's shape, entity decoding, the choice of
//! region and language, quota bookkeeping, media choice and the bookkeeping of a scrape
//! run over many games.

pub mod entities;
pub mod image_dimensions;
pub mod media;
pub mod rate_limit;
pub mod screenscraper;
pub mod types;

use vstd::prelude::*;
use crate::pathname::{file_name, file_name_spec};
use crate::scraper::screenscraper::QuotaInfo;
use crate::text::{chars_of, string_of};

verus! {

/// Progress after one game of a run.
#[derive(Debug)]
pub struct ScrapeProgress {
    pub current: u32,
    pub total: u32,
    pub title: String,
    /// `"ok"`, `"notfound"`, `"unsupported"` or `"error"`.
    pub status: String,
    /// Requests left today, once a live reply has reported the quota.
    pub quota_left: Option<i64>,
}

/// The tally of a run.
#[derive(Debug, Clone, Copy, PartialEq, Eq, Structural)]
pub struct ScrapeSummary {
    pub found: u32,
    pub not_found: u32,
    pub errored: u32,
    pub cancelled: bool,
}

/// How one game's scrape ended.
#[derive(Debug, Clone, Copy, PartialEq, Eq, Structural)]
pub enum GameOutcome {
    Found,
    NotFound,
    /// The platform has no ScreenScraper system id: no lookup is possible.
    Unsupported,
    Error,
}

pub open spec fn status_spec(o: GameOutcome) -> Seq<char> {
    match o {
        GameOutcome::Found => "ok"@,
        GameOutcome::NotFound => "notfound"@,
        GameOutcome::Unsupported => "unsupported"@,
        GameOutcome::Error => "error"@,
    }
}

impl GameOutcome {
    /// The status shown in progress reports.
    pub fn status_str(self) -> (s: &'static str)
        ensures
            s@ == status_spec(self),
    {
        match self {
            GameOutcome::Found => "ok",
            GameOutcome::NotFound => "notfound",
            GameOutcome::Unsupported => "unsupported",
            GameOutcome::Error => "error",
        }
    }
}

/// The status stored for a game after its scrape, when one is stored by the run itself
/// (a found game gets `"ok"` with its metadata).
pub open spec fn stored_status_spec(o: GameOutcome) -> Option<Seq<char>> {
    match o {
        GameOutcome::Found => None,
        GameOutcome::NotFound => Some("notfound"@),
        GameOutcome::Unsupported | GameOutcome::Error => Some("error"@),
    }
}

/// The status to store for a game after its scrape (see [`stored_status_spec`]).
pub fn stored_status(o: GameOutcome) -> (s: Option<&'static str>)
    ensures
        match stored_status_spec(o) {
            Some(t) => s matches Some(x) && x@ == t,
            None => s is None,
        },
{
    match o {
        GameOutcome::Found => None,
        GameOutcome::NotFound => Some("notfound"),
        GameOutcome::Unsupported | GameOutcome::Error => Some("error"),
    }
}

/// The outcome of a game that was found: found if its media directory could be used and
/// its metadata stored, an error otherwise.
pub fn found_outcome(media_ok: bool, stored: bool) -> (o: GameOutcome)
    ensures
        o == if media_ok && stored { GameOutcome::Found } else { GameOutcome::Error },
{
    if media_ok && stored { GameOutcome::Found } else { GameOutcome::Error }
}

/// The ScreenScraper system id to look a game up under: its platform's, or, for a platform
/// ScreenScraper does not know, the outcome `Unsupported` without any lookup (stored as an
/// error, see [`stored_status`]).
pub fn lookup_system(platform: &crate::db::models::Platform) -> (r: Result<i64, GameOutcome>)
    ensures
        match platform.screenscraper_id {
            Some(id) => r == Ok::<i64, GameOutcome>(id),
            None => r == Err::<i64, GameOutcome>(GameOutcome::Unsupported),
        },
{
    match platform.screenscraper_id {
        Some(id) => Ok(id),
        None => Err(GameOutcome::Unsupported),
    }
}

/// The file name sent as `romnom`: the file inside the archive for an archived ROM,
/// otherwise the last component of the ROM path (the whole path if it has none).
pub open spec fn rom_filename_spec(rom_path: Seq<char>, archive_inner: Option<Seq<char>>) -> Seq<char> {
    match archive_inner {
        Some(inner) => inner,
        None => match file_name_spec(rom_path) {
            Some(f) => f,
            None => rom_path,
        },
    }
}

/// The file name sent as `romnom` (see [`rom_filename_spec`]).
pub fn rom_filename(rom_path: &str, archive_inner: Option<&str>) -> (f: String)
    ensures
        f@ == rom_filename_spec(
            rom_path@,
            match archive_inner {
                Some(a) => Some(a@),
                None => None,
            },
        ),
{
    match archive_inner {
        Some(inner) => String::from_str(inner),
        None => match file_name(chars_of(rom_path).as_slice()) {
            Some(f) => string_of(f.as_slice()),
            None => String::from_str(rom_path),
        },
    }
}

/// Requests left today: the daily maximum less today's count, never below zero, as a
/// signed number (a count beyond `i64::MAX` wraps as `as` does).
pub open spec fn quota_left_spec(q: QuotaInfo) -> i64 {
    (if q.max_requests_per_day >= q.requests_today { q.max_requests_per_day - q.requests_today } else { 0 }) as i64
}

/// Requests left today (see [`quota_left_spec`]).
pub fn quota_left(quota: &QuotaInfo) -> (n: i64)
    ensures
        n == quota_left_spec(*quota),
{
    #[verifier::truncate]
    let n = quota.max_requests_per_day.saturating_sub(quota.requests_today) as i64;
    n
}

/// The bookkeeping of a run over the pending games, one game at a time.
#[derive(Debug, Clone, Copy)]
pub struct ScrapeRun {
    pub total: u32,
    /// Games looked at so far.
    pub done: u32,
    pub summary: ScrapeSummary,
    /// The last quota a live reply reported.
    pub latest_quota: Option<QuotaInfo>,
    /// The run is over: cancelled or stopped by a failed lookup.
    pub stopped: bool,
}

/// What to do with the next game.
#[derive(Debug, Clone, Copy, PartialEq, Eq, Structural)]
pub enum NextGame {
    /// Look it up.
    Scrape,
    /// Its platform is unknown: counted as an error, no progress report.
    Skip,
    /// The run is over.
    Stop,
}

impl ScrapeRun {
    pub open spec fn wf(&self) -> bool {
        self.done <= self.total && self.summary.found + self.summary.not_found + self.summary.errored <= self.done
    }

    /// A run over `total` games.
    pub fn new(total: u32) -> (r: ScrapeRun)
        ensures
            r.wf(),
            r.total == total,
            r.done == 0,
            r.summary == (ScrapeSummary { found: 0, not_found: 0, errored: 0, cancelled: false }),
            r.latest_quota is None,
            !r.stopped,
    {
        ScrapeRun {
            total,
            done: 0,
            summary: ScrapeSummary { found: 0, not_found: 0, errored: 0, cancelled: false },
            latest_quota: None,
            stopped: false,
        }
    }

    /// Before the next game: a cancelled run stops (and says so in its summary); a game
    /// whose platform is unknown is skipped as an error.
    pub fn before_game(&mut self, cancelled: bool, platform_known: bool) -> (n: NextGame)
        requires
            old(self).wf(),
            !old(self).stopped,
            old(self).done < old(self).total,
        ensures
            final(self).wf(),
            final(self).total == old(self).total,
            final(self).latest_quota == old(self).latest_quota,
            cancelled ==> n == NextGame::Stop && final(self).stopped && final(self).summary == (ScrapeSummary {
                cancelled: true,
                ..old(self).summary
            }) && final(self).done == old(self).done,
            !cancelled && !platform_known ==> n == NextGame::Skip && !final(self).stopped && final(self).summary
                == (ScrapeSummary { errored: (old(self).summary.errored + 1) as u32, ..old(self).summary })
                && final(self).done == old(self).done + 1,
            !cancelled && platform_known ==> n == NextGame::Scrape && *final(self) == *old(self),
    {
        if cancelled {
            self.summary.cancelled = true;
            self.stopped = true;
            return NextGame::Stop;
        }
        if !platform_known {
            self.summary.errored = self.summary.errored + 1;
            self.done = self.done + 1;
            return NextGame::Skip;
        }
        NextGame::Scrape
    }

    /// The scrape of the next game was cancelled while it ran.
    pub fn cancelled_during_game(&mut self)
        requires
            old(self).wf(),
        ensures
            final(self).wf(),
            final(self).stopped,
            final(self).summary == (ScrapeSummary { cancelled: true, ..old(self).summary }),
            final(self).done == old(self).done,
            final(self).total == old(self).total,
            final(self).latest_quota == old(self).latest_quota,
    {
        self.summary.cancelled = true;
        self.stopped = true;
    }

    /// After the next game's scrape: `None` means its lookup failed (the quota ran out
    /// even after retrying), which ends the run with an error report. Otherwise the
    /// outcome is counted, a reported quota becomes the latest, and the report is made.
    /// Returns the report's position, status and quota left.
    pub fn after_game(&mut self, result: Option<(GameOutcome, Option<QuotaInfo>)>) -> (report: (u32, GameOutcome, Option<i64>))
        requires
            old(self).wf(),
            !old(self).stopped,
            old(self).done < old(self).total,
        ensures
            final(self).wf(),
            final(self).total == old(self).total,
            final(self).done == old(self).done + 1,
            report.0 == old(self).done + 1,
            match result {
                None => final(self).stopped && report.1 == GameOutcome::Error && final(self).summary == old(self).summary
                    && final(self).latest_quota == old(self).latest_quota,
                Some((outcome, quota)) => !final(self).stopped && report.1 == outcome && final(self).latest_quota == (
                match quota {
                    Some(q) => Some(q),
                    None => old(self).latest_quota,
                }) && final(self).summary == (match outcome {
                    GameOutcome::Found => ScrapeSummary { found: (old(self).summary.found + 1) as u32, ..old(self).summary },
                    GameOutcome::NotFound => ScrapeSummary {
                        not_found: (old(self).summary.not_found + 1) as u32,
                        ..old(self).summary
                    },
                    _ => ScrapeSummary { errored: (old(self).summary.errored + 1) as u32, ..old(self).summary },
                }),
            },
            report.2 == match final(self).latest_quota {
                Some(q) => Some(quota_left_spec(q)),
                None => None,
            },
    {
        self.done = self.done + 1;
        let outcome = match result {
            None => {
                self.stopped = true;
                GameOutcome::Error
            },
            Some((outcome, quota)) => {
                if let Some(q) = quota {
                    self.latest_quota = Some(q);
                }
                match outcome {
                    GameOutcome::Found => self.summary.found = self.summary.found + 1,
                    GameOutcome::NotFound => self.summary.not_found = self.summary.not_found + 1,
                    _ => self.summary.errored = self.summary.errored + 1,
                }
                outcome
            },
        };
        let left = match &self.latest_quota {
            Some(q) => Some(quota_left(q)),
            None => None,
        };
        (self.done, outcome, left)
    }
}

} // verus!
