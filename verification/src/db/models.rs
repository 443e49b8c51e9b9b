//! Rows of the library database, as the application reads and writes them.

use vstd::prelude::*;

verus! {

/// An emulated system, with the file extensions its ROMs use (comma separated).
#[derive(Debug)]
pub struct Platform {
    pub id: i64,
    pub slug: String,
    pub name: String,
    pub screenscraper_id: Option<i64>,
    pub extensions: String,
}

/// A stored save state of one game in one slot.
#[derive(Debug)]
pub struct SaveState {
    pub id: i64,
    pub game_id: i64,
    pub slot: i64,
    pub path: String,
    pub thumb_path: Option<String>,
    pub core_name: String,
    pub core_version: String,
    pub created_at: i64,
}

/// An emulator core found on disk.
#[derive(Debug)]
pub struct CoreRecord {
    pub id: i64,
    pub path: String,
    pub name: String,
    pub version: Option<String>,
    pub extensions: String,
    pub need_fullpath: bool,
    pub last_seen: i64,
}

/// The core chosen for a platform.
#[derive(Debug, Clone, Copy, PartialEq, Eq, Structural)]
pub struct PlatformCorePref {
    pub platform_id: i64,
    pub core_id: i64,
}

/// A directory scanned for ROMs; `platform_id` pins every file in it to one platform.
#[derive(Debug)]
pub struct RomDirectory {
    pub id: i64,
    pub path: String,
    pub recursive: bool,
    pub enabled: bool,
    pub platform_id: Option<i64>,
}

/// One application setting.
#[derive(Debug)]
pub struct Setting {
    pub key: String,
    pub value: String,
}

/// A cached scraper reply: `response` holds the metadata as JSON when the game was found.
#[derive(Debug)]
pub struct ScrapeCacheEntry {
    pub hash_key: String,
    pub response: Option<String>,
    pub found: bool,
    pub fetched_at: i64,
}

} // verus!
