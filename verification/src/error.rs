//! The core error type. Paths and I/O failures are held as their text; the categories
//! and their stable, machine-readable names are what the UI branches on.

use vstd::prelude::*;

verus! {

/// Errors of core loading, ROM loading, save states and SRAM.
#[derive(Debug, Clone, PartialEq, Eq)]
pub enum CoreError {
    /// An I/O failure, by its message.
    Io(String),
    /// The core library could not be loaded or lacks a required libretro symbol.
    CoreLoad { path: String, reason: String },
    /// `retro_api_version()` did not return the supported version.
    ApiVersion { path: String, expected: u32, actual: u32 },
    /// `retro_load_game()` rejected the ROM.
    RomLoad { rom_path: String },
    /// A BIOS file the core needs is missing from the system directory.
    MissingBios { core: String, bios_file: String },
    /// The core asked for a pixel format that is not converted.
    UnsupportedPixelFormat { core: String, format: u32 },
    /// `retro_serialize` / `retro_unserialize` failed.
    SaveState(String),
    /// Reading or writing battery-backed SRAM failed.
    Sram(String),
    Other(String),
}

/// The stable category name of an error.
pub open spec fn kind_name(e: CoreError) -> Seq<char> {
    match e {
        CoreError::Io(_) => "io"@,
        CoreError::CoreLoad { .. } => "core_load"@,
        CoreError::ApiVersion { .. } => "api_version"@,
        CoreError::RomLoad { .. } => "rom_load"@,
        CoreError::MissingBios { .. } => "missing_bios"@,
        CoreError::UnsupportedPixelFormat { .. } => "unsupported_pixel_format"@,
        CoreError::SaveState(_) => "save_state"@,
        CoreError::Sram(_) => "sram"@,
        CoreError::Other(_) => "other"@,
    }
}

/// The position of an error's variant in the declaration.
pub open spec fn variant_index(e: CoreError) -> nat {
    match e {
        CoreError::Io(_) => 0,
        CoreError::CoreLoad { .. } => 1,
        CoreError::ApiVersion { .. } => 2,
        CoreError::RomLoad { .. } => 3,
        CoreError::MissingBios { .. } => 4,
        CoreError::UnsupportedPixelFormat { .. } => 5,
        CoreError::SaveState(_) => 6,
        CoreError::Sram(_) => 7,
        CoreError::Other(_) => 8,
    }
}

impl CoreError {
    /// The stable, machine-readable category name.
    pub fn kind(&self) -> (k: &'static str)
        ensures
            k@ == kind_name(*self),
    {
        match self {
            CoreError::Io(_) => "io",
            CoreError::CoreLoad { .. } => "core_load",
            CoreError::ApiVersion { .. } => "api_version",
            CoreError::RomLoad { .. } => "rom_load",
            CoreError::MissingBios { .. } => "missing_bios",
            CoreError::UnsupportedPixelFormat { .. } => "unsupported_pixel_format",
            CoreError::SaveState(_) => "save_state",
            CoreError::Sram(_) => "sram",
            CoreError::Other(_) => "other",
        }
    }
}

/// Every variant has its own category name: two errors share a name only if they are
/// of the same variant.
pub proof fn lemma_kinds_are_distinct(a: CoreError, b: CoreError)
    ensures
        kind_name(a) == kind_name(b) <==> variant_index(a) == variant_index(b),
{
    reveal_strlit("io");
    reveal_strlit("core_load");
    reveal_strlit("api_version");
    reveal_strlit("rom_load");
    reveal_strlit("missing_bios");
    reveal_strlit("unsupported_pixel_format");
    reveal_strlit("save_state");
    reveal_strlit("sram");
    reveal_strlit("other");
    if variant_index(a) != variant_index(b) {
        let ka = kind_name(a);
        let kb = kind_name(b);
        assert(ka.len() != kb.len() || ka[0] != kb[0] || ka[1] != kb[1] || ka[2] != kb[2]);
    }
}

} // verus!
