//! The values behind the application's settings screens: default input bindings, the
//! scraper credential status (never a secret in full) and the validation of edited
//! credentials.

use vstd::prelude::*;
use crate::paths::{game_sram_path, game_states_dir, join, join_spec};
use crate::scraper::screenscraper::{opt_str_view, opt_view, ScreenScraperCredentials};
use crate::text::{chars_of, i64_decimal, push_i64, push_str, string_of, trim_chars, trim_spec};

verus! {

/// Setting keys under which edited credentials are stored.
pub const KEY_DEV_ID: &'static str = "scraper.dev_id";
pub const KEY_DEV_PASSWORD: &'static str = "scraper.dev_password";
pub const KEY_SSID: &'static str = "scraper.ssid";
pub const KEY_SSPASSWORD: &'static str = "scraper.sspassword";
/// Setting key of the edited input mapping.
pub const INPUT_MAPPING_KEY: &'static str = "input.mapping";
/// Setting key of the preferred core per platform.
pub const PREFERRED_CORES_KEY: &'static str = "core.preferred";

/// One RetroPad button's binding: a browser `KeyboardEvent.code` and a Gamepad API
/// button index, each absent when unbound.
#[derive(Debug)]
pub struct InputBinding {
    pub retropad_button: String,
    pub keyboard_key: Option<String>,
    pub gamepad_button: Option<u32>,
}

/// The default bindings: all sixteen RetroPad buttons, with the keyboard keys the
/// emulator window actually uses and no gamepad buttons.
pub open spec fn default_bindings_spec() -> Seq<(Seq<char>, Option<Seq<char>>)> {
    seq![
        ("up"@, Some("ArrowUp"@)),
        ("down"@, Some("ArrowDown"@)),
        ("left"@, Some("ArrowLeft"@)),
        ("right"@, Some("ArrowRight"@)),
        ("b"@, Some("KeyZ"@)),
        ("a"@, Some("KeyX"@)),
        ("y"@, Some("KeyA"@)),
        ("x"@, Some("KeyS"@)),
        ("l"@, None),
        ("r"@, None),
        ("l2"@, None),
        ("r2"@, None),
        ("l3"@, None),
        ("r3"@, None),
        ("select"@, Some("ShiftRight"@)),
        ("start"@, Some("Enter"@)),
    ]
}

pub open spec fn binding_view(b: InputBinding) -> (Seq<char>, Option<Seq<char>>) {
    (b.retropad_button@, opt_view(b.keyboard_key))
}

fn binding(button: &str, key: Option<&str>) -> (b: InputBinding)
    ensures
        b.retropad_button@ == button@,
        opt_view(b.keyboard_key) == (match key {
            Some(k) => Some(k@),
            None => None::<Seq<char>>,
        }),
        b.gamepad_button is None,
{
    InputBinding {
        retropad_button: String::from_str(button),
        keyboard_key: match key {
            Some(k) => Some(String::from_str(k)),
            None => None,
        },
        gamepad_button: None,
    }
}

/// The default bindings (see [`default_bindings_spec`]).
pub fn default_bindings() -> (v: Vec<InputBinding>)
    ensures
        v@.map_values(|b: InputBinding| binding_view(b)) == default_bindings_spec(),
        forall|i: int| 0 <= i < v@.len() ==> (#[trigger] v@[i]).gamepad_button is None,
{
    let mut v: Vec<InputBinding> = Vec::new();
    v.push(binding("up", Some("ArrowUp")));
    v.push(binding("down", Some("ArrowDown")));
    v.push(binding("left", Some("ArrowLeft")));
    v.push(binding("right", Some("ArrowRight")));
    v.push(binding("b", Some("KeyZ")));
    v.push(binding("a", Some("KeyX")));
    v.push(binding("y", Some("KeyA")));
    v.push(binding("x", Some("KeyS")));
    v.push(binding("l", None));
    v.push(binding("r", None));
    v.push(binding("l2", None));
    v.push(binding("r2", None));
    v.push(binding("l3", None));
    v.push(binding("r3", None));
    v.push(binding("select", Some("ShiftRight")));
    v.push(binding("start", Some("Enter")));
    assert(v@.map_values(|b: InputBinding| binding_view(b)) =~= default_bindings_spec());
    v
}

/// The last known quota, and when a live reply reported it (Unix seconds).
#[derive(Debug, Clone, Copy, PartialEq, Eq, Structural)]
pub struct QuotaSnapshot {
    pub quota_left: i64,
    pub checked_at: i64,
}

/// What the settings screen learns of the credentials: whether they are configured, the
/// developer id masked, whether a user login is set, and whether the stored settings
/// override the environment.
#[derive(Debug)]
pub struct ScraperCredentialStatus {
    pub dev_credentials_configured: bool,
    pub dev_id_masked: Option<String>,
    pub user_login_configured: bool,
    pub overridden: bool,
}

/// The first two characters of a developer id, then four bullets.
pub open spec fn mask_spec(devid: Seq<char>) -> Seq<char> {
    (if devid.len() < 2 { devid } else { devid.take(2) }) + "••••"@
}

/// The developer id masked for display (see [`mask_spec`]).
pub fn mask_dev_id(devid: &str) -> (m: String)
    ensures
        m@ == mask_spec(devid@),
{
    let c = chars_of(devid);
    let visible = if c.len() < 2 { string_of(c.as_slice()) } else { string_of(&c.as_slice()[0..2]) };
    let mut m = visible;
    push_str(&mut m, "••••");
    proof {
        if c.len() >= 2 {
            assert(c@.subrange(0, 2) =~= c@.take(2));
        }
    }
    m
}

/// The status shown for the credentials that could be loaded, if any; `stored_devid` is
/// the developer id stored in the settings.
pub fn credential_status(stored_devid: Option<&str>, loaded: Option<&ScreenScraperCredentials>) -> (s: ScraperCredentialStatus)
    ensures
        s.overridden == (stored_devid matches Some(d) && d@.len() > 0),
        match loaded {
            Some(c) => s.dev_credentials_configured && (s.dev_id_masked matches Some(m) && m@ == mask_spec(c.devid@))
                && s.user_login_configured == c.ssid is Some,
            None => !s.dev_credentials_configured && s.dev_id_masked is None && !s.user_login_configured,
        },
{
    let overridden = match stored_devid {
        Some(d) => chars_of(d).len() > 0,
        None => false,
    };
    match loaded {
        Some(c) => ScraperCredentialStatus {
            dev_credentials_configured: true,
            dev_id_masked: Some(mask_dev_id(c.devid.as_str())),
            user_login_configured: c.ssid.is_some(),
            overridden,
        },
        None => ScraperCredentialStatus {
            dev_credentials_configured: false,
            dev_id_masked: None,
            user_login_configured: false,
            overridden,
        },
    }
}

/// Edited credentials as they are stored: the developer pair trimmed, and each user
/// value trimmed, or `None` (its stored value is deleted) when absent or blank.
#[derive(Debug)]
pub struct CredentialUpdate {
    pub dev_id: String,
    pub dev_password: String,
    pub ssid: Option<String>,
    pub sspassword: Option<String>,
}

/// The message when a developer value is blank.
pub open spec fn missing_dev_message() -> Seq<char> {
    "Dev ID ir Dev Password yra privalomi"@
}

/// A present, non-blank value, trimmed.
pub open spec fn trimmed_value(o: Option<Seq<char>>) -> Option<Seq<char>> {
    match o {
        Some(v) => if trim_spec(v).len() > 0 { Some(trim_spec(v)) } else { None },
        None => None,
    }
}

fn trimmed(s: &str) -> (t: String)
    ensures
        t@ == trim_spec(s@),
{
    string_of(trim_chars(chars_of(s).as_slice()).as_slice())
}

fn trimmed_opt(o: Option<&str>) -> (t: Option<String>)
    ensures
        opt_view(t) == trimmed_value(match o {
            Some(v) => Some(v@),
            None => None,
        }),
{
    match o {
        Some(v) => {
            let t = trimmed(v);
            if chars_of(t.as_str()).len() > 0 { Some(t) } else { None }
        },
        None => None,
    }
}

/// Validates edited credentials: both developer values must be non-blank after
/// trimming, else the edit is refused with [`missing_dev_message`].
pub fn credential_update(dev_id: &str, dev_password: &str, ssid: Option<&str>, sspassword: Option<&str>) -> (r: Result<
    CredentialUpdate,
    String,
>)
    ensures
        (trim_spec(dev_id@).len() == 0 || trim_spec(dev_password@).len() == 0) ==> (r matches Err(m) && m@
            == missing_dev_message()),
        (trim_spec(dev_id@).len() > 0 && trim_spec(dev_password@).len() > 0) ==> (r matches Ok(u) && u.dev_id@
            == trim_spec(dev_id@) && u.dev_password@ == trim_spec(dev_password@) && opt_view(u.ssid)
            == trimmed_value(
            match ssid {
                Some(v) => Some(v@),
                None => None,
            },
        ) && opt_view(u.sspassword) == trimmed_value(
            match sspassword {
                Some(v) => Some(v@),
                None => None,
            },
        )),
{
    let id = trimmed(dev_id);
    let password = trimmed(dev_password);
    if chars_of(id.as_str()).len() == 0 || chars_of(password.as_str()).len() == 0 {
        return Err(String::from_str("Dev ID ir Dev Password yra privalomi"));
    }
    Ok(CredentialUpdate { dev_id: id, dev_password: password, ssid: trimmed_opt(ssid), sspassword: trimmed_opt(sspassword) })
}

/// A core as the settings screen lists it.
#[derive(Debug)]
pub struct CoreInfoDto {
    pub path: String,
    pub name: String,
    pub version: String,
    pub valid_extensions: Vec<String>,
    pub need_fullpath: bool,
    pub system_name: Option<String>,
    pub manufacturer: Option<String>,
}

/// The core chosen for a platform.
#[derive(Debug)]
pub struct PlatformCorePreference {
    pub platform_slug: String,
    pub core_path: String,
}

/// The running game's identity, as far as the library needs it: which game, and which
/// core (name and version) runs it.
#[derive(Debug)]
pub struct RunningSession {
    pub game_id: i64,
    pub core_name: String,
    pub core_version: String,
}

/// A save state made by another core, or another version of it, than the one loading it.
#[derive(Debug)]
pub struct CoreMismatch {
    pub saved_core_name: String,
    pub saved_core_version: String,
}

/// Compares the core that made the save state in a slot, if any, with the current one:
/// `None` for an empty slot or the same name and version; otherwise the saved core. A
/// mismatch is a warning; the state is loaded anyway.
pub fn detect_core_mismatch(saved: Option<&crate::db::models::SaveState>, current_core_name: &str, current_core_version: &str) -> (m: Option<CoreMismatch>)
    ensures
        match saved {
            None => m is None,
            Some(s) => if s.core_name@ == current_core_name@ && s.core_version@ == current_core_version@ {
                m is None
            } else {
                m matches Some(x) && x.saved_core_name@ == s.core_name@ && x.saved_core_version@ == s.core_version@
            },
        },
{
    let existing = match saved {
        Some(s) => s,
        None => {
            return None;
        },
    };
    if crate::text::str_eq(existing.core_name.as_str(), current_core_name) && crate::text::str_eq(
        existing.core_version.as_str(),
        current_core_version,
    ) {
        return None;
    }
    Some(CoreMismatch { saved_core_name: existing.core_name.clone(), saved_core_version: existing.core_version.clone() })
}

/// What starting a game hands to the emulator: the ROM, the core, and where the game's
/// save states and battery save live.
#[derive(Debug)]
pub struct LaunchPlan {
    pub rom_path: String,
    pub core_path: String,
    pub states_dir: String,
    pub sram_path: String,
}

/// The refusal of a start while another game runs.
pub open spec fn already_running_message() -> Seq<char> {
    "žaidimas jau paleistas — pirma uždarykite jį, tada bandykite dar kartą"@
}

/// Why a game cannot be started, if it cannot: another game runs; the game (found by
/// its ROM path) is not in the library; its platform is not; no core is chosen for the
/// platform. The first that holds decides.
pub open spec fn launch_error(
    session_running: bool,
    game_id: i64,
    rom_path: Option<Seq<char>>,
    platform_slug: Option<Seq<char>>,
    core_path: Option<Seq<char>>,
) -> Option<Seq<char>> {
    if session_running {
        Some(already_running_message())
    } else if rom_path is None {
        Some("žaidimas #"@ + i64_decimal(game_id) + " nerastas"@)
    } else if platform_slug is None {
        Some("žaidimo #"@ + i64_decimal(game_id) + " platforma nerasta DB"@)
    } else if core_path is None {
        Some("nėra pasirinkto core'o platformai „"@ + platform_slug.unwrap()
            + "\" — nueikite į Nustatymus → Cores ir pasirinkite core'ą šiai platformai"@)
    } else {
        None
    }
}

/// Decides a game start from what the database gave: the game's ROM path, its
/// platform's slug and the core chosen for that platform (each `None` when missing).
/// A refusal is one of [`launch_error`]'s messages; otherwise the plan keeps the ROM and
/// the core and names the game's save-state directory and battery-save file under
/// `data_dir`.
pub fn launch_plan(
    data_dir: &str,
    game_id: i64,
    session_running: bool,
    rom_path: Option<&str>,
    platform_slug: Option<&str>,
    core_path: Option<&str>,
) -> (r: Result<LaunchPlan, String>)
    ensures
        match launch_error(
            session_running,
            game_id,
            opt_str_view(rom_path),
            opt_str_view(platform_slug),
            opt_str_view(core_path),
        ) {
            Some(m) => r matches Err(e) && e@ == m,
            None => r matches Ok(plan) && plan.rom_path@ == rom_path.unwrap()@ && plan.core_path@
                == core_path.unwrap()@ && plan.states_dir@ == join_spec(
                join_spec(data_dir@, "states"@),
                i64_decimal(game_id),
            ) && plan.sram_path@ == join_spec(join_spec(data_dir@, "saves"@), i64_decimal(game_id) + ".srm"@),
        },
{
    if session_running {
        return Err(String::from_str("žaidimas jau paleistas — pirma uždarykite jį, tada bandykite dar kartą"));
    }
    let mut digits: Vec<char> = Vec::new();
    push_i64(&mut digits, game_id);
    let id_text = string_of(digits.as_slice());
    let rom = match rom_path {
        Some(r) => r,
        None => {
            let mut m = String::from_str("žaidimas #");
            push_str(&mut m, id_text.as_str());
            push_str(&mut m, " nerastas");
            return Err(m);
        },
    };
    let slug = match platform_slug {
        Some(p) => p,
        None => {
            let mut m = String::from_str("žaidimo #");
            push_str(&mut m, id_text.as_str());
            push_str(&mut m, " platforma nerasta DB");
            return Err(m);
        },
    };
    let core = match core_path {
        Some(c) => c,
        None => {
            let mut m = String::from_str("nėra pasirinkto core'o platformai „");
            push_str(&mut m, slug);
            push_str(&mut m, "\" — nueikite į Nustatymus → Cores ir pasirinkite core'ą šiai platformai");
            return Err(m);
        },
    };
    Ok(LaunchPlan {
        rom_path: String::from_str(rom),
        core_path: String::from_str(core),
        states_dir: game_states_dir(data_dir, game_id),
        sram_path: game_sram_path(data_dir, game_id),
    })
}

/// The file a save state in `slot` is written to, and its preview image, in a game's
/// save-state directory: `{slot}.state` and `{slot}.png`.
pub fn slot_files(states_dir: &str, slot: u8) -> (r: (String, String))
    ensures
        r.0@ == join_spec(states_dir@, crate::text::decimal_digits(slot as nat) + ".state"@),
        r.1@ == join_spec(states_dir@, crate::text::decimal_digits(slot as nat) + ".png"@),
{
    let mut digits: Vec<char> = Vec::new();
    crate::text::push_decimal(&mut digits, slot as u64);
    let mut state = string_of(digits.as_slice());
    push_str(&mut state, ".state");
    let mut png = string_of(digits.as_slice());
    push_str(&mut png, ".png");
    (join(states_dir, state.as_str()), join(states_dir, png.as_str()))
}

/// What the app does once the emulator answered the start of a game.
#[derive(Debug, Clone, Copy, PartialEq, Eq, Structural)]
pub enum StartFollowUp {
    /// The game loaded: keep the session, and when the start asked for a save-state slot,
    /// load it now (after warning of a core mismatch).
    KeepSession { load_slot: Option<u8> },
    /// The emulator reported an error: shut it down and report the error.
    ShutDown,
}

/// The follow-up to the answer of a start: `Loaded` keeps the session and loads the
/// requested slot, if any; `Error` shuts the emulator down. Only these two statuses answer
/// a start (see [`crate::ipc::route_status`]).
pub fn after_load(answer: crate::ipc::StatusKind, load_slot: Option<u8>) -> (f: StartFollowUp)
    requires
        answer != crate::ipc::StatusKind::Other,
    ensures
        answer == crate::ipc::StatusKind::Loaded ==> f == (StartFollowUp::KeepSession { load_slot }),
        answer == crate::ipc::StatusKind::Error ==> f == StartFollowUp::ShutDown,
{
    match answer {
        crate::ipc::StatusKind::Loaded => StartFollowUp::KeepSession { load_slot },
        _ => StartFollowUp::ShutDown,
    }
}

} // verus!
