use std::collections::HashSet;

use nullbyte::commands::{
    after_load, credential_status, credential_update, default_bindings, detect_core_mismatch, launch_plan,
    mask_dev_id, StartFollowUp,
    slot_files,
};
use nullbyte::db::games::{
    fts_query, list_games_query, pending_games_query, GameFilter, SortDirection, SortField, SqlParam,
};
use nullbyte::db::models::SaveState;
use nullbyte::ipc::StatusKind;
use nullbyte::paths::{
    cores_dir, data_dir, db_path, game_sram_path, game_states_dir, join, media_dir, saves_dir, states_dir,
    system_dir,
};
use nullbyte::scraper::screenscraper::ScreenScraperCredentials;

#[test]
fn default_bindings_cover_all_sixteen_retropad_buttons_uniquely() {
    let bindings = default_bindings();
    assert_eq!(bindings.len(), 16);
    let unique: HashSet<_> = bindings.iter().map(|b| b.retropad_button.as_str()).collect();
    assert_eq!(unique.len(), 16);
}

#[test]
fn default_bindings_match_the_real_hardcoded_keyboard_mapping() {
    let bindings = default_bindings();
    let find = |button: &str| {
        bindings
            .iter()
            .find(|b| b.retropad_button == button)
            .and_then(|b| b.keyboard_key.as_deref())
    };
    assert_eq!(find("up"), Some("ArrowUp"));
    assert_eq!(find("down"), Some("ArrowDown"));
    assert_eq!(find("left"), Some("ArrowLeft"));
    assert_eq!(find("right"), Some("ArrowRight"));
    assert_eq!(find("b"), Some("KeyZ"));
    assert_eq!(find("a"), Some("KeyX"));
    assert_eq!(find("y"), Some("KeyA"));
    assert_eq!(find("x"), Some("KeyS"));
    assert_eq!(find("start"), Some("Enter"));
    assert_eq!(find("select"), Some("ShiftRight"));
    assert_eq!(find("l"), None);
    assert_eq!(find("r"), None);
}

const DATA: &str = "/home/player/.local/share/nullbyte";

#[test]
fn per_game_paths_nest_under_states_and_saves_dir_by_id() {
    assert_eq!(game_states_dir(DATA, 42), join(&states_dir(DATA), "42"));
    assert_eq!(game_sram_path(DATA, 42), join(&saves_dir(DATA), "42.srm"));
}

#[test]
fn derived_dirs_nest_under_data_dir() {
    assert_eq!(cores_dir(DATA), format!("{DATA}/cores"));
    assert_eq!(system_dir(DATA), format!("{DATA}/system"));
    assert_eq!(saves_dir(DATA), format!("{DATA}/saves"));
    assert_eq!(states_dir(DATA), format!("{DATA}/states"));
    assert_eq!(media_dir(DATA), format!("{DATA}/media"));
    assert_eq!(db_path(DATA), format!("{DATA}/nullbyte.db"));
    assert_eq!(game_states_dir(DATA, -3), format!("{DATA}/states/-3"));
    assert_eq!(join("/", "x"), "/x");
    assert_eq!(join("", "x"), "x");
}

#[test]
fn data_dir_follows_platform_convention() {
    assert_eq!(
        data_dir(Some("/Users/p"), None, true).as_deref(),
        Some("/Users/p/Library/Application Support/Nullbyte")
    );
    assert_eq!(data_dir(Some("/home/p"), None, false).as_deref(), Some("/home/p/.local/share/nullbyte"));
    assert_eq!(data_dir(Some("/home/p"), Some("/xdg"), false).as_deref(), Some("/xdg/nullbyte"));
    assert_eq!(data_dir(None, None, false), None);
}

fn saved(core_name: &str, core_version: &str) -> SaveState {
    SaveState {
        id: 1,
        game_id: 1,
        slot: 1,
        path: "/states/1.state".to_string(),
        thumb_path: None,
        core_name: core_name.to_string(),
        core_version: core_version.to_string(),
        created_at: 1000,
    }
}

#[test]
fn detect_core_mismatch_is_none_for_an_empty_slot() {
    assert!(detect_core_mismatch(None, "Snes9x", "1.63").is_none());
}

#[test]
fn detect_core_mismatch_is_none_when_core_name_and_version_match() {
    let s = saved("Snes9x", "1.63");
    assert!(detect_core_mismatch(Some(&s), "Snes9x", "1.63").is_none());
}

#[test]
fn detect_core_mismatch_fires_on_version_change_but_not_name_change() {
    let s = saved("Snes9x", "1.62.3");
    let mismatch = detect_core_mismatch(Some(&s), "Snes9x", "1.63").expect("a version change is a mismatch");
    assert_eq!(mismatch.saved_core_name, "Snes9x");
    assert_eq!(mismatch.saved_core_version, "1.62.3");
}

#[test]
fn detect_core_mismatch_fires_on_different_core_entirely() {
    let s = saved("bsnes", "115");
    let mismatch = detect_core_mismatch(Some(&s), "Snes9x", "1.63").expect("another core is a mismatch");
    assert_eq!(mismatch.saved_core_name, "bsnes");
}

#[test]
fn dev_ids_are_masked_to_two_characters() {
    assert_eq!(mask_dev_id("abcdef"), "ab••••");
    assert_eq!(mask_dev_id("a"), "a••••");
    assert_eq!(mask_dev_id(""), "••••");
    let creds = ScreenScraperCredentials {
        devid: "xyz123".into(),
        devpassword: "p".into(),
        ssid: None,
        sspassword: None,
    };
    let status = credential_status(Some(""), Some(&creds));
    assert!(status.dev_credentials_configured);
    assert_eq!(status.dev_id_masked.as_deref(), Some("xy••••"));
    assert!(!status.user_login_configured);
    assert!(!status.overridden);
    let status = credential_status(Some("id"), None);
    assert!(!status.dev_credentials_configured && status.overridden);
}

#[test]
fn edited_credentials_are_trimmed_and_blank_user_values_deleted() {
    assert_eq!(credential_update("  ", "pw", None, None).unwrap_err(), "Dev ID ir Dev Password yra privalomi");
    let u = credential_update(" id ", "pw\n", Some("  "), Some(" secret ")).unwrap();
    assert_eq!(u.dev_id, "id");
    assert_eq!(u.dev_password, "pw");
    assert_eq!(u.ssid, None);
    assert_eq!(u.sspassword.as_deref(), Some("secret"));
}

#[test]
fn fts_query_makes_prefix_terms_of_alphanumeric_words() {
    assert_eq!(fts_query("mario").as_deref(), Some("mario*"));
    assert_eq!(fts_query("  Super   Mario!  ").as_deref(), Some("Super* Mario*"));
    assert_eq!(fts_query("!!! ???"), None);
    assert_eq!(fts_query(""), None);
    assert_eq!(fts_query("Pokémon R&D").as_deref(), Some("Pokémon* RD*"));
}

#[test]
fn list_query_joins_the_conditions_in_order() {
    let filter = GameFilter {
        platform_id: Some(4),
        search: Some("zelda".into()),
        favorites_only: true,
        sort: SortField::LastPlayed,
        sort_direction: SortDirection::Desc,
        page: 2,
        page_size: 25,
    };
    let (sql, params) = list_games_query(&filter);
    assert!(sql.starts_with("SELECT g.id, g.platform_id,"));
    assert!(sql.ends_with(
        " FROM games g JOIN games_fts f ON f.rowid = g.id WHERE f.games_fts MATCH ? AND g.platform_id = ? AND g.favorite = 1 ORDER BY g.last_played DESC LIMIT ? OFFSET ?"
    ));
    assert_eq!(params.len(), 4);
    assert!(matches!(&params[0], SqlParam::Text(t) if t == "zelda*"));
    assert!(matches!(params[1], SqlParam::Int(4)));
    assert!(matches!(params[2], SqlParam::UInt(25)));
    assert!(matches!(params[3], SqlParam::UInt(50)));

    let (sql, params) = list_games_query(&GameFilter::default());
    assert!(sql.ends_with(" FROM games g ORDER BY g.sort_title ASC LIMIT ? OFFSET ?"));
    assert!(matches!(params[..], [SqlParam::UInt(50), SqlParam::UInt(0)]));

    let (sql, params) = pending_games_query(Some(9));
    assert!(sql.ends_with(" WHERE g.scrape_status = 'pending' AND g.platform_id = ? ORDER BY g.id"));
    assert!(matches!(params[..], [SqlParam::Int(9)]));
}

#[test]
fn a_start_needs_a_free_session_a_game_a_platform_and_a_core() {
    let d = "/home/player/.local/share/nullbyte";
    assert_eq!(
        launch_plan(d, 7, true, Some("/r.sfc"), Some("snes"), Some("/c.so")).unwrap_err(),
        "žaidimas jau paleistas — pirma uždarykite jį, tada bandykite dar kartą"
    );
    assert_eq!(launch_plan(d, 7, false, None, None, None).unwrap_err(), "žaidimas #7 nerastas");
    assert_eq!(launch_plan(d, 7, false, Some("/r.sfc"), None, None).unwrap_err(), "žaidimo #7 platforma nerasta DB");
    assert_eq!(
        launch_plan(d, 7, false, Some("/r.sfc"), Some("snes"), None).unwrap_err(),
        "nėra pasirinkto core'o platformai „snes\" — nueikite į Nustatymus → Cores ir pasirinkite core'ą šiai platformai"
    );
    let plan = launch_plan(d, 7, false, Some("/r.sfc"), Some("snes"), Some("/c.so")).unwrap();
    assert_eq!(plan.rom_path, "/r.sfc");
    assert_eq!(plan.core_path, "/c.so");
    assert_eq!(plan.states_dir, "/home/player/.local/share/nullbyte/states/7");
    assert_eq!(plan.sram_path, "/home/player/.local/share/nullbyte/saves/7.srm");
}

#[test]
fn slot_files_are_named_by_slot() {
    let (state, png) = slot_files("/data/states/7", 3);
    assert_eq!(state, "/data/states/7/3.state");
    assert_eq!(png, "/data/states/7/3.png");
    assert_eq!(slot_files("/data/states/7/", 12).0, "/data/states/7/12.state");
}

#[test]
fn a_loaded_game_keeps_its_session_and_an_error_shuts_down() {
    assert_eq!(after_load(StatusKind::Loaded, Some(2)), StartFollowUp::KeepSession { load_slot: Some(2) });
    assert_eq!(after_load(StatusKind::Loaded, None), StartFollowUp::KeepSession { load_slot: None });
    assert_eq!(after_load(StatusKind::Error, Some(2)), StartFollowUp::ShutDown);
}
