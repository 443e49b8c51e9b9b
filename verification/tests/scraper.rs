use nullbyte::scraper::entities::unescape_html_entities;
use nullbyte::scraper::image_dimensions::read_dimensions;
use nullbyte::scraper::media::{default_extension, extension_for, media_relative_path, pick_best, pick_video};
use nullbyte::scraper::rate_limit::{cache_entry, cache_hit, cache_key, cache_verdict, retry_step, CacheVerdict, PermitCount, RetryStep};
use nullbyte::scraper::screenscraper::{
    extract_quota, lookup_query, parse_response, pick_region_text, status_outcome, LookupError, LookupSuccess,
    QuotaInfo, RomIdentity, ScrapeOutcome, ScreenScraperCredentials,
};
use nullbyte::scraper::types::{
    Genre, Header, IdText, JeuInfosBody, JeuInfosResponse, Jeu, LangText, Media, OneOrMany, RegionText,
    Serveurs, SsUser, TextOnly,
};
use nullbyte::db::models::Platform;
use nullbyte::scraper::{lookup_system, quota_left, rom_filename, GameOutcome, ScrapeRun};
use nullbyte::video::png_encoder::encode_rgba8;

#[test]
fn unescape_html_entities_decodes_real_actraiser_case() {
    let input = r#"You play &quot;The Master&quot;, and must save the world."#;
    let expected = r#"You play "The Master", and must save the world."#;
    assert_eq!(unescape_html_entities(input), expected);
}

#[test]
fn unescape_html_entities_handles_all_standard_named_entities() {
    assert_eq!(unescape_html_entities("Q&amp;A"), "Q&A");
    assert_eq!(unescape_html_entities("a &lt; b &gt; c"), "a < b > c");
    assert_eq!(unescape_html_entities("it&apos;s"), "it's");
    assert_eq!(unescape_html_entities("it&#39;s"), "it's");
    assert_eq!(unescape_html_entities("it&#x27;s"), "it's");
}

#[test]
fn unescape_html_entities_leaves_bare_ampersand_untouched() {
    assert_eq!(unescape_html_entities("R&D Games"), "R&D Games");
}

#[test]
fn unescape_html_entities_leaves_unknown_entity_untouched() {
    assert_eq!(unescape_html_entities("&unknown;"), "&unknown;");
}

#[test]
fn unescape_html_entities_handles_empty_and_no_entities() {
    assert_eq!(unescape_html_entities(""), "");
    assert_eq!(unescape_html_entities("plain text"), "plain text");
}

#[test]
fn unescape_numeric_references_and_far_semicolons() {
    assert_eq!(unescape_html_entities("&#65;&#x42;&#X43;"), "ABC");
    assert_eq!(unescape_html_entities("&#xD800;"), "&#xD800;");
    assert_eq!(unescape_html_entities("&&amp;"), "&&");
    assert_eq!(unescape_html_entities("&abcdefghijk;"), "&abcdefghijk;");
    assert_eq!(unescape_html_entities("&ąąąąą;x"), "&ąąąąą;x");
}

fn rt(region: &str, text: &str) -> RegionText {
    RegionText { region: region.into(), text: text.into() }
}

fn lt(langue: &str, text: &str) -> LangText {
    LangText { langue: langue.into(), text: text.into() }
}

#[test]
fn region_priority_prefers_eu_over_us_jp_ss() {
    let items = vec![rt("ss", "ss-value"), rt("jp", "jp-value"), rt("us", "us-value"), rt("eu", "eu-value")];
    assert_eq!(pick_region_text(&items).as_deref(), Some("eu-value"));
}

fn snes_reply() -> JeuInfosResponse {
    JeuInfosResponse {
        header: Header { success: "true".into(), error: String::new() },
        response: Some(JeuInfosBody {
            jeu: Jeu {
                id: "2147".into(),
                noms: OneOrMany::Many(vec![
                    rt("ss", "Super Metroid"),
                    rt("us", "Super Metroid"),
                    rt("jp", "Super Metroid"),
                    rt("eu", "Super Metroid"),
                ]),
                synopsis: OneOrMany::Many(vec![
                    lt("en", "Join forces with the power of Samus..."),
                    lt("fr", "Associez-vous avec la puissance de Samus..."),
                ]),
                developpeur: Some(IdText { id: "286".into(), text: "Nintendo".into() }),
                editeur: Some(IdText { id: "286".into(), text: "Nintendo".into() }),
                joueurs: Some(TextOnly { text: "1".into() }),
                note: Some(TextOnly { text: "16".into() }),
                dates: OneOrMany::Many(vec![rt("us", "1994-04-18"), rt("jp", "1994-03-19"), rt("eu", "1994-07-28")]),
                genres: OneOrMany::Many(vec![Genre {
                    noms: OneOrMany::Many(vec![lt("en", "Platform"), lt("fr", "Plateforme")]),
                }]),
                medias: OneOrMany::Many(vec![Media {
                    media_type: "box-2D".into(),
                    region: Some("us".into()),
                    url: "https://example.invalid/box.png".into(),
                    format: Some("png".into()),
                }]),
                rom: None,
            },
            serveurs: Some(Serveurs { closefornomember: "0".into(), closeforleecher: "0".into() }),
            ssuser: Some(SsUser {
                maxthreads: "1".into(),
                requeststoday: "0".into(),
                maxrequestsperday: "20000".into(),
            }),
        }),
    }
}

#[test]
fn parses_real_snes_response_shape_and_extracts_correct_metadata() {
    let success = parse_response(Ok(snes_reply()), "", 200).unwrap();
    let ScrapeOutcome::Found(metadata) = success.outcome else {
        panic!("expected Found");
    };
    assert_eq!(metadata.title, "Super Metroid");
    assert_eq!(metadata.developer.as_deref(), Some("Nintendo"));
    assert_eq!(metadata.publisher.as_deref(), Some("Nintendo"));
    assert_eq!(metadata.genre.as_deref(), Some("Platform"));
    assert_eq!(metadata.players, Some(1));
    assert_eq!(metadata.release_date.as_deref(), Some("1994-07-28"));
    assert_eq!(metadata.rating_text.as_deref(), Some("16"));
    assert_eq!(metadata.region.as_deref(), Some("eu"));
    assert!(metadata.description.unwrap().starts_with("Join forces"));
    let quota = success.quota.unwrap();
    assert_eq!(quota.maxthreads, 1);
    assert_eq!(quota.requests_today, 0);
    assert_eq!(quota.max_requests_per_day, 20000);
    assert!(!quota.closed_for_nonmember);
    assert!(!quota.closed_for_leecher);
    assert_eq!(metadata.medias.len(), 1);
    assert_eq!(metadata.medias[0].media_type, "box-2D");
}

#[test]
fn malformed_json_returns_err_not_panic() {
    let body = "{ šitas JSON sąmoningai sugadintas";
    let result = parse_response(Err("expected value at line 1".to_string()), body, 200);
    assert!(matches!(result, Err(LookupError::BadJson { .. })));
}

#[test]
fn api_closed_text_body_is_rate_limited_not_generic_error() {
    let result = parse_response(Err("expected value".to_string()), "API closed for now", 200);
    assert!(matches!(result, Err(LookupError::RateLimited { status: 200 })));
}

#[test]
fn valid_json_missing_response_key_is_not_found() {
    let reply = JeuInfosResponse {
        header: Header { success: "false".into(), error: "kažkas".into() },
        response: None,
    };
    let result = parse_response(Ok(reply), "", 200);
    assert!(matches!(result.unwrap().outcome, ScrapeOutcome::NotFound));
}

#[test]
fn one_or_many_accepts_single_object_where_array_is_typical() {
    let reply = JeuInfosResponse {
        header: Header { success: "true".into(), error: String::new() },
        response: Some(JeuInfosBody {
            jeu: Jeu {
                id: "1".into(),
                noms: OneOrMany::One(rt("us", "Solo Game")),
                synopsis: OneOrMany::empty(),
                developpeur: Some(IdText { id: "1".into(), text: "Dev".into() }),
                editeur: Some(IdText { id: "1".into(), text: "Pub".into() }),
                joueurs: None,
                note: None,
                dates: OneOrMany::empty(),
                genres: OneOrMany::empty(),
                medias: OneOrMany::empty(),
                rom: None,
            },
            serveurs: None,
            ssuser: None,
        }),
    };
    let success = parse_response(Ok(reply), "", 200).unwrap();
    let ScrapeOutcome::Found(metadata) = success.outcome else {
        panic!("expected Found");
    };
    assert_eq!(metadata.title, "Solo Game");
    assert!(success.quota.is_none());
}

#[test]
fn quota_numbers_that_do_not_parse_fall_back() {
    let body = JeuInfosBody {
        jeu: snes_reply().response.unwrap().jeu,
        serveurs: Some(Serveurs { closefornomember: "1".into(), closeforleecher: "".into() }),
        ssuser: Some(SsUser { maxthreads: "".into(), requeststoday: "x".into(), maxrequestsperday: "+7".into() }),
    };
    assert_eq!(
        extract_quota(&body),
        Some(QuotaInfo {
            maxthreads: 1,
            requests_today: 0,
            max_requests_per_day: 7,
            closed_for_nonmember: true,
            closed_for_leecher: false,
        })
    );
}

#[test]
fn status_codes_decide_before_the_body() {
    assert!(matches!(status_outcome(429), Some(Err(LookupError::RateLimited { status: 429 }))));
    assert!(matches!(status_outcome(430), Some(Err(LookupError::RateLimited { status: 430 }))));
    assert!(matches!(status_outcome(404), Some(Ok(LookupSuccess { outcome: ScrapeOutcome::NotFound, quota: None }))));
    assert!(matches!(status_outcome(500), Some(Err(LookupError::HttpStatus { status: 500 }))));
    assert!(status_outcome(200).is_none());
}

#[test]
fn lookup_query_lists_known_identifiers_in_order() {
    let creds = ScreenScraperCredentials {
        devid: "dev".into(),
        devpassword: "pw".into(),
        ssid: Some("user".into()),
        sspassword: None,
    };
    let rom = RomIdentity {
        crc32: Some("AD2CBF9C"),
        md5: None,
        sha1: None,
        size: Some(3_145_728),
        filename: "Super Metroid.sfc",
        systemeid: 4,
    };
    let q = lookup_query(&creds, &rom, "Nullbyte-0.1.0");
    let pairs: Vec<(&str, &str)> = q.iter().map(|(k, v)| (k.as_str(), v.as_str())).collect();
    assert_eq!(
        pairs,
        vec![
            ("devid", "dev"),
            ("devpassword", "pw"),
            ("softname", "Nullbyte-0.1.0"),
            ("output", "json"),
            ("romnom", "Super Metroid.sfc"),
            ("systemeid", "4"),
            ("ssid", "user"),
            ("crc", "AD2CBF9C"),
            ("romtaille", "3145728"),
        ]
    );
}

#[test]
fn stored_credentials_win_over_the_environment() {
    let env = ScreenScraperCredentials {
        devid: "env-id".into(),
        devpassword: "env-pass".into(),
        ssid: Some("env-user".into()),
        sspassword: None,
    };
    let c = ScreenScraperCredentials::resolve(Some("db-id".into()), Some("".into()), None, None, Some(env)).unwrap();
    assert_eq!(c.devid, "db-id");
    assert_eq!(c.devpassword, "env-pass");
    assert_eq!(c.ssid.as_deref(), Some("env-user"));
    assert!(ScreenScraperCredentials::resolve(Some("db-id".into()), None, None, None, None).is_none());
}

#[test]
fn quota_left_subtracts_used_from_max() {
    let quota = QuotaInfo {
        maxthreads: 1,
        requests_today: 30,
        max_requests_per_day: 100,
        closed_for_nonmember: false,
        closed_for_leecher: false,
    };
    assert_eq!(quota_left(&quota), 70);
    let over = QuotaInfo { requests_today: 130, ..quota };
    assert_eq!(quota_left(&over), 0);
}

#[test]
fn cache_key_prefers_crc_over_name() {
    assert_eq!(cache_key(Some("ad2cbf9c"), "snes", "x.sfc"), "crc:AD2CBF9C");
    assert_eq!(cache_key(None, "snes", "Super Metroid.sfc"), "name:snes:Super Metroid.sfc");
}

#[test]
fn notfound_entries_expire_after_seven_days() {
    assert_eq!(cache_verdict(None, 1000), CacheVerdict::Miss);
    assert_eq!(cache_verdict(Some((true, 0)), 1_000_000_000), CacheVerdict::Found);
    assert_eq!(cache_verdict(Some((false, 1000)), 1000 + 604_800), CacheVerdict::NotFound);
    assert_eq!(cache_verdict(Some((false, 1000)), 1001 + 604_800), CacheVerdict::Miss);
}

#[test]
fn backoff_waits_two_four_eight_sixteen_then_gives_up() {
    let limited = || Err(LookupError::RateLimited { status: 429 });
    let waits: Vec<u64> = (0..4)
        .map(|a| match retry_step(a, limited()) {
            RetryStep::Wait(d) => d,
            other => panic!("expected a wait, got {other:?}"),
        })
        .collect();
    assert_eq!(waits, vec![2, 4, 8, 16]);
    assert!(matches!(retry_step(4, limited()), RetryStep::GiveUp(429)));
    assert!(matches!(
        retry_step(0, Err(LookupError::HttpStatus { status: 500 })),
        RetryStep::Done(Err(LookupError::HttpStatus { status: 500 }))
    ));
}

#[test]
fn update_maxthreads_only_grows_and_adds_correct_permit_delta() {
    let mut permits = PermitCount::new();
    assert_eq!(permits.granted, 1);
    assert_eq!(permits.update_maxthreads(4), 3);
    assert_eq!(permits.granted, 4);
    assert_eq!(permits.update_maxthreads(2), 0);
    assert_eq!(permits.granted, 4);
    assert_eq!(permits.update_maxthreads(6), 2);
    assert_eq!(permits.granted, 6);
    assert_eq!(permits.update_maxthreads(0), 0);
}

#[test]
fn rom_filename_prefers_archive_inner_over_rom_path() {
    assert_eq!(rom_filename("/roms/collection.zip", Some("Super Metroid.sfc")), "Super Metroid.sfc");
}

#[test]
fn rom_filename_falls_back_to_rom_path_basename() {
    assert_eq!(rom_filename("/roms/snes/Super Metroid.sfc", None), "Super Metroid.sfc");
}

#[test]
fn a_run_counts_outcomes_and_stops_on_a_failed_lookup() {
    let mut run = ScrapeRun::new(3);
    let q = QuotaInfo {
        maxthreads: 1,
        requests_today: 5,
        max_requests_per_day: 10,
        closed_for_nonmember: false,
        closed_for_leecher: false,
    };
    let _ = run.before_game(false, true);
    assert_eq!(run.after_game(Some((GameOutcome::Found, Some(q)))), (1, GameOutcome::Found, Some(5)));
    let _ = run.before_game(false, false);
    let _ = run.before_game(false, true);
    assert_eq!(run.after_game(None), (3, GameOutcome::Error, Some(5)));
    assert!(run.stopped);
    assert_eq!((run.summary.found, run.summary.not_found, run.summary.errored), (1, 0, 1));
    assert_eq!(GameOutcome::Unsupported.status_str(), "unsupported");
}

fn media(media_type: &str, region: Option<&str>, url: &str, format: Option<&str>) -> Media {
    Media {
        media_type: media_type.to_string(),
        region: region.map(str::to_string),
        url: url.to_string(),
        format: format.map(str::to_string),
    }
}

#[test]
fn pick_best_prefers_eu_over_us_jp_ss() {
    let medias = vec![
        media("box-2D", Some("ss"), "u1", None),
        media("box-2D", Some("us"), "u2", None),
        media("box-2D", Some("eu"), "u3", None),
        media("ss", Some("us"), "u4", None),
    ];
    assert_eq!(pick_best(&medias, "box-2D").unwrap().url, "u3");
}

#[test]
fn pick_best_falls_back_to_first_when_no_priority_region_present() {
    let medias = vec![media("wheel", Some("br"), "u1", None)];
    assert_eq!(pick_best(&medias, "wheel").unwrap().url, "u1");
}

#[test]
fn pick_best_returns_none_when_type_absent() {
    let medias = vec![media("box-2D", Some("eu"), "u1", None)];
    assert!(pick_best(&medias, "wheel").is_none());
}

#[test]
fn pick_video_prefers_normalized_over_plain() {
    let medias = vec![media("video", Some("eu"), "plain", None), media("video-normalized", Some("eu"), "normalized", None)];
    assert_eq!(pick_video(&medias).unwrap().url, "normalized");
}

#[test]
fn pick_video_falls_back_to_plain_when_normalized_absent() {
    let medias = vec![media("video", Some("eu"), "plain", None)];
    assert_eq!(pick_video(&medias).unwrap().url, "plain");
}

#[test]
fn extension_prefers_format_field_over_url() {
    let m = media("box-2D", None, "https://x.invalid/file.jpg?x=1", Some("png"));
    assert_eq!(extension_for(&m), "png");
}

#[test]
fn extension_falls_back_to_url_path_ignoring_query_string() {
    let m = media("box-2D", None, "https://x.invalid/file.JPG?devid=secret", None);
    assert_eq!(extension_for(&m), "jpg");
}

#[test]
fn extension_falls_back_to_type_default_when_nothing_else_available() {
    let m = media("video", None, "https://x.invalid/no-extension-here", None);
    assert_eq!(extension_for(&m), "mp4");
    assert_eq!(default_extension("wheel"), "png");
    assert_eq!(media_relative_path("covers", 42, "png"), "covers/42.png");
}

fn make_png(width: u32, height: u32) -> Vec<u8> {
    let mut data = vec![0x89, 0x50, 0x4E, 0x47, 0x0D, 0x0A, 0x1A, 0x0A];
    data.extend_from_slice(&[0, 0, 0, 13]);
    data.extend_from_slice(b"IHDR");
    data.extend_from_slice(&width.to_be_bytes());
    data.extend_from_slice(&height.to_be_bytes());
    data.extend_from_slice(&[0; 5]);
    data
}

#[test]
fn reads_real_png_dimensions() {
    assert_eq!(read_dimensions(&make_png(680, 497)), Some((680, 497)));
    assert_eq!(read_dimensions(&make_png(680, 680)), Some((680, 680)));
}

fn make_minimal_jpeg(width: u16, height: u16) -> Vec<u8> {
    let mut data = vec![0xFF, 0xD8];
    data.extend_from_slice(&[0xFF, 0xE0, 0x00, 0x04, 0xAB, 0xCD]);
    data.extend_from_slice(&[0xFF, 0xC0, 0x00, 0x08, 0x08]);
    data.extend_from_slice(&height.to_be_bytes());
    data.extend_from_slice(&width.to_be_bytes());
    data.push(0x03);
    data
}

#[test]
fn reads_real_jpeg_dimensions_skipping_earlier_segments() {
    assert_eq!(read_dimensions(&make_minimal_jpeg(705, 700)), Some((705, 700)));
}

#[test]
fn rejects_garbage_and_too_short_input() {
    assert_eq!(read_dimensions(b"not an image"), None);
    assert_eq!(read_dimensions(b""), None);
    assert_eq!(read_dimensions(&[0xFF, 0xD8]), None);
}

#[test]
fn an_encoded_preview_reads_back_its_size() {
    let png = encode_rgba8(3, 2, &[7u8; 3 * 2 * 4]).unwrap();
    assert_eq!(read_dimensions(&png), Some((3, 2)));
}

#[test]
fn lookup_errors_read_as_messages() {
    assert_eq!(LookupError::HttpStatus { status: 500 }.message(), "ScreenScraper HTTP 500");
    assert_eq!(
        LookupError::RateLimited { status: 429 }.message(),
        "ScreenScraper kvota viršyta arba API laikinai uždaryta (HTTP 429)"
    );
    assert_eq!(
        LookupError::BadJson { message: "eof".to_string() }.message(),
        "ScreenScraper JSON parsinimo klaida: eof"
    );
}

#[test]
fn platforms_unknown_to_screenscraper_are_unsupported() {
    let mut p = Platform {
        id: 1,
        slug: "snes".to_string(),
        name: "SNES".to_string(),
        screenscraper_id: Some(4),
        extensions: "sfc".to_string(),
    };
    assert_eq!(lookup_system(&p), Ok(4));
    p.screenscraper_id = None;
    assert_eq!(lookup_system(&p), Err(GameOutcome::Unsupported));
}

#[test]
fn a_stored_answer_is_read_back_from_the_cache() {
    let found = ScrapeOutcome::NotFound;
    let row = cache_entry(&found, 1000);
    assert_eq!(row, (false, 1000));
    assert_eq!(cache_verdict(Some(row), 1000 + 60), CacheVerdict::NotFound);
    assert_eq!(cache_verdict(Some(row), 1001 + 604_800), CacheVerdict::Miss);
}

#[test]
fn a_cache_hit_needs_no_request() {
    let hit = cache_hit(CacheVerdict::NotFound, None).unwrap();
    assert!(hit.from_cache && hit.quota.is_none());
    assert!(matches!(hit.outcome, ScrapeOutcome::NotFound));
    assert!(cache_hit(CacheVerdict::Miss, None).is_none());
}
