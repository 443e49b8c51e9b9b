use std::io::{Read, Write};
use nullbyte::archive::{extract_first_match, ArchiveEntry};
use nullbyte::db::models::Platform;
use nullbyte::library::hasher::{hash_bytes, strip_known_header, RomHasher};
use nullbyte::library::scanner::{
    clean_title, file_extension_lower, file_outcome, stale_rows, file_verdict, make_sort_title, platform_candidates, FileOutcome,
    FileVerdict, ScanSummary,
};

#[test]
fn clean_title_handles_twenty_real_world_filenames() {
    let cases: &[(&str, &str, Option<&str>)] = &[
        ("Super Mario World (USA) [!].sfc", "Super Mario World", Some("USA")),
        ("Super Mario World.sfc", "Super Mario World", None),
        ("Chrono Trigger (Japan).sfc", "Chrono Trigger", Some("Japan")),
        ("The Legend of Zelda (USA).nes", "The Legend of Zelda", Some("USA")),
        ("Sonic The Hedgehog 2 (World).md", "Sonic The Hedgehog 2", Some("World")),
        ("Streets of Rage (Europe) (Rev A).md", "Streets of Rage", Some("Europe")),
        ("Final Fantasy VI (USA) (Rev 1) [!].sfc", "Final Fantasy VI", Some("USA")),
        ("Metroid.nes", "Metroid", None),
        ("Contra III - The Alien Wars (USA).sfc", "Contra III - The Alien Wars", Some("USA")),
        (
            "Donkey Kong Country 2 - Diddy's Kong Quest (USA).sfc",
            "Donkey Kong Country 2 - Diddy's Kong Quest",
            Some("USA"),
        ),
        ("EarthBound (USA) (Rev 1).sfc", "EarthBound", Some("USA")),
        ("F-Zero (Japan, USA).sfc", "F-Zero", None),
        ("Tetris & Dr. Mario (USA).sfc", "Tetris & Dr. Mario", Some("USA")),
        ("Mega Man X (Europe).sfc", "Mega Man X", Some("Europe")),
        ("Golden Axe (World) [b1].md", "Golden Axe", Some("World")),
        ("Gunstar Heroes (Japan, USA) (En).md", "Gunstar Heroes", None),
        ("Vectorman (USA, Europe).md", "Vectorman", None),
        ("Panel de Pon (Japan) (Beta).sfc", "Panel de Pon", Some("Japan")),
        ("Wario's Woods (USA).sfc", "Wario's Woods", Some("USA")),
        ("[BIOS] Game Boy Boot ROM (World).gb", "Game Boy Boot ROM", Some("World")),
    ];
    assert_eq!(cases.len(), 20);
    for (input, expected_title, expected_region) in cases {
        let (title, region) = clean_title(input);
        assert_eq!(&title, expected_title, "title for {input}");
        assert_eq!(region.as_deref(), *expected_region, "region for {input}");
    }
}

#[test]
fn sort_title_strips_the_prefix_and_lowercases() {
    assert_eq!(make_sort_title("The Legend of Zelda"), "legend of zelda");
    assert_eq!(make_sort_title("Chrono Trigger"), "chrono trigger");
    assert_eq!(make_sort_title("THE Elder Scrolls"), "elder scrolls");
}

#[test]
fn region_tags_match_in_any_case_and_unclosed_groups_are_dropped() {
    assert_eq!(clean_title("Zelda (usa).sfc"), ("Zelda".to_string(), Some("usa".to_string())));
    assert_eq!(clean_title("Half (Open.sfc"), ("Half".to_string(), None));
    assert_eq!(clean_title("Odd ] Bracket.sfc"), ("Odd  Bracket".to_string(), None));
}

#[test]
fn known_test_vectors_for_abc() {
    let hashes = hash_bytes(b"abc");
    assert_eq!(hashes.crc32, "352441C2");
    assert_eq!(hashes.md5, "900150983cd24fb0d6963f7d28e17f72");
    assert_eq!(hashes.sha1, "a9993e364706816aba3e25717850c26c9cd0d89d");
    assert_eq!(hashes.size, 3);
}

#[test]
fn zip_wrapped_rom_hashes_the_inner_file_not_the_archive() {
    let mut buf = Vec::new();
    {
        let mut writer = zip::ZipWriter::new(std::io::Cursor::new(&mut buf));
        writer.start_file("Game.sfc", zip::write::SimpleFileOptions::default()).unwrap();
        writer.write_all(b"abc").unwrap();
        writer.finish().unwrap();
    }
    let archive_hashes = hash_bytes(&buf);
    let mut archive = zip::ZipArchive::new(std::io::Cursor::new(buf)).unwrap();
    let entries: Vec<ArchiveEntry> = (0..archive.len())
        .map(|i| {
            let e = archive.by_index(i).unwrap();
            ArchiveEntry { name: e.name().to_string(), is_dir: e.is_dir() }
        })
        .collect();
    let (index, inner) = extract_first_match("/tmp/Game.zip", &entries, &["sfc".to_string()]).unwrap();
    let mut data = Vec::new();
    archive.by_index(index).unwrap().read_to_end(&mut data).unwrap();
    let hashes = hash_bytes(&data);
    assert_eq!(hashes.crc32, "352441C2");
    assert_eq!(hashes.md5, "900150983cd24fb0d6963f7d28e17f72");
    assert_eq!(inner, "Game.sfc");
    assert_ne!(hashes.crc32, archive_hashes.crc32);
}

#[test]
fn ines_header_is_stripped_before_hashing() {
    let mut with_header = vec![0x4E, 0x45, 0x53, 0x1A];
    with_header.extend_from_slice(&[0u8; 12]);
    with_header.extend_from_slice(b"abc");
    let hashes = hash_bytes(&with_header);
    assert_eq!(hashes.crc32, "352441C2");
    assert_eq!(hashes.size, 3);
}

#[test]
fn non_ines_data_is_not_stripped() {
    let data = b"NESX abc";
    let hashes = hash_bytes(data);
    assert_eq!(hashes.size, data.len() as u64);
}

#[test]
fn a_bare_ines_header_is_hashed_whole() {
    let header = [0x4Eu8, 0x45, 0x53, 0x1A, 0, 0, 0, 0, 0, 0, 0, 0, 0, 0, 0, 0];
    assert_eq!(strip_known_header(&header).len(), 16);
    assert_eq!(hash_bytes(&header).size, 16);
    assert_eq!(hash_bytes(&[]).crc32, "00000000");
}

fn platform(id: i64, slug: &str, extensions: &str) -> Platform {
    Platform {
        id,
        slug: slug.to_string(),
        name: slug.to_string(),
        screenscraper_id: None,
        extensions: extensions.to_string(),
    }
}

#[test]
fn plain_files_try_only_the_first_platform_that_takes_the_extension() {
    let platforms = vec![
        platform(1, "snes", "sfc, smc,zip"),
        platform(2, "nes", "nes"),
        platform(3, "bsx", "SFC"),
    ];
    let c = platform_candidates(&platforms, "sfc", None);
    assert_eq!(c.len(), 1);
    assert_eq!(c[0].platform, 0);
    assert!(c[0].inner_extensions.is_empty());
    let c = platform_candidates(&platforms, "sfc", Some(3));
    assert_eq!(c.len(), 1);
    assert_eq!(c[0].platform, 2);
    assert!(platform_candidates(&platforms, "txt", None).is_empty());
}

#[test]
fn archives_try_every_platform_with_its_inner_extensions() {
    let platforms = vec![
        platform(1, "segacd", "cue,iso,zip"),
        platform(2, "psx", "cue, bin ,zip,7z"),
        platform(3, "snes", "sfc"),
    ];
    let c = platform_candidates(&platforms, "zip", None);
    assert_eq!(c.len(), 2);
    assert_eq!(c[0].platform, 0);
    assert_eq!(c[0].inner_extensions, vec!["cue".to_string(), "iso".to_string()]);
    assert_eq!(c[1].platform, 1);
    assert_eq!(c[1].inner_extensions, vec!["cue".to_string(), "bin".to_string()]);
    let c = platform_candidates(&platforms, "zip", Some(2));
    assert_eq!(c.len(), 1);
    assert_eq!(c[0].platform, 1);
}

#[test]
fn unchanged_files_are_skipped_unless_the_hint_disagrees() {
    assert_eq!(file_verdict(None, 5, None), FileVerdict::Process { is_new: true });
    assert_eq!(file_verdict(Some((5, 1)), 5, None), FileVerdict::Unchanged);
    assert_eq!(file_verdict(Some((5, 1)), 6, None), FileVerdict::Process { is_new: false });
    assert_eq!(file_verdict(Some((5, 1)), 5, Some(1)), FileVerdict::Unchanged);
    assert_eq!(file_verdict(Some((5, 1)), 5, Some(2)), FileVerdict::Process { is_new: false });
}

#[test]
fn tally_counts_each_outcome() {
    let s = ScanSummary::tally(
        &[FileOutcome::Added, FileOutcome::Skipped, FileOutcome::Added, FileOutcome::Unchanged, FileOutcome::Updated],
        3,
    );
    assert_eq!(
        s,
        ScanSummary { added: 2, updated: 1, unchanged: 1, removed: 3, skipped_unknown_extension: 1 }
    );
}

#[test]
fn extensions_are_lower_cased() {
    assert_eq!(file_extension_lower("/roms/Game.SFC").as_deref(), Some("sfc"));
    assert_eq!(file_extension_lower("/roms/readme"), None);
    assert_eq!(file_extension_lower("/roms/.hidden"), None);
}

#[test]
fn streaming_matches_in_memory_for_same_content() {
    let mut data = vec![0u8; 5 * 1024 * 1024];
    for (i, byte) in data.iter_mut().enumerate() {
        *byte = (i % 251) as u8;
    }
    let in_memory = hash_bytes(&data);
    let mut hasher = RomHasher::new();
    for chunk in data.chunks(1024 * 1024) {
        hasher.update(chunk);
    }
    let streamed = hasher.finish();
    assert_eq!(in_memory.crc32, streamed.crc32);
    assert_eq!(in_memory.md5, streamed.md5);
    assert_eq!(in_memory.sha1, streamed.sha1);
    assert_eq!(in_memory.size, streamed.size);
}

#[test]
fn streaming_strips_an_ines_header_from_the_first_chunk_only() {
    let mut with_header = vec![0x4E, 0x45, 0x53, 0x1A];
    with_header.extend_from_slice(&[0u8; 12]);
    with_header.extend_from_slice(b"ab");
    let mut hasher = RomHasher::new();
    hasher.update(&with_header);
    hasher.update(b"c");
    let h = hasher.finish();
    assert_eq!(h.crc32, "352441C2");
    assert_eq!(h.md5, "900150983cd24fb0d6963f7d28e17f72");
    assert_eq!(h.size, 3);
}

#[test]
fn stale_rows_stay_inside_the_scanned_directory() {
    let stored: Vec<String> =
        ["/roms/a.sfc", "/roms2/b.sfc", "/roms/sub/c.sfc", "/roms", "/other/d.sfc"].iter().map(|s| s.to_string()).collect();
    let found = vec!["/roms/sub/c.sfc".to_string()];
    assert_eq!(stale_rows("/roms", &stored, &found), vec!["/roms/a.sfc".to_string(), "/roms".to_string()]);
    assert_eq!(stale_rows("/roms/", &stored, &found), vec!["/roms/a.sfc".to_string()]);
}

#[test]
fn a_second_scan_finds_stored_files_unchanged() {
    let stored = Some((1000, 3));
    let first = file_outcome(file_verdict(None, 1000, None), true);
    assert_eq!(first, FileOutcome::Added);
    let second = file_outcome(file_verdict(stored, 1000, None), true);
    assert_eq!(second, FileOutcome::Unchanged);
    let skipped = file_outcome(file_verdict(None, 1000, None), false);
    assert_eq!(skipped, FileOutcome::Skipped);
    assert_eq!(file_outcome(file_verdict(Some((900, 3)), 1000, None), true), FileOutcome::Updated);
    let s1 = ScanSummary::tally(&[first, skipped], 0);
    let s2 = ScanSummary::tally(&[second, FileOutcome::Skipped], 0);
    assert_eq!((s1.added, s1.skipped_unknown_extension), (1, 1));
    assert_eq!((s2.added, s2.updated, s2.unchanged, s2.skipped_unknown_extension), (0, 0, 1, 1));
}
