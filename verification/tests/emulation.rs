use std::io::{Read, Write};
use nullbyte::archive::{base_name, extract_first_match, has_valid_extension, ArchiveEntry};
use nullbyte::audio::ring::{fill_level, fill_split, newest_that_fit, recommended_capacity, AudioProducer};
use nullbyte::emulation::loader::{copy_sram, core_valid_extensions, rom_handover, RomHandover};
use nullbyte::emulation::runner::{
    map_pixel_format, CommandEffect, EmuCommand, FrameStep, InputState, Pacing, RunnerState,
};
use nullbyte::error::CoreError;
use nullbyte::ipc::{route_status, IpcHello, StatusKind, StatusRoute, IPC_PROTOCOL_VERSION};
use nullbyte::video::pixel_format::PixelFormat;

#[test]
fn no_allocation_marker_capacity_matches_recommended() {
    let capacity = recommended_capacity(32040, 2, 50);
    assert!(capacity > 1000 && capacity < 50_000, "capacity={capacity}");
    assert_eq!(capacity, 1602 * 2 * 4);
    assert_eq!(recommended_capacity(10, 2, 1), 8);
}

#[test]
fn overrun_keeps_the_newest_samples_and_counts() {
    let (mut producer, mut consumer) = AudioProducer::new(4);
    assert_eq!(producer.push_samples(&[1, 2, 3, 4, 5, 6]), 4);
    assert_eq!(producer.overrun_count(), 1);
    assert_eq!(producer.filled(), 4);
    let mut read = Vec::new();
    while let Ok(s) = consumer.pop() {
        read.push(s);
    }
    assert_eq!(read, vec![3, 4, 5, 6]);
    assert_eq!(producer.push_samples(&[7, 8]), 2);
    assert_eq!(producer.overrun_count(), 1);
    assert_eq!(producer.push_samples(&[]), 0);
}

#[test]
fn push_and_fill_round_trip_exact_fit() {
    let (mut producer, mut consumer) = AudioProducer::new(8);
    assert_eq!(producer.push_samples(&[1, 2, 3, 4]), 4);
    let mut read = Vec::new();
    while let Ok(s) = consumer.pop() {
        read.push(f32::from(s) / f32::from(i16::MAX));
    }
    assert_eq!(
        read,
        vec![
            1.0 / i16::MAX as f32,
            2.0 / i16::MAX as f32,
            3.0 / i16::MAX as f32,
            4.0 / i16::MAX as f32,
        ]
    );
    assert_eq!(producer.overrun_count(), 0);
}

#[test]
fn overrun_keeps_newest_samples_and_counts() {
    let (mut producer, _consumer) = AudioProducer::new(4);
    let written = producer.push_samples(&[1, 2, 3, 4, 5, 6]);
    assert_eq!(written, 4);
    assert_eq!(producer.overrun_count(), 1);
    assert_eq!(producer.filled(), producer.capacity());
}

#[test]
fn overrun_then_consumer_reads_only_newest() {
    let (mut producer, mut consumer) = AudioProducer::new(4);
    producer.push_samples(&[1, 2, 3, 4, 5, 6]);
    let mut read = Vec::new();
    while let Ok(s) = consumer.pop() {
        read.push(f32::from(s) / f32::from(i16::MAX));
    }
    assert_eq!(
        read,
        vec![
            3.0 / i16::MAX as f32,
            4.0 / i16::MAX as f32,
            5.0 / i16::MAX as f32,
            6.0 / i16::MAX as f32,
        ]
    );
}

#[test]
fn pixel_formats_map_from_libretro_ids() {
    assert_eq!(map_pixel_format(0), Some(PixelFormat::Rgb0555));
    assert_eq!(map_pixel_format(1), Some(PixelFormat::Xrgb8888));
    assert_eq!(map_pixel_format(2), Some(PixelFormat::Rgb565));
    assert_eq!(map_pixel_format(3), None);
}

#[test]
fn the_runner_runs_only_a_loaded_game() {
    let mut s = RunnerState::new();
    assert!(matches!(s.on_command(EmuCommand::Run), CommandEffect::Ignored));
    assert_eq!(s.frame_step(false), FrameStep::Idle);
    assert!(matches!(
        s.on_command(EmuCommand::Load { core: "c.so".into(), rom: "r.sfc".into() }),
        CommandEffect::Load { .. }
    ));
    s.load_finished(true, true);
    assert!(matches!(s.on_command(EmuCommand::Run), CommandEffect::RestartClock));
    assert_eq!(s.frame_step(false), FrameStep::RunFrame(Pacing::AudioDriven));
    assert_eq!(s.frame_step(true), FrameStep::Throttle);
    let _ = s.on_command(EmuCommand::SetFastForward(true));
    assert_eq!(s.frame_step(true), FrameStep::RunFrame(Pacing::Unpaced));
    let _ = s.on_command(EmuCommand::SetInput(InputState { port: 2, buttons: 9 }));
    let _ = s.on_command(EmuCommand::SetInput(InputState { port: 7, buttons: 9 }));
    assert_eq!(s.input_state, [0, 0, 9, 0]);
    let _ = s.on_command(EmuCommand::Pause);
    assert_eq!(s.frame_step(false), FrameStep::Idle);
    assert!(matches!(s.on_command(EmuCommand::Stop), CommandEffect::Exit));
    assert!(!s.has_core && !s.running);
}

#[test]
fn a_load_without_resampler_falls_back_to_the_frame_clock() {
    let mut s = RunnerState::new();
    s.load_finished(true, false);
    let _ = s.on_command(EmuCommand::Resume);
    assert_eq!(s.frame_step(true), FrameStep::RunFrame(Pacing::FrameClock));
    assert!(!s.publishes_audio(128));
}

#[test]
fn sram_copies_the_common_prefix() {
    let mut sram = [9u8; 4];
    copy_sram(&mut sram, &[1, 2]);
    assert_eq!(sram, [1, 2, 9, 9]);
    let mut sram = [0u8; 2];
    copy_sram(&mut sram, &[5, 6, 7]);
    assert_eq!(sram, [5, 6]);
}

#[test]
fn core_extension_lists_drop_empty_entries() {
    assert_eq!(core_valid_extensions("smc|sfc||bs|"), vec!["smc", "sfc", "bs"]);
    assert!(core_valid_extensions("").is_empty());
    assert_eq!(rom_handover(true, true), RomHandover::ExtractedPath);
    assert_eq!(rom_handover(false, false), RomHandover::Bytes);
}

fn entry(name: &str, is_dir: bool) -> ArchiveEntry {
    ArchiveEntry { name: name.to_string(), is_dir }
}

#[test]
fn extracts_first_matching_entry_of_a_zip() {
    let entries = vec![entry("readme.txt", false), entry("roms/", true), entry("roms/Super Game.SFC", false)];
    let extensions = vec!["sfc".to_string(), "smc".to_string()];
    let (index, name) = extract_first_match("/tmp/collection.ZIP", &entries, &extensions).unwrap();
    assert_eq!(index, 2);
    assert_eq!(name, "Super Game.SFC");
}

#[test]
fn missing_extension_in_an_archive_is_a_clear_error() {
    let entries = vec![entry("readme.txt", false)];
    let result = extract_first_match("/tmp/x.7z", &entries, &["sfc".to_string(), "smc".to_string()]);
    match result {
        Err(CoreError::Other(m)) => {
            assert_eq!(m, "archyve /tmp/x.7z nerasta tinkamo failo (laukiami plėtiniai: sfc, smc)")
        },
        other => panic!("expected an error, got {other:?}"),
    }
}

fn make_zip(files: &[(&str, &[u8])]) -> Vec<u8> {
    let mut buf = Vec::new();
    {
        let mut writer = zip::ZipWriter::new(std::io::Cursor::new(&mut buf));
        for (name, data) in files {
            writer.start_file(*name, zip::write::SimpleFileOptions::default()).unwrap();
            writer.write_all(data).unwrap();
        }
        writer.finish().unwrap();
    }
    buf
}

fn zip_entries(archive: &mut zip::ZipArchive<std::io::Cursor<Vec<u8>>>) -> Vec<ArchiveEntry> {
    (0..archive.len())
        .map(|i| {
            let e = archive.by_index(i).unwrap();
            ArchiveEntry { name: e.name().to_string(), is_dir: e.is_dir() }
        })
        .collect()
}

#[test]
fn extracts_first_matching_file_from_zip() {
    let bytes = make_zip(&[("readme.txt", b"not a rom"), ("Super Game.sfc", b"fake snes rom bytes")]);
    let mut archive = zip::ZipArchive::new(std::io::Cursor::new(bytes)).unwrap();
    let entries = zip_entries(&mut archive);
    let extensions = vec!["sfc".to_string(), "smc".to_string()];
    let (index, name) = extract_first_match("/tmp/nullbyte_test_extract.zip", &entries, &extensions).unwrap();
    let mut data = Vec::new();
    archive.by_index(index).unwrap().read_to_end(&mut data).unwrap();
    assert_eq!(name, "Super Game.sfc");
    assert_eq!(data, b"fake snes rom bytes");
}

#[test]
fn missing_extension_in_zip_returns_clear_error() {
    let bytes = make_zip(&[("readme.txt", b"not a rom")]);
    let mut archive = zip::ZipArchive::new(std::io::Cursor::new(bytes)).unwrap();
    let entries = zip_entries(&mut archive);
    let result = extract_first_match("/tmp/nullbyte_test_no_match.zip", &entries, &["sfc".to_string()]);
    assert!(result.is_err());
}

#[test]
fn unsupported_archive_extension_returns_error() {
    let result = extract_first_match("/tmp/nullbyte_test.rar", &[], &["sfc".to_string()]);
    assert!(result.is_err());
}

#[test]
fn entry_names_and_extensions() {
    assert!(has_valid_extension("a/b/Game.Smc", &["sfc".to_string(), "SMC".to_string()]));
    assert!(!has_valid_extension("Game", &["sfc".to_string()]));
    assert_eq!(base_name("dir/sub/Game.sfc"), "Game.sfc");
    assert_eq!(base_name(".."), "..");
}

#[test]
fn all_variants_have_distinct_kind() {
    let variants = [
        CoreError::Io("x".to_string()),
        CoreError::CoreLoad { path: String::new(), reason: String::new() },
        CoreError::ApiVersion { path: String::new(), expected: 0, actual: 0 },
        CoreError::RomLoad { rom_path: String::new() },
        CoreError::MissingBios { core: String::new(), bios_file: String::new() },
        CoreError::UnsupportedPixelFormat { core: String::new(), format: 0 },
        CoreError::SaveState(String::new()),
        CoreError::Sram(String::new()),
        CoreError::Other(String::new()),
    ];
    let kinds: std::collections::HashSet<_> = variants.iter().map(CoreError::kind).collect();
    assert_eq!(kinds.len(), variants.len());
}

#[test]
fn hello_roundtrips_and_detects_mismatch() {
    let hello = IpcHello::current();
    assert_eq!(hello.protocol_version, IPC_PROTOCOL_VERSION);
    assert!(hello.is_compatible());
    let stale = IpcHello { protocol_version: IPC_PROTOCOL_VERSION + 1 };
    assert!(!stale.is_compatible());
}

#[test]
fn the_first_result_answers_the_start_and_later_errors_are_reported() {
    let mut awaiting = true;
    let mut routes = Vec::new();
    for kind in [StatusKind::Other, StatusKind::Loaded, StatusKind::Other, StatusKind::Error, StatusKind::Loaded] {
        let (route, next) = route_status(awaiting, kind);
        routes.push(route);
        awaiting = next;
    }
    assert_eq!(
        routes,
        vec![StatusRoute::Pass, StatusRoute::AnswerLoad, StatusRoute::Pass, StatusRoute::ReportError, StatusRoute::Pass]
    );
    assert!(!awaiting);
    assert_eq!(route_status(true, StatusKind::Error), (StatusRoute::AnswerLoad, false));
}

#[test]
fn the_fill_level_counts_what_was_pushed_and_not_yet_read() {
    let (mut producer, mut consumer) = AudioProducer::new(8);
    assert_eq!(producer.filled(), 0);
    assert_eq!(producer.push_samples(&[1, 2, 3]), 3);
    assert_eq!(producer.filled(), 3);
    assert_eq!(consumer.pop(), Ok(1));
    assert_eq!(producer.filled(), 2);
}

#[test]
fn an_overlong_batch_keeps_its_newest_part() {
    assert_eq!(newest_that_fit(&[1, 2, 3, 4, 5, 6], 4), &[3, 4, 5, 6]);
    assert_eq!(newest_that_fit(&[1, 2, 3], 0), &[] as &[i16]);
}

#[test]
fn stop_without_load_does_not_hang_or_panic() {
    let mut s = RunnerState::new();
    assert!(matches!(s.on_command(EmuCommand::Pause), CommandEffect::Nothing));
    assert!(matches!(s.on_command(EmuCommand::Resume), CommandEffect::Nothing));
    assert!(matches!(s.on_command(EmuCommand::Run), CommandEffect::Ignored));
    assert!(matches!(s.on_disconnect(), CommandEffect::Exit));
    assert!(!s.has_core && !s.running);
}

#[test]
fn an_overrun_writes_exactly_the_free_slots() {
    let (mut producer, mut consumer) = AudioProducer::new(4);
    assert_eq!(producer.push_samples(&[1, 2, 3]), 3);
    assert_eq!(consumer.pop(), Ok(1));
    assert_eq!(producer.push_samples(&[4, 5, 6, 7]), 2);
    assert_eq!(producer.overrun_count(), 1);
    let mut read = Vec::new();
    while let Ok(s) = consumer.pop() {
        read.push(s);
    }
    assert_eq!(read, vec![2, 3, 6, 7]);
}

#[test]
fn fill_level_and_fill_split_count_samples() {
    assert_eq!(fill_level(8, 3), 5);
    assert_eq!(fill_level(8, 8), 0);
    assert_eq!(fill_split(4, None), (4, 0, false));
    assert_eq!(fill_split(4, Some(1)), (1, 3, true));
}
