use thufs::error::ThufsError;
use thufs::headers::{
    hex_value, parse_filename_from_content_disposition, parse_total_bytes_from_content_range, parse_u64,
    percent_decode,
};
use thufs::output::{redact_token, Renderer};
use thufs::seafile::{
    download_after_probe, download_start, download_support_from_probe, falls_back_after_parallel_failure,
    range_header, resume_range_header, sequential_resume_plan, shared_file_download, split_download_ranges,
    DownloadAfterProbe, DownloadStart, DownloadSupport, PARALLEL_DOWNLOAD_THRESHOLD,
};
use thufs::transfer::{
    conflict_policy_from_options, format_size, progress_mode_from_option, resolve_conflict_policy, ConflictPolicy,
    DownloadMode, JsonlProgressState, ProgressMode, ProgressUpdate,
};

/// The size text computed with floating point, as the command line shows it.
fn float_size(bytes: u64) -> String {
    const UNITS: [&str; 6] = ["B", "KB", "MB", "GB", "TB", "PB"];
    let mut value = bytes as f64;
    let mut unit_index = 0usize;
    while value >= 1024.0 && unit_index < UNITS.len() - 1 {
        value /= 1024.0;
        unit_index += 1;
    }
    if unit_index == 0 {
        format!("{bytes} {}", UNITS[unit_index])
    } else if value >= 10.0 || (value.fract() - 0.0).abs() < f64::EPSILON {
        format!("{value:.0} {}", UNITS[unit_index])
    } else {
        format!("{value:.1} {}", UNITS[unit_index])
    }
}

#[test]
fn parses_progress_modes() {
    assert_eq!(ProgressMode::parse_keyword("auto").unwrap(), ProgressMode::Auto);
    assert_eq!(ProgressMode::parse_keyword("jsonl").unwrap(), ProgressMode::Jsonl);
    assert_eq!(ProgressMode::parse_keyword("none").unwrap(), ProgressMode::Off);
    assert!(ProgressMode::parse_keyword("xml").is_err());
}

#[test]
fn default_download_mode_is_sequential() {
    assert_eq!(DownloadMode::default(), DownloadMode::Sequential);
}

#[test]
fn keywords_ignore_case_and_whitespace() {
    assert_eq!(DownloadMode::parse_keyword(" PARALLEL "), Ok(DownloadMode::Parallel));
    assert_eq!(ConflictPolicy::parse_keyword("Uniquify\t"), Ok(ConflictPolicy::Uniquify));
    let err = DownloadMode::parse_keyword("fast").expect_err("should fail");
    assert_eq!(
        err.message(),
        "invalid download mode `fast`; expected one of: auto, parallel, sequential"
    );
    assert_eq!(
        ConflictPolicy::parse_keyword("ask"),
        Err(ThufsError::InvalidConflictPolicy("ask".to_string()))
    );
    assert_eq!(
        ProgressMode::parse_keyword("xml"),
        Err(ThufsError::InvalidProgressMode("xml".to_string()))
    );
}

#[test]
fn conflict_options_default_to_uniquify() {
    assert_eq!(conflict_policy_from_options(None, false, false, false), Ok(ConflictPolicy::Uniquify));
    assert_eq!(conflict_policy_from_options(None, true, false, true), Ok(ConflictPolicy::Overwrite));
    assert_eq!(conflict_policy_from_options(None, false, false, true), Ok(ConflictPolicy::Fail));
    assert_eq!(
        conflict_policy_from_options(Some("overwrite"), false, false, true),
        Ok(ConflictPolicy::Overwrite)
    );
    assert_eq!(progress_mode_from_option(None), Ok(ProgressMode::Auto));
    assert_eq!(progress_mode_from_option(Some("none")), Ok(ProgressMode::Off));
}

#[test]
fn pull_service_prompt_policy_defaults_to_uniquify() {
    let resolved = resolve_conflict_policy(ConflictPolicy::Prompt);
    assert_eq!(resolved, ConflictPolicy::Uniquify);
}

#[test]
fn push_service_prompt_policy_defaults_to_uniquify() {
    let resolved = resolve_conflict_policy(ConflictPolicy::Prompt);
    assert_eq!(resolved, ConflictPolicy::Uniquify);
    assert_eq!(resolve_conflict_policy(ConflictPolicy::Fail), ConflictPolicy::Fail);
}

#[test]
fn format_size_matches_floating_point_rendering() {
    let mut samples: Vec<u64> = vec![
        0,
        1,
        1023,
        1024,
        1025,
        1536,
        10 * 1024 - 1,
        10 * 1024,
        10 * 1024 + 512,
        1024 * 1024 - 1,
        1024 * 1024,
        5 * 1024 * 1024 + 52429,
        1024 * 1024 * 1024,
        u64::MAX,
        u64::MAX - 1,
        1 << 50,
        (1 << 50) + (1 << 49),
        1 << 60,
    ];
    let mut x: u64 = 0x9E37_79B9_7F4A_7C15;
    for _ in 0..20000 {
        x ^= x << 13;
        x ^= x >> 7;
        x ^= x << 17;
        samples.push(x >> (x % 64));
    }
    for unit in 1..6u32 {
        let base = 1u64 << (10 * unit);
        for tenth in 0..200u64 {
            let v = base as u128 * tenth as u128 / 20 + base as u128 / 40;
            if v <= u64::MAX as u128 {
                samples.push(v as u64);
                samples.push((v as u64).saturating_sub(1));
                samples.push((v as u64).saturating_add(1));
            }
        }
    }
    for bytes in samples {
        assert_eq!(format_size(bytes), float_size(bytes), "bytes = {bytes}");
    }
}

#[test]
fn format_size_examples() {
    assert_eq!(format_size(512), "512 B");
    assert_eq!(format_size(1536), "1.5 KB");
    assert_eq!(format_size(1024 * 1024), "1 MB");
    assert_eq!(format_size(42 * 1024 * 1024 * 1024), "42 GB");
}

#[test]
fn jsonl_progress_state_tracks_transferred_bytes() {
    let mut state = JsonlProgressState::new("download".to_string(), "file.bin".to_string(), Some(20));
    assert_eq!(state.last_transferred, 0);
    state.apply(ProgressUpdate::Position(5));
    assert_eq!(state.last_transferred, 5);
    state.apply(ProgressUpdate::Advance(5));
    assert_eq!(state.last_transferred, 10);
    state.apply(ProgressUpdate::Keep);
    assert_eq!(state.last_transferred, 10);
    state.apply(ProgressUpdate::Position(u64::MAX - 1));
    state.apply(ProgressUpdate::Advance(7));
    assert_eq!(state.last_transferred, u64::MAX);
    assert_eq!(state.total_bytes, Some(20));
}

#[test]
fn writes_text_to_selected_stream() {
    let renderer = Renderer::new();
    let mut stdout = Vec::new();
    let mut stderr = Vec::new();

    renderer.write_line(&mut stdout, "normal result");
    renderer.write_line(&mut stderr, "error result");

    assert_eq!(String::from_utf8(stdout).expect("utf8"), "normal result\n");
    assert_eq!(String::from_utf8(stderr).expect("utf8"), "error result\n");
}

#[test]
fn redacts_tokens_for_display() {
    assert_eq!(redact_token("file-token-value"), "fi...ue");
    assert_eq!(redact_token("abcd"), "****");
    assert_eq!(redact_token(""), "");
    assert_eq!(redact_token("abcde"), "ab...de");
}

#[test]
fn parses_total_bytes_from_content_range() {
    assert_eq!(parse_total_bytes_from_content_range("bytes 0-0/12345"), Some(12345));
    assert_eq!(parse_total_bytes_from_content_range("invalid"), None);
    assert_eq!(parse_total_bytes_from_content_range("bytes 0-0/*"), None);
    assert_eq!(parse_total_bytes_from_content_range("bytes 0-0/+7"), Some(7));
    assert_eq!(parse_u64("18446744073709551615"), Some(u64::MAX));
    assert_eq!(parse_u64("18446744073709551616"), None);
    assert_eq!(parse_u64(""), None);
}

#[test]
fn parses_content_disposition_filename() {
    let parsed = parse_filename_from_content_disposition("attachment; filename*=UTF-8''week1%20notes.pdf");
    assert_eq!(parsed.as_deref(), Some("week1 notes.pdf"));
}

#[test]
fn content_disposition_variants() {
    assert_eq!(
        parse_filename_from_content_disposition("attachment; filename=\"a+b.txt\"").as_deref(),
        Some("a b.txt")
    );
    assert_eq!(
        parse_filename_from_content_disposition("inline; filename=plain.txt").as_deref(),
        Some("plain.txt")
    );
    assert_eq!(parse_filename_from_content_disposition("attachment"), None);
    assert_eq!(parse_filename_from_content_disposition("attachment; filename=\"\""), None);
    assert_eq!(percent_decode("%E4%B8%AD"), "中");
    assert_eq!(percent_decode("%FF"), "\u{FFFD}");
    assert_eq!(percent_decode("%4"), "%4");
    assert_eq!(hex_value(b'f'), Some(15));
    assert_eq!(hex_value(b'G'), None);
}

#[test]
fn shared_file_needs_a_file_name() {
    let shared = shared_file_download("tok", Some("attachment; filename=\"w.pdf\"")).expect("shared");
    assert_eq!(shared.file_name, "w.pdf");
    assert_eq!(shared.download_link, "https://cloud.tsinghua.edu.cn/f/tok/?dl=1");
    let err = shared_file_download("tok", None).expect_err("should fail");
    assert_eq!(err, ThufsError::SharedFilenameUnknown);
}

#[test]
fn splits_download_ranges_evenly() {
    assert_eq!(split_download_ranges(10, 4), vec![(0, 2), (3, 5), (6, 8), (9, 9)]);
}

#[test]
fn download_ranges_cover_every_byte_once() {
    for total in [1u64, 2, 7, 10, 100, 1001] {
        for parts in [0usize, 1, 2, 3, 4, 8, 200] {
            let ranges = split_download_ranges(total, parts);
            assert!(!ranges.is_empty());
            assert!(ranges.len() <= parts.max(1));
            assert_eq!(ranges[0].0, 0);
            assert_eq!(ranges[ranges.len() - 1].1, total - 1);
            for pair in ranges.windows(2) {
                assert_eq!(pair[1].0, pair[0].1 + 1);
            }
            for (start, end) in &ranges {
                assert!(start <= end);
            }
        }
    }
    assert!(split_download_ranges(0, 4).is_empty());
    let huge = split_download_ranges(u64::MAX, 3);
    assert_eq!(huge[huge.len() - 1].1, u64::MAX - 1);
}

#[test]
fn download_planning_follows_mode_and_probe() {
    assert_eq!(download_start(DownloadMode::Sequential, 0), Ok(DownloadStart::Sequential));
    assert_eq!(download_start(DownloadMode::Auto, 0), Ok(DownloadStart::Probe));
    assert_eq!(download_start(DownloadMode::Auto, 5), Ok(DownloadStart::Sequential));
    assert_eq!(
        download_start(DownloadMode::Parallel, 5),
        Err(ThufsError::ParallelDownloadNeedsFreshFile)
    );
    let big = DownloadSupport {
        total_bytes: PARALLEL_DOWNLOAD_THRESHOLD,
        accepts_ranges: true,
    };
    let small = DownloadSupport {
        total_bytes: 10,
        accepts_ranges: true,
    };
    let plain = DownloadSupport {
        total_bytes: PARALLEL_DOWNLOAD_THRESHOLD * 4,
        accepts_ranges: false,
    };
    assert_eq!(
        download_after_probe(DownloadMode::Auto, Some(big)),
        Ok(DownloadAfterProbe::Parallel(PARALLEL_DOWNLOAD_THRESHOLD))
    );
    assert_eq!(
        download_after_probe(DownloadMode::Parallel, Some(small)),
        Ok(DownloadAfterProbe::Parallel(10))
    );
    assert_eq!(download_after_probe(DownloadMode::Auto, Some(small)), Ok(DownloadAfterProbe::Sequential));
    assert_eq!(
        download_after_probe(DownloadMode::Parallel, Some(plain)),
        Err(ThufsError::ParallelDownloadUnsupported)
    );
    assert_eq!(download_after_probe(DownloadMode::Auto, Some(plain)), Ok(DownloadAfterProbe::Sequential));
    assert_eq!(
        download_after_probe(DownloadMode::Parallel, None),
        Err(ThufsError::ParallelDownloadUnsupported)
    );
    assert_eq!(download_after_probe(DownloadMode::Auto, None), Ok(DownloadAfterProbe::Sequential));
    assert!(falls_back_after_parallel_failure(DownloadMode::Auto));
    assert!(!falls_back_after_parallel_failure(DownloadMode::Parallel));
}

#[test]
fn probe_answers_tell_range_support() {
    assert_eq!(
        download_support_from_probe(true, true, Some("bytes 0-0/99"), Some(1)),
        Ok(Some(DownloadSupport {
            total_bytes: 99,
            accepts_ranges: true
        }))
    );
    assert_eq!(
        download_support_from_probe(true, true, Some("bytes 0-0/*"), Some(1)),
        Ok(Some(DownloadSupport {
            total_bytes: 1,
            accepts_ranges: true
        }))
    );
    assert_eq!(
        download_support_from_probe(true, true, None, None),
        Err(ThufsError::RangeProbeWithoutLength)
    );
    assert_eq!(
        download_support_from_probe(false, true, None, None),
        Ok(Some(DownloadSupport {
            total_bytes: 0,
            accepts_ranges: false
        }))
    );
    assert_eq!(download_support_from_probe(false, false, None, Some(3)), Ok(None));
}

#[test]
fn resumed_downloads_continue_or_restart() {
    let resumed = sequential_resume_plan(100, true, Some(50));
    assert!(resumed.resumed);
    assert!(!resumed.restart_from_zero);
    assert_eq!(resumed.initial_bytes, 100);
    assert_eq!(resumed.total, Some(150));
    let restarted = sequential_resume_plan(100, false, Some(500));
    assert!(restarted.restart_from_zero);
    assert_eq!(restarted.initial_bytes, 0);
    assert_eq!(restarted.total, Some(500));
    assert_eq!(resume_range_header(100), "bytes=100-");
    assert_eq!(range_header(3, 5), "bytes=3-5");
}
