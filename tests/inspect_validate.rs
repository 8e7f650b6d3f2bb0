use movcat::error::MovcatError;
use movcat::inspect::{analyze_mov_file, inspect_observed, ContainerSummary, MovInfo};
use movcat::validate::{check_compatibility, validate_input_files, validate_observed, Mismatch, Warning};

fn summary(brand: &str, timescale: u32, video: usize, audio: usize) -> ContainerSummary {
    ContainerSummary {
        duration: 0,
        timescale,
        major_brand: brand.to_string(),
        track_count: video + audio,
        video_tracks: video,
        audio_tracks: audio,
    }
}

fn info(path: &str, brand: &str, timescale: u32, video: usize, audio: usize) -> MovInfo {
    MovInfo {
        path: path.to_string(),
        duration: 0,
        timescale,
        major_brand: brand.to_string(),
        track_count: video + audio,
        video_tracks: video,
        audio_tracks: audio,
    }
}

#[test]
fn test_analyze_mov_file_nonexistent() {
    let path = "nonexistent.mov".to_string();
    let result = analyze_mov_file(&path, &Ok(summary("mp4", 1000, 1, 0)));
    assert!(result.is_err());
}

#[test]
fn test_validate_input_files_empty() {
    let files: Vec<String> = vec![];
    let result = validate_input_files(&files, &vec![]);
    assert!(result.is_ok());
    assert_eq!(result.unwrap().infos.len(), 0);
}

#[test]
fn test_validate_input_files_nonexistent() {
    let files = vec!["nonexistent.mov".to_string()];
    let result = validate_input_files(&files, &vec![Ok(summary("mp4", 1000, 1, 0))]);
    assert!(result.is_err());
    assert_eq!(
        result.unwrap_err(),
        MovcatError::FileNotFound { path: "nonexistent.mov".to_string() }
    );
}

#[test]
fn existing_file_takes_the_parser_summary() {
    let path = ".".to_string();
    let r = analyze_mov_file(&path, &Ok(summary("qt  ", 600, 1, 2))).unwrap();
    assert_eq!(r.path, path);
    assert_eq!(r.timescale, 600);
    assert_eq!(r.major_brand, "qt  ".to_string());
    assert_eq!(r.audio_tracks, 2);
}

#[test]
fn parser_failure_is_unreadable_container() {
    let r = inspect_observed(&"a.mov".to_string(), true, &Err("truncated moov".to_string()));
    assert_eq!(
        r.unwrap_err(),
        MovcatError::UnreadableContainer {
            path: "a.mov".to_string(),
            diagnostic: "truncated moov".to_string()
        }
    );
}

#[test]
fn missing_file_is_not_found_before_parsing() {
    let r = inspect_observed(&"a.mov".to_string(), false, &Err("x".to_string()));
    assert_eq!(r.unwrap_err(), MovcatError::FileNotFound { path: "a.mov".to_string() });
}

#[test]
fn no_media_tracks_fails_and_audio_only_passes() {
    let r = check_compatibility(vec![info("a.mov", "mp42", 1000, 0, 0)]);
    assert_eq!(r.unwrap_err(), MovcatError::NoMediaTracks { path: "a.mov".to_string() });
    let r = check_compatibility(vec![info("a.mov", "mp42", 1000, 0, 1)]);
    let set = r.unwrap();
    assert_eq!(set.infos.len(), 1);
    assert!(set.warnings.is_empty());
}

#[test]
fn differing_brands_warn_without_failing() {
    let r = check_compatibility(vec![
        info("a.mov", "qt  ", 1000, 1, 0),
        info("b.mov", "isom", 1000, 1, 0),
    ]);
    let set = r.unwrap();
    assert_eq!(set.infos[0].path, "a.mov".to_string());
    assert_eq!(set.infos[1].path, "b.mov".to_string());
    assert_eq!(set.warnings, vec![Warning { index: 1, kind: Mismatch::MajorBrand }]);
}

#[test]
fn differing_timescales_warn_in_entry_order() {
    let set = check_compatibility(vec![
        info("a.mov", "qt  ", 1000, 1, 0),
        info("b.mov", "isom", 600, 1, 0),
        info("c.mov", "qt  ", 1000, 1, 1),
        info("d.mov", "qt  ", 90000, 0, 1),
    ])
    .unwrap();
    assert_eq!(
        set.warnings,
        vec![
            Warning { index: 1, kind: Mismatch::MajorBrand },
            Warning { index: 1, kind: Mismatch::Timescale },
            Warning { index: 3, kind: Mismatch::Timescale },
        ]
    );
}

#[test]
fn first_entry_without_media_is_named() {
    let r = check_compatibility(vec![
        info("a.mov", "qt  ", 1000, 1, 0),
        info("b.mov", "qt  ", 1000, 0, 0),
        info("c.mov", "qt  ", 1000, 0, 0),
    ]);
    assert_eq!(r.unwrap_err(), MovcatError::NoMediaTracks { path: "b.mov".to_string() });
}

#[test]
fn validate_reports_media_check_before_later_missing_file() {
    let files = vec![".".to_string(), "nonexistent.mov".to_string()];
    let probes = vec![Ok(summary("mp4", 1000, 0, 0)), Ok(summary("mp4", 1000, 1, 0))];
    let r = validate_input_files(&files, &probes);
    assert_eq!(r.unwrap_err(), MovcatError::NoMediaTracks { path: ".".to_string() });
}

#[test]
fn broken_track_table_is_unreadable() {
    let mut s = summary("mp4", 1000, 1, 1);
    s.track_count = 1;
    match inspect_observed(&"a.mov".to_string(), true, &Ok(s)) {
        Err(MovcatError::UnreadableContainer { path, .. }) => assert_eq!(path, "a.mov".to_string()),
        other => panic!("unexpected {:?}", other),
    }
    let r = inspect_observed(&"a.mov".to_string(), true, &Ok(summary("mp4", 0, 1, 0)));
    assert!(matches!(r, Err(MovcatError::UnreadableContainer { .. })));
}

#[test]
fn observed_media_check_single_entry() {
    let files = vec!["a.mov".to_string()];
    let r = validate_observed(&files, &vec![true], &vec![Ok(summary("mp42", 1000, 0, 0))]);
    assert_eq!(r.unwrap_err(), MovcatError::NoMediaTracks { path: "a.mov".to_string() });
    let set = validate_observed(&files, &vec![true], &vec![Ok(summary("mp42", 1000, 0, 1))]).unwrap();
    assert_eq!(set.infos.len(), 1);
    assert_eq!(set.infos[0].path, "a.mov".to_string());
    assert_eq!(set.infos[0].audio_tracks, 1);
}

#[test]
fn observed_brand_difference_succeeds_with_warning() {
    let files = vec!["a.mov".to_string(), "b.mov".to_string()];
    let probes = vec![Ok(summary("qt  ", 1000, 1, 0)), Ok(summary("isom", 1000, 1, 0))];
    let set = validate_observed(&files, &vec![true, true], &probes).unwrap();
    assert_eq!(set.infos[0].path, "a.mov".to_string());
    assert_eq!(set.infos[1].path, "b.mov".to_string());
    assert_eq!(set.warnings, vec![Warning { index: 1, kind: Mismatch::MajorBrand }]);
}

#[test]
fn observed_missing_file_is_first_failure() {
    let files = vec!["a.mov".to_string(), "b.mov".to_string(), "c.mov".to_string()];
    let probes = vec![
        Ok(summary("mp42", 1000, 1, 0)),
        Ok(summary("mp42", 1000, 1, 0)),
        Ok(summary("mp42", 1000, 0, 0)),
    ];
    let r = validate_observed(&files, &vec![true, false, true], &probes);
    assert_eq!(r.unwrap_err(), MovcatError::FileNotFound { path: "b.mov".to_string() });
}

#[test]
fn observed_parser_error_passes_through() {
    let files = vec!["a.mov".to_string()];
    let r = validate_observed(&files, &vec![true], &vec![Err("bad ftyp".to_string())]);
    assert_eq!(
        r.unwrap_err(),
        MovcatError::UnreadableContainer {
            path: "a.mov".to_string(),
            diagnostic: "bad ftyp".to_string()
        }
    );
}

#[test]
fn broken_metadata_text_is_fixed() {
    let r = inspect_observed(&"a.mov".to_string(), true, &Ok(summary("mp4", 0, 1, 0)));
    assert_eq!(
        r.unwrap_err(),
        MovcatError::UnreadableContainer {
            path: "a.mov".to_string(),
            diagnostic: "track counts or timescale out of range".to_string()
        }
    );
}
