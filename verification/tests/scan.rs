use playa::events::EventBus;
use playa::events::emit_global;
use playa::probe::{parse_probe_line, probe_args};
use playa::scan::{scan_movies, scan_shows, ScanError};
use playa::scan_core::{apply_durations, build_entries, probe_targets, show_names, SourceFile};

fn file(group: Option<&str>, name: &str, path: &str, mime: Option<&str>) -> SourceFile {
    SourceFile {
        group: group.map(|s| s.to_string()),
        filename: name.to_string(),
        pathname: path.to_string(),
        mime: mime.map(|s| s.to_string()),
    }
}

#[test]
fn build_entries_keeps_only_video_files() {
    let files = vec![
        file(Some("Show A"), "e1.mkv", "/tv/Show A/e1.mkv", Some("video/x-matroska")),
        file(Some("Show A"), "note.txt", "/tv/Show A/note.txt", None),
        file(Some("Show A"), "cover.png", "/tv/Show A/cover.png", Some("image/png")),
        file(Some("Show B"), "e1.mp4", "/tv/Show B/e1.mp4", Some("video/mp4")),
    ];
    let entries = build_entries(&files, &vec![]);
    assert_eq!(entries.len(), 2);
    assert_eq!(entries[0].pathname, "/tv/Show A/e1.mkv");
    assert_eq!(entries[1].pathname, "/tv/Show B/e1.mp4");
    assert_eq!(entries[0].duration, "");
    assert!(entries[0].needs_probe);
    assert!(entries[1].needs_probe);
}

#[test]
fn known_paths_are_not_marked_for_probing() {
    let files = vec![
        file(None, "a.mp4", "/movies/a.mp4", Some("video/mp4")),
        file(None, "b.mp4", "/movies/b.mp4", Some("video/mp4")),
    ];
    let known = vec!["/movies/a.mp4".to_string()];
    let entries = build_entries(&files, &known);
    assert_eq!(entries.len(), 2);
    assert!(!entries[0].needs_probe);
    assert!(entries[1].needs_probe);
    let targets = probe_targets(&entries);
    assert_eq!(targets, vec!["/movies/b.mp4".to_string()]);
}

#[test]
fn classification_is_checked_before_known_status() {
    // A file that is known but no longer classifies as video is still
    // excluded: being known does not qualify it.
    let files = vec![file(None, "a.txt", "/movies/a.txt", None)];
    let known = vec!["/movies/a.txt".to_string()];
    let entries = build_entries(&files, &known);
    assert_eq!(entries.len(), 0);
}

#[test]
fn file_name_plays_no_part_in_qualifying() {
    // The same sniffed bytes qualify under any name: a video renamed to a
    // text extension is still an entry.
    let files = vec![
        file(None, "film.txt", "/movies/film.txt", Some("video/mp4")),
        file(None, "film.mp4", "/movies/film.mp4", Some("video/mp4")),
        file(None, "notes.mp4", "/movies/notes.mp4", None),
    ];
    let entries = build_entries(&files, &vec![]);
    assert_eq!(entries.len(), 2);
    assert_eq!(entries[0].filename, "film.txt");
    assert_eq!(entries[1].filename, "film.mp4");
}

#[test]
fn empty_show_directories_are_dropped() {
    // "Empty Show" was walked but yielded no qualifying video, so it does
    // not appear in the show names.
    let files = vec![
        file(Some("Empty Show"), "readme.txt", "/tv/Empty Show/readme.txt", None),
        file(Some("Full Show"), "e1.mp4", "/tv/Full Show/e1.mp4", Some("video/mp4")),
        file(Some("Full Show"), "e2.mp4", "/tv/Full Show/e2.mp4", Some("video/mp4")),
    ];
    let entries = build_entries(&files, &vec![]);
    let names = show_names(&entries);
    assert_eq!(names, vec!["Full Show".to_string()]);
}

#[test]
fn rescan_with_discovered_paths_is_idempotent() {
    let files = vec![
        file(Some("Show A"), "e1.mkv", "/tv/Show A/e1.mkv", Some("video/x-matroska")),
        file(Some("Show A"), "junk.bin", "/tv/Show A/junk.bin", None),
        file(Some("Show B"), "e1.mp4", "/tv/Show B/e1.mp4", Some("video/mp4")),
    ];
    let first = build_entries(&files, &vec![]);
    let discovered: Vec<String> = first.iter().map(|e| e.pathname.clone()).collect();
    let second = build_entries(&files, &discovered);
    assert_eq!(first.len(), second.len());
    for (a, b) in first.iter().zip(second.iter()) {
        assert_eq!(a.show_group, b.show_group);
        assert_eq!(a.filename, b.filename);
        assert_eq!(a.pathname, b.pathname);
        assert_eq!(a.duration, b.duration);
        assert!(!b.needs_probe);
    }
    assert_eq!(show_names(&first), show_names(&second));
    assert_eq!(probe_targets(&second).len(), 0);
}

#[test]
fn empty_probe_output_keeps_the_entry() {
    let files = vec![
        file(None, "a.mp4", "/movies/a.mp4", Some("video/mp4")),
        file(None, "b.mp4", "/movies/b.mp4", Some("video/mp4")),
        file(None, "c.mp4", "/movies/c.mp4", Some("video/mp4")),
    ];
    let entries = build_entries(&files, &vec![]);
    // The probe of b.mp4 printed nothing: its entry survives with an empty
    // duration and c.mp4 still gets its value.
    let durations = vec!["60.5".to_string(), "".to_string(), "12.0".to_string()];
    let done = apply_durations(&entries, &durations);
    assert_eq!(done.len(), 3);
    assert_eq!(done[0].duration, "60.5");
    assert_eq!(done[1].duration, "");
    assert_eq!(done[2].duration, "12.0");
    assert!(done.iter().all(|e| !e.needs_probe));
}

#[test]
fn apply_durations_skips_known_entries() {
    let files = vec![
        file(None, "a.mp4", "/movies/a.mp4", Some("video/mp4")),
        file(None, "b.mp4", "/movies/b.mp4", Some("video/mp4")),
    ];
    let known = vec!["/movies/a.mp4".to_string()];
    let entries = build_entries(&files, &known);
    let done = apply_durations(&entries, &vec!["99.9".to_string()]);
    assert_eq!(done[0].duration, "");
    assert_eq!(done[1].duration, "99.9");
}

#[test]
fn probe_arguments_are_fixed() {
    let args = probe_args("/movies/a.mp4");
    assert_eq!(
        args,
        vec![
            "-v".to_string(),
            "error".to_string(),
            "-show_entries".to_string(),
            "format=duration".to_string(),
            "-of".to_string(),
            "default=noprint_wrappers=1:nokey=1".to_string(),
            "/movies/a.mp4".to_string(),
        ]
    );
}

#[test]
fn probe_output_is_trimmed() {
    assert_eq!(parse_probe_line(&b" 123.456\n".to_vec()), b"123.456".to_vec());
    assert_eq!(parse_probe_line(&b"\r\n".to_vec()), Vec::<u8>::new());
    assert_eq!(parse_probe_line(&Vec::new()), Vec::<u8>::new());
    assert_eq!(parse_probe_line(&b"7.0".to_vec()), b"7.0".to_vec());
    assert_eq!(parse_probe_line(&b"\t 1 2 \t".to_vec()), b"1 2".to_vec());
}

#[test]
fn events_are_recorded_in_order() {
    let mut bus = EventBus::new();
    emit_global(&mut bus, "loading-event", "Scanning /a");
    emit_global(&mut bus, "loading-event", "Scanning /b");
    assert_eq!(bus.events.len(), 2);
    assert_eq!(bus.events[0].event_name, "loading-event");
    assert_eq!(bus.events[0].message, "Scanning /a");
    assert_eq!(bus.events[1].message, "Scanning /b");
}

#[test]
fn scanning_a_missing_directory_fails() {
    let mut bus = EventBus::new();
    let r = scan_shows("/no/such/directory/anywhere", &vec![], &mut bus);
    assert!(matches!(r, Err(ScanError::DirNotFound)));
    assert_eq!(bus.len(), 0);
    let r = scan_movies("/no/such/directory/anywhere", &vec![], &mut bus);
    assert!(matches!(r, Err(ScanError::DirNotFound)));
    match r {
        Err(e) => assert_eq!(e.message(), "Directory does not exist!"),
        Ok(_) => panic!("scan of a missing directory succeeded"),
    }
}
