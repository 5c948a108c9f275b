use muse::audio::Playback;
use muse::catalog::FileEntry;
use muse::catalog::Track;
use muse::catalog::filter_tracks;
use muse::catalog::resume_point;
use muse::catalog::sort_tracks;
use muse::catalog::str_le;
use muse::catalog::total_of;
use muse::config::Config;

fn track(path: &str, duration: u64) -> Track {
    Track { path: path.to_string(), duration }
}

fn entry(path: &str, extension: &str, duration: Option<u64>) -> FileEntry {
    FileEntry { path: path.to_string(), extension: extension.to_string(), duration }
}

#[test]
fn filter_keeps_playable_files_in_order() {
    let entries = vec![
        entry("a.mp3", "mp3", Some(10)),
        entry("b.txt", "txt", Some(5)),
        entry("c.ogg", "ogg", None),
        entry("d.flac", "flac", Some(7)),
    ];
    let (tracks, skipped) = filter_tracks(entries);
    assert_eq!(tracks.len(), 2);
    assert_eq!(tracks[0].path, "a.mp3");
    assert_eq!(tracks[0].duration, 10);
    assert_eq!(tracks[1].path, "d.flac");
    assert_eq!(tracks[1].duration, 7);
    assert_eq!(skipped, vec!["b.txt".to_string(), "c.ogg".to_string()]);
}

#[test]
fn total_sums_durations() {
    let tracks = vec![track("a", 180), track("b", 120)];
    assert_eq!(total_of(&tracks), 300);
    let none: Vec<Track> = Vec::new();
    assert_eq!(total_of(&none), 0);
}

#[test]
fn resume_lands_inside_second_track() {
    // A start point of 200 into [180s, 120s] falls 20s into the second.
    let tracks = vec![track("A", 180), track("B", 120)];
    let (index, offset) = resume_point(&tracks, 200);
    assert_eq!(index, 1);
    assert_eq!(offset, 20);
}

#[test]
fn resume_at_track_boundary_starts_next_track() {
    let tracks = vec![track("A", 180), track("B", 120)];
    let (index, offset) = resume_point(&tracks, 180);
    assert_eq!(index, 1);
    assert_eq!(offset, 0);
    let (index, offset) = resume_point(&tracks, 0);
    assert_eq!(index, 0);
    assert_eq!(offset, 0);
}

#[test]
fn resume_wraps_past_the_end() {
    let tracks = vec![track("A", 180), track("B", 120)];
    let (index, offset) = resume_point(&tracks, 320);
    assert_eq!(index, 0);
    assert_eq!(offset, 20);
    let (index, offset) = resume_point(&tracks, 300);
    assert_eq!(index, 0);
    assert_eq!(offset, 0);
}

#[test]
fn resume_skips_zero_duration_tracks() {
    let tracks = vec![track("empty", 0), track("B", 100)];
    let (index, offset) = resume_point(&tracks, 0);
    assert_eq!(index, 1);
    assert_eq!(offset, 0);
}

#[test]
fn sort_ignores_letter_case() {
    // A plain byte order would put "B" (0x42) before "a" (0x61).
    let mut tracks = vec![track("B.mp3", 1), track("a.mp3", 2), track("C.mp3", 3)];
    sort_tracks(&mut tracks);
    assert_eq!(tracks[0].path, "a.mp3");
    assert_eq!(tracks[1].path, "B.mp3");
    assert_eq!(tracks[2].path, "C.mp3");
}

#[test]
fn sort_orders_by_path_prefix() {
    let mut tracks = vec![track("ab", 1), track("a", 2), track("", 3), track("aa", 4)];
    sort_tracks(&mut tracks);
    assert_eq!(tracks[0].path, "");
    assert_eq!(tracks[1].path, "a");
    assert_eq!(tracks[2].path, "aa");
    assert_eq!(tracks[3].path, "ab");
}

#[test]
fn str_le_is_case_insensitive() {
    assert!(str_le("a.mp3", "B.mp3"));
    assert!(!str_le("B.mp3", "a.mp3"));
    assert!(str_le("abc", "abc"));
    assert!(str_le("ab", "abc"));
    assert!(!str_le("abc", "ab"));
}

#[test]
fn a_randomized_catalog_keeps_the_same_tracks() {
    // Building the catalog in a random order permutes the tracks but
    // loses none of them and keeps the total duration.
    let mut entries = Vec::new();
    for i in 0..50u64 {
        entries.push(entry(&format!("t{i}.mp3"), "mp3", Some(i + 1)));
    }
    let config = Config {
        start_point: 0,
        resume_playback: false,
        audio_directories: vec!["x".to_string()],
        randomize_tracks: Some(true),
        playback_order: None,
    };
    let mut engine = Playback::new();
    engine.init(config, entries).unwrap();
    assert_eq!(engine.tracks.len(), 50);
    assert_eq!(engine.total_duration, (1..=50).sum::<u64>());
    let mut shuffled = Vec::new();
    for t in &engine.tracks {
        shuffled.push(track(&t.path, t.duration));
    }
    let mut expected = Vec::new();
    for i in 0..50u64 {
        expected.push(track(&format!("t{i}.mp3"), i + 1));
    }
    sort_tracks(&mut shuffled);
    sort_tracks(&mut expected);
    for (a, b) in shuffled.iter().zip(expected.iter()) {
        assert_eq!(a.path, b.path);
        assert_eq!(a.duration, b.duration);
    }
}
