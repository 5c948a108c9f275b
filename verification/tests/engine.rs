use muse::audio::Playback;
use muse::audio::PlaybackError;
use muse::audio::Status;
use muse::catalog::FileEntry;
use muse::config::Config;

fn entry(path: &str, duration: u64) -> FileEntry {
    FileEntry { path: path.to_string(), extension: "mp3".to_string(), duration: Some(duration) }
}

fn plain_config(start_point: u64) -> Config {
    Config {
        start_point,
        resume_playback: true,
        audio_directories: vec!["x".to_string()],
        randomize_tracks: Some(false),
        playback_order: None,
    }
}

fn engine_with(start_point: u64) -> Playback {
    let mut engine = Playback::new();
    let entries = vec![entry("A.mp3", 180), entry("B.mp3", 120)];
    let skipped = engine.init(plain_config(start_point), entries).unwrap();
    assert!(skipped.is_empty());
    engine
}

#[test]
fn init_with_nothing_playable_is_refused() {
    let mut engine = Playback::new();
    let r = engine.init(plain_config(0), Vec::new());
    assert!(matches!(r, Err(PlaybackError::NoPlayableTracks)));
    assert!(!engine.is_initialized());
}

#[test]
fn init_with_only_zero_durations_is_refused() {
    let mut engine = Playback::new();
    let r = engine.init(plain_config(0), vec![entry("a.mp3", 0)]);
    assert!(matches!(r, Err(PlaybackError::NoPlayableTracks)));
    assert!(!engine.is_initialized());
}

#[test]
fn init_reports_skipped_files() {
    let mut engine = Playback::new();
    let entries = vec![
        entry("a.mp3", 10),
        FileEntry {
            path: "notes.txt".to_string(),
            extension: "txt".to_string(),
            duration: Some(3),
        },
        FileEntry { path: "broken.ogg".to_string(), extension: "ogg".to_string(), duration: None },
    ];
    let skipped = engine.init(plain_config(0), entries).unwrap();
    assert_eq!(skipped, vec!["notes.txt".to_string(), "broken.ogg".to_string()]);
}

#[test]
fn init_computes_the_resume_position() {
    let engine = engine_with(200);
    assert_eq!(engine.total_duration, 300);
    assert_eq!(engine.current_track, 1);
    assert_eq!(engine.pending_offset, 20);
    assert_eq!(engine.uptime, 200);
}

#[test]
fn init_happens_once() {
    let mut engine = engine_with(0);
    let again = engine.init(plain_config(50), vec![entry("C.mp3", 30)]);
    let skipped = again.unwrap();
    assert!(skipped.is_empty());
    assert_eq!(engine.tracks.len(), 2);
    assert_eq!(engine.total_duration, 300);
}

#[test]
fn play_names_the_current_track() {
    let mut engine = engine_with(200);
    let message = engine.play(1000).unwrap();
    assert_eq!(message, "Playing B.mp3");
    assert!(matches!(engine.status, Status::Playing));
    assert_eq!(engine.start_time, 1000);
}

#[test]
fn play_while_playing_is_refused() {
    let mut engine = engine_with(0);
    engine.play(1000).unwrap();
    let second = engine.play(1001);
    assert!(matches!(second, Err(PlaybackError::AlreadyPlaying)));
    assert!(matches!(engine.status, Status::Playing));
}

#[test]
fn play_while_paused_resumes_without_rebuilding() {
    let mut engine = engine_with(0);
    engine.play(1000).unwrap();
    engine.pause(1060).unwrap();
    let tracks_before = engine.tracks.len();
    let message = engine.play(1100).unwrap();
    assert_eq!(message, "Unpausing A.mp3");
    assert_eq!(engine.tracks.len(), tracks_before);
    assert_eq!(engine.uptime, 60);
    assert!(matches!(engine.status, Status::Playing));
}

#[test]
fn play_before_init_is_refused() {
    let mut engine = Playback::new();
    let r = engine.play(5);
    assert!(matches!(r, Err(PlaybackError::NoPlayableTracks)));
}

#[test]
fn pause_folds_elapsed_time_into_uptime() {
    let mut engine = engine_with(0);
    engine.play(1000).unwrap();
    let message = engine.pause(1061).unwrap();
    assert_eq!(engine.uptime, 61);
    assert_eq!(message, "Pausing A.mp3 after 1m 1s");
    assert!(matches!(engine.status, Status::Paused));
}

#[test]
fn pause_twice_is_refused() {
    let mut engine = engine_with(0);
    engine.play(1000).unwrap();
    engine.pause(1010).unwrap();
    let second = engine.pause(1020);
    assert!(matches!(second, Err(PlaybackError::NotPlaying)));
    assert_eq!(engine.uptime, 10);
}

#[test]
fn pause_while_idle_is_refused() {
    let mut engine = engine_with(0);
    let r = engine.pause(1000);
    assert!(matches!(r, Err(PlaybackError::NotPlaying)));
}

#[test]
fn stop_reports_the_final_uptime() {
    let mut engine = engine_with(0);
    engine.play(1000).unwrap();
    let message = engine.stop(false, 1090);
    assert_eq!(message, "Playback stopped after 1m 30s");
    assert_eq!(engine.uptime, 90);
    assert!(matches!(engine.status, Status::Idle));
}

#[test]
fn persisting_stop_writes_uptime_modulo_total() {
    let mut engine = engine_with(200);
    engine.play(1000).unwrap();
    let _ = engine.stop(true, 1150);
    assert_eq!(engine.uptime, 350);
    let config = engine.configuration().as_ref().unwrap();
    assert_eq!(config.start_point, 50);
}

#[test]
fn persisting_stop_without_resume_writes_zero() {
    let mut engine = Playback::new();
    let mut config = plain_config(0);
    config.resume_playback = false;
    engine.init(config, vec![entry("A.mp3", 180)]).unwrap();
    engine.play(1000).unwrap();
    let _ = engine.stop(true, 1030);
    assert_eq!(engine.uptime, 30);
    let config = engine.configuration().as_ref().unwrap();
    assert_eq!(config.start_point, 0);
}

#[test]
fn stop_before_init_still_succeeds() {
    let mut engine = Playback::new();
    let message = engine.stop(true, 5);
    assert_eq!(message, "Playback stopped after ");
    assert!(matches!(engine.status, Status::Idle));
}

#[test]
fn next_track_hands_out_the_pending_offset_once() {
    let mut engine = engine_with(200);
    let (index, offset) = engine.next_track();
    assert_eq!(index, 1);
    assert_eq!(offset, 20);
    let (index, offset) = engine.next_track();
    assert_eq!(index, 0);
    assert_eq!(offset, 0);
    let (index, offset) = engine.next_track();
    assert_eq!(index, 1);
    assert_eq!(offset, 0);
}
