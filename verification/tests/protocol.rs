use muse::audio::PlaybackError;
use muse::catalog::FileEntry;
use muse::config::Config;
use muse::ipc::ADDR;
use muse::ipc::Client;
use muse::ipc::ClientAction;
use muse::ipc::Command;
use muse::ipc::ProtocolError;
use muse::ipc::Response;
use muse::ipc::Server;
use muse::ipc::decode_frame;
use muse::ipc::encode_frame;

#[test]
fn frame_round_trip() {
    let payload = vec![10u8, 20, 30];
    let frame = encode_frame(&payload).unwrap();
    assert_eq!(frame, vec![3u8, 10, 20, 30]);
    let back = decode_frame(&frame).unwrap();
    assert_eq!(back, payload);
}

#[test]
fn empty_payload_frames_as_a_single_length_byte() {
    let payload: Vec<u8> = Vec::new();
    let frame = encode_frame(&payload).unwrap();
    assert_eq!(frame, vec![0u8]);
    assert_eq!(decode_frame(&frame).unwrap(), payload);
}

#[test]
fn largest_payload_fits() {
    let payload = vec![7u8; 255];
    let frame = encode_frame(&payload).unwrap();
    assert_eq!(frame.len(), 256);
    assert_eq!(frame[0], 255);
    assert_eq!(decode_frame(&frame).unwrap(), payload);
}

#[test]
fn oversized_payload_is_refused() {
    let payload = vec![7u8; 256];
    let r = encode_frame(&payload);
    assert!(matches!(r, Err(ProtocolError::PayloadTooLarge)));
}

#[test]
fn malformed_frames_are_refused() {
    let empty: Vec<u8> = Vec::new();
    assert!(matches!(decode_frame(&empty), Err(ProtocolError::MalformedFrame)));
    let short = vec![3u8, 1, 2];
    assert!(matches!(decode_frame(&short), Err(ProtocolError::MalformedFrame)));
    let long = vec![1u8, 1, 2];
    assert!(matches!(decode_frame(&long), Err(ProtocolError::MalformedFrame)));
}

fn playable(path: &str, duration: u64) -> FileEntry {
    FileEntry { path: path.to_string(), extension: "mp3".to_string(), duration: Some(duration) }
}

fn plain_config() -> Config {
    Config {
        start_point: 0,
        resume_playback: true,
        audio_directories: vec!["x".to_string()],
        randomize_tracks: Some(false),
        playback_order: None,
    }
}

#[test]
fn play_with_nothing_playable_keeps_the_server_alive() {
    // An empty directory list discovers nothing; the play is refused
    // but no shutdown is asked for.
    let mut server = Server::new();
    assert!(server.needs_catalog());
    let init_error = server.playback.init(plain_config(), Vec::new()).err();
    let (response, shutdown) = server.handle_request(&Command::Play, init_error, 0);
    match response {
        Response::Error(m) => assert_eq!(m, "Couldn't read any audio files"),
        Response::Success(_) => panic!("a play with no tracks must fail"),
    }
    assert!(!shutdown);
}

#[test]
fn failed_configuration_loads_are_answered_as_errors() {
    let mut server = Server::new();
    let e = PlaybackError::Config("boom".to_string());
    let (response, shutdown) = server.handle_request(&Command::Play, Some(e), 0);
    match response {
        Response::Error(m) => assert_eq!(m, "boom"),
        Response::Success(_) => panic!("a failed load must fail the play"),
    }
    assert!(!shutdown);
}

#[test]
fn dispatch_runs_the_engine() {
    let mut server = Server::new();
    server.playback.init(plain_config(), vec![playable("a.mp3", 60)]).unwrap();
    let (response, shutdown) = server.handle_request(&Command::Play, None, 100);
    match response {
        Response::Success(m) => assert_eq!(m, "Playing a.mp3"),
        Response::Error(m) => panic!("play failed: {m}"),
    }
    assert!(!shutdown);
    let (response, shutdown) = server.handle_request(&Command::Pause, None, 130);
    match response {
        Response::Success(m) => assert_eq!(m, "Pausing a.mp3 after 30s"),
        Response::Error(m) => panic!("pause failed: {m}"),
    }
    assert!(!shutdown);
}

#[test]
fn only_stop_asks_for_shutdown() {
    let mut server = Server::new();
    server.playback.init(plain_config(), vec![playable("a.mp3", 60)]).unwrap();
    let (_, shutdown) = server.handle_request(&Command::Play, None, 0);
    assert!(!shutdown);
    let (response, shutdown) = server.handle_request(&Command::Stop, None, 45);
    match response {
        Response::Success(m) => assert_eq!(m, "Playback stopped after 45s"),
        Response::Error(m) => panic!("stop failed: {m}"),
    }
    assert!(shutdown);
}

#[test]
fn out_of_scope_commands_answer_an_empty_success() {
    let mut server = Server::new();
    let (response, shutdown) = server.handle_request(&Command::Start, None, 0);
    match response {
        Response::Success(m) => assert_eq!(m, ""),
        Response::Error(_) => panic!("collaborator commands never fail dispatch"),
    }
    assert!(!shutdown);
}

#[test]
fn stop_without_a_server_is_only_reported() {
    let client = Client;
    let action = client.run(false, Command::Stop);
    assert!(matches!(action, ClientAction::ReportNoServer));
}

#[test]
fn stop_with_a_server_running_is_sent() {
    let client = Client;
    let action = client.run(true, Command::Stop);
    assert!(matches!(action, ClientAction::SendRequest));
}

#[test]
fn play_without_a_server_still_sends() {
    let client = Client;
    let action = client.run(false, Command::Play);
    assert!(matches!(action, ClientAction::SendRequest));
    let action = client.run(false, Command::Pause);
    assert!(matches!(action, ClientAction::SendRequest));
}

#[test]
fn local_commands_run_their_collaborators() {
    let client = Client;
    assert!(matches!(client.run(false, Command::Update), ClientAction::RunUpdate));
    let action = client.run(true, Command::Download { url: "http://x/y.mp3".to_string() });
    match action {
        ClientAction::RunDownload(url) => assert_eq!(url, "http://x/y.mp3"),
        _ => panic!("a download must run the downloader"),
    }
}

#[test]
fn server_address_is_loopback() {
    assert_eq!(ADDR, "127.0.0.1:1234");
}
