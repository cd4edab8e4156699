use std::path::PathBuf;

use microbit_music_tui::audio::{classify, songs_from_entries, sort_songs, DirEntry, Song};
use microbit_music_tui::serial::{autodetect_from, is_microbit_port, ConnectionState};

fn entry(name: &str, is_file: bool) -> DirEntry {
    DirEntry {
        path: PathBuf::from("/music").join(name),
        file_name: name.to_string(),
        is_file,
    }
}

fn names(songs: &[Song]) -> Vec<&str> {
    songs.iter().map(|s| s.name.as_str()).collect()
}

#[test]
fn listing_keeps_only_wav_files_sorted_case_insensitively() {
    let songs = songs_from_entries(vec![entry("a.wav", true), entry("b.txt", true), entry("c.WAV", true)]);
    assert_eq!(names(&songs), ["a", "c"]);
    assert_eq!(songs[1].path, PathBuf::from("/music/c.WAV"));
}

#[test]
fn listing_skips_hidden_files_directories_and_other_extensions() {
    let songs = songs_from_entries(vec![
        entry(".hidden.wav", true),
        entry("dir.wav", false),
        entry("noext", true),
        entry("song.wave", true),
        entry("tune.mp3", true),
        entry("x.wav.bak", true),
        entry("Mixed.WaVe", true),
    ]);
    assert_eq!(names(&songs), ["Mixed", "song"]);
}

#[test]
fn stem_keeps_inner_dots() {
    assert_eq!(classify(&"my.best.song.wav".to_string()), Some("my.best.song".to_string()));
    assert_eq!(classify(&"trailing.".to_string()), None);
    assert_eq!(classify(&".wav".to_string()), None);
    assert_eq!(classify(&"x.WAVE".to_string()), Some("x".to_string()));
}

#[test]
fn sort_is_case_insensitive_and_stable() {
    let song = |name: &str, path: &str| Song {
        name: name.to_string(),
        path: PathBuf::from(path),
    };
    let sorted = sort_songs(vec![
        song("beta", "1"),
        song("Alpha", "2"),
        song("BETA", "3"),
        song("alpha", "4"),
        song("Gamma", "5"),
    ]);
    let paths: Vec<PathBuf> = sorted.iter().map(|s| s.path.clone()).collect();
    let expected: Vec<PathBuf> = ["2", "4", "1", "3", "5"].iter().map(PathBuf::from).collect();
    assert_eq!(paths, expected);
}

#[test]
fn sort_orders_by_code_point_after_lowercasing() {
    let song = |name: &str| Song {
        name: name.to_string(),
        path: PathBuf::from(name),
    };
    let sorted = sort_songs(vec![song("b"), song("ab"), song("a"), song("Z"), song("_x")]);
    assert_eq!(names(&sorted), ["_x", "a", "ab", "b", "Z"]);
}

#[test]
fn empty_listing_gives_no_songs() {
    assert!(songs_from_entries(Vec::new()).is_empty());
}

#[test]
fn autodetect_prefers_usb_style_ports() {
    let ports: Vec<String> = ["/dev/ttyS0", "/dev/ttyACM0", "/dev/ttyUSB1"]
        .iter()
        .map(|s| s.to_string())
        .collect();
    assert_eq!(autodetect_from(&ports), Some("/dev/ttyACM0".to_string()));
}

#[test]
fn autodetect_matches_case_insensitively() {
    let ports = vec!["COM1".to_string(), "/dev/cu.UsbModem1402".to_string()];
    assert_eq!(autodetect_from(&ports), Some("/dev/cu.UsbModem1402".to_string()));
    assert!(is_microbit_port(&"/dev/TTYUSB0".to_string()));
    assert!(!is_microbit_port(&"/dev/ttyS0".to_string()));
}

#[test]
fn autodetect_falls_back_to_first_port() {
    let ports = vec!["COM3".to_string(), "COM4".to_string()];
    assert_eq!(autodetect_from(&ports), Some("COM3".to_string()));
    assert_eq!(autodetect_from(&Vec::new()), None);
}

#[test]
fn connection_state_labels() {
    assert_eq!(ConnectionState::NoPort.label(), "OFFLINE");
    assert_eq!(ConnectionState::Connecting.label(), "CONNECTING");
    assert_eq!(ConnectionState::Ready.label(), "READY");
    assert_eq!(ConnectionState::Disconnected.label(), "DISCONNECTED");
}
