use microbit_music_tui::ui::{fmt_time, log_kind, LogKind};

#[test]
fn formats_minutes_and_padded_seconds() {
    assert_eq!(fmt_time(0), "0:00");
    assert_eq!(fmt_time(9), "0:09");
    assert_eq!(fmt_time(75), "1:15");
    assert_eq!(fmt_time(220), "3:40");
    assert_eq!(fmt_time(3600), "60:00");
}

#[test]
fn log_entries_are_classified_by_prefix() {
    assert_eq!(log_kind("> W 7812"), LogKind::Sent);
    assert_eq!(log_kind("< E bad note"), LogKind::Error);
    assert_eq!(log_kind("! send failed: gone"), LogKind::Error);
    assert_eq!(log_kind("< R (ready)"), LogKind::Received);
    assert_eq!(log_kind("<E"), LogKind::Received);
    assert_eq!(log_kind("Loaded 2 song(s) from melodies"), LogKind::Info);
    assert_eq!(log_kind(""), LogKind::Info);
}

use microbit_music_tui::audio::playback::Playback;
use microbit_music_tui::ui::{pane_title, state_line};

#[test]
fn pane_title_follows_playback_and_connection() {
    assert_eq!(pane_title(true, false), " Now Playing ");
    assert_eq!(pane_title(true, true), " Now Playing ");
    assert_eq!(pane_title(false, true), " Song Preview (offline) ");
    assert_eq!(pane_title(false, false), " Song Preview ");
}

#[test]
fn state_line_shows_position_and_duration() {
    let mut pb = Playback {
        song_index: 0,
        samples: vec![128; 7812 * 220],
        pos: 7812 * 12 + 5,
        in_flight: 0,
        ended: false,
        paused: false,
        rate: 7812,
    };
    assert_eq!(state_line(&pb), "State: playing   0:12 / 3:40");
    pb.paused = true;
    assert_eq!(state_line(&pb), "State: paused   0:12 / 3:40");
}

use std::path::PathBuf;

use microbit_music_tui::app::Player;
use microbit_music_tui::audio::Song;
use microbit_music_tui::audio::stream::SongStream;
use microbit_music_tui::ui::{log_window_start, pane_lines, pcm_note, song_list_view};

fn songs(names: &[&str]) -> Vec<Song> {
    names
        .iter()
        .map(|n| Song {
            name: n.to_string(),
            path: PathBuf::from(format!("{n}.wav")),
        })
        .collect()
}

#[test]
fn song_list_marks_playing_song_and_counts_songs() {
    let (rows, title, highlight) = song_list_view(&songs(&["a", "b", "c"]), Some(1), 2);
    assert_eq!(rows, ["  a", "* b", "  c"]);
    assert_eq!(title, " Songs [3] ");
    assert_eq!(highlight, Some(2));
    let (rows, title, highlight) = song_list_view(&Vec::new(), None, 0);
    assert!(rows.is_empty());
    assert_eq!(title, " Songs [0] ");
    assert_eq!(highlight, None);
}

#[test]
fn pane_lines_for_empty_library() {
    let p = Player::new(true);
    assert_eq!(
        pane_lines(&p, "melodies"),
        ["No songs loaded.", "Add WAV files under melodies and press r."]
    );
}

#[test]
fn pane_lines_preview_online_and_offline() {
    let mut p = Player::new(false);
    p.load_songs(Ok(songs(&["tune", "other"])), "m");
    assert_eq!(
        pane_lines(&p, "m"),
        ["Song:  tune", "Type:  WAV (PCM stream)", "No micro:bit connected — browsing only."]
    );
    let mut q = Player::new(true);
    q.load_songs(Ok(songs(&["tune", "other"])), "m");
    q.select_next();
    assert_eq!(
        pane_lines(&q, "m"),
        ["Song:  other", "Type:  WAV (PCM stream)", "Press Enter to stream this WAV."]
    );
}

#[test]
fn pane_lines_while_streaming() {
    let mut p = Player::new(true);
    p.load_songs(Ok(songs(&["tune"])), "m");
    p.start_decoded(0, Ok(SongStream { rate: 7812, samples: vec![128; 7812 * 65] }));
    assert_eq!(
        pane_lines(&p, "m"),
        ["Song:  tune", "State: playing   0:00 / 1:05", "WAV:   7812 Hz, 8-bit mono"]
    );
    assert_eq!(pcm_note(false), "Streaming raw PCM to the micro:bit speaker…");
    assert_eq!(pcm_note(true), "Paused.");
}

#[test]
fn log_window_shows_newest_entries_that_fit() {
    assert_eq!(log_window_start(10, 8), 4);
    assert_eq!(log_window_start(3, 8), 0);
    assert_eq!(log_window_start(5, 1), 5);
    assert_eq!(log_window_start(0, 0), 0);
}
