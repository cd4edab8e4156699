use std::path::PathBuf;

use microbit_music_tui::app::{Player, SendOutcome, LOG_CAP};
use microbit_music_tui::audio::Song;
use microbit_music_tui::audio::playback::{PCM_CHUNK, PCM_RATE, PCM_WINDOW};
use microbit_music_tui::audio::stream::SongStream;
use microbit_music_tui::serial::ConnectionState;
use microbit_music_tui::serial::protocol::{Command, Response};
use microbit_music_tui::serial::wire::{frame_chunk, line_bytes};

/// Replays a wire dump with the device's framing rules: lines, and exactly
/// `len` raw bytes after each `C <len>` header.
struct Device {
    lines: Vec<String>,
    pcm: Vec<u8>,
}

fn decode(wire: &[u8]) -> Device {
    let mut dev = Device { lines: Vec::new(), pcm: Vec::new() };
    let mut i = 0;
    while i < wire.len() {
        let nl = wire[i..].iter().position(|&b| b == b'\n').expect("stream ends mid-line") + i;
        let line = std::str::from_utf8(&wire[i..nl]).expect("command line is not UTF-8").to_string();
        i = nl + 1;
        if let Some(n) = line.strip_prefix("C ") {
            let n: usize = n.parse().expect("bad chunk header");
            assert!(i + n <= wire.len(), "stream ends mid-chunk");
            dev.pcm.extend_from_slice(&wire[i..i + n]);
            i += n;
        } else {
            assert!(
                ["H", "S", "W", "Z"].contains(&line.split(' ').next().unwrap()),
                "stray line {line:?}"
            );
            dev.lines.push(line);
        }
    }
    dev
}

impl Device {
    fn count(&self, op: &str) -> usize {
        self.lines.iter().filter(|l| l.split(' ').next() == Some(op)).count()
    }
}

struct Rig {
    player: Player,
    wire: Vec<u8>,
    streams: Vec<Vec<u8>>,
}

fn samples(n: usize, seed: usize) -> Vec<u8> {
    (0..n).map(|i| ((i * 7919 + seed) % 256) as u8).collect()
}

fn rig(lengths: &[usize]) -> Rig {
    let mut player = Player::new(true);
    let songs = lengths
        .iter()
        .enumerate()
        .map(|(i, _)| Song {
            name: format!("song{i}"),
            path: PathBuf::from(format!("song{i}.wav")),
        })
        .collect();
    player.load_songs(Ok(songs), "melodies");
    player.send(Command::Handshake);
    let streams = lengths.iter().enumerate().map(|(i, &n)| samples(n, i)).collect();
    let mut r = Rig { player, wire: Vec::new(), streams };
    r.flush();
    r
}

impl Rig {
    fn flush(&mut self) {
        loop {
            for cmd in self.player.take_outbox() {
                self.wire.extend(line_bytes(&cmd));
                self.player.record_send(&cmd, SendOutcome::Sent);
            }
            match self.player.pump_next() {
                Some(chunk) => {
                    self.wire.extend(frame_chunk(&chunk));
                    self.player.chunk_result(SendOutcome::Sent);
                }
                None => {
                    if self.player.outbox.is_empty() {
                        break;
                    }
                }
            }
        }
    }

    fn start(&mut self, req: Option<usize>) {
        if let Some(idx) = req {
            let decoded = SongStream {
                rate: PCM_RATE,
                samples: self.streams[idx].clone(),
            };
            self.player.start_decoded(idx, Ok(decoded));
        }
        self.flush();
    }

    fn recv(&mut self, resp: Response) {
        let req = self.player.apply_response(resp);
        self.start(req);
    }

    fn credits(&mut self, n: usize) {
        for _ in 0..n {
            if self.player.playback.is_some() {
                self.recv(Response::Credit);
            }
        }
    }

    fn run(&mut self) {
        for _ in 0..1_000_000 {
            match self.player.playback.as_ref() {
                None => return,
                Some(p) if p.paused => return,
                Some(p) if p.ended => {
                    self.recv(Response::Done);
                    return;
                }
                Some(_) => self.recv(Response::Credit),
            }
        }
        panic!("stream did not terminate");
    }
}

#[test]
fn clean_playthrough_delivers_every_sample_once() {
    let mut r = rig(&[5000]);
    let req = r.player.play_selected();
    assert_eq!(req, Some(0));
    r.start(req);
    assert_eq!(r.player.status_msg, "Playing song0 (7812 Hz)");
    r.run();
    let dev = decode(&r.wire);
    assert_eq!(dev.pcm, r.streams[0]);
    assert_eq!(dev.count("W"), 1);
    assert_eq!(dev.count("Z"), 1);
    assert_eq!(dev.count("H"), 1);
    assert_eq!(r.player.status_msg, "Finished song0");
    assert!(r.player.playback.is_none());
}

#[test]
fn window_caps_chunks_in_flight() {
    let mut r = rig(&[100 * PCM_CHUNK]);
    let req = r.player.play_selected();
    r.start(req);
    let pb = r.player.playback.as_ref().unwrap();
    assert_eq!(pb.in_flight, PCM_WINDOW);
    assert_eq!(pb.pos, PCM_WINDOW * PCM_CHUNK);
    r.credits(1);
    let pb = r.player.playback.as_ref().unwrap();
    assert_eq!(pb.in_flight, PCM_WINDOW);
    assert_eq!(pb.pos, (PCM_WINDOW + 1) * PCM_CHUNK);
}

#[test]
fn pause_then_resume_restarts_at_position() {
    let mut r = rig(&[8000]);
    let req = r.player.play_selected();
    r.start(req);
    r.credits(3);
    let before = r.wire.len();
    r.player.pause_toggle();
    r.flush();
    assert!(r.player.playback.as_ref().unwrap().paused);
    assert_eq!(&r.wire[before..], b"S\n");
    assert_eq!(r.player.status_msg, "Paused");
    let pos = r.player.playback.as_ref().unwrap().pos;
    r.player.pause_toggle();
    assert_eq!(r.player.status_msg, "Resumed");
    assert_eq!(
        r.player.outbox,
        vec![Command::Stop, Command::BeginStream { rate: PCM_RATE }]
    );
    r.flush();
    let pb = r.player.playback.as_ref().unwrap();
    assert!(!pb.paused);
    assert_eq!(pb.pos, pos + PCM_WINDOW * PCM_CHUNK);
    r.run();
    decode(&r.wire);
}

#[test]
fn stop_midstream_drops_the_stream() {
    let mut r = rig(&[8000]);
    let req = r.player.play_selected();
    r.start(req);
    r.credits(4);
    r.player.stop();
    r.flush();
    assert!(r.player.playback.is_none());
    assert_eq!(r.player.status_msg, "Stopped");
    assert!(r.wire.ends_with(b"S\n"));
    decode(&r.wire);
}

#[test]
fn forward_seeks_within_song() {
    let mut r = rig(&[60_000]);
    let req = r.player.play_selected();
    r.start(req);
    r.credits(5);
    let pos = r.player.playback.as_ref().unwrap().pos;
    assert_eq!(r.player.forward(), None);
    assert_eq!(r.player.playback.as_ref().unwrap().pos, pos + 5 * PCM_RATE as usize);
    r.flush();
    r.run();
    decode(&r.wire);
}

#[test]
fn forward_at_end_moves_to_next_song_then_stops_at_end_of_library() {
    let mut r = rig(&[6000, 6000]);
    let req = r.player.play_selected();
    r.start(req);
    assert_eq!(r.player.forward(), Some(1));
    assert_eq!(r.player.selected, 1);
    r.start(Some(1));
    assert_eq!(r.player.playback.as_ref().unwrap().song_index, 1);
    assert_eq!(r.player.forward(), None);
    assert!(r.player.playback.is_none());
    assert_eq!(r.player.status_msg, "End of library");
    r.flush();
    decode(&r.wire);
}

#[test]
fn back_near_start_moves_to_previous_song_or_restarts_first() {
    let mut r = rig(&[60_000, 60_000]);
    r.player.select_next();
    let req = r.player.play_selected();
    assert_eq!(req, Some(1));
    r.start(req);
    assert_eq!(r.player.back(), Some(0));
    assert_eq!(r.player.selected, 0);
    r.start(Some(0));
    assert_eq!(r.player.back(), None);
    assert_eq!(r.player.playback.as_ref().unwrap().pos, 0);
    assert_eq!(r.player.playback.as_ref().unwrap().song_index, 0);
    r.flush();
    r.credits(2);
    let before = r.player.playback.as_ref().unwrap().pos;
    assert!(before > 0);
    assert_eq!(r.player.back(), None);
    r.flush();
    decode(&r.wire);
}

#[test]
fn next_song_wraps_at_end_of_library() {
    let mut r = rig(&[6000, 6000]);
    let req = r.player.play_selected();
    r.start(req);
    r.credits(3);
    let req = r.player.next_song();
    assert_eq!(req, Some(1));
    r.start(req);
    assert_eq!(r.player.playback.as_ref().unwrap().song_index, 1);
    let req = r.player.next_song();
    assert_eq!(req, Some(0));
    r.start(req);
    r.run();
    decode(&r.wire);
}

#[test]
fn device_controls_are_logged_and_applied() {
    let mut r = rig(&[60_000, 6000]);
    let req = r.player.play_selected();
    r.start(req);
    r.credits(3);
    r.recv(Response::Pause);
    assert!(r.player.playback.as_ref().unwrap().paused);
    r.recv(Response::Pause);
    r.credits(3);
    r.recv(Response::Forward);
    r.credits(3);
    r.recv(Response::Next);
    assert_eq!(r.player.playback.as_ref().unwrap().song_index, 1);
    r.run();
    let log: Vec<&String> = r.player.log.iter().collect();
    assert!(log.iter().any(|l| l.as_str() == "< P (device pause)"));
    assert!(log.iter().any(|l| l.as_str() == "< F (device forward)"));
    assert!(log.iter().any(|l| l.as_str() == "< N (device next)"));
    assert!(log.iter().any(|l| l.as_str() == "< D (done)"));
    decode(&r.wire);
}

#[test]
fn rapid_control_burst_stays_framed() {
    let mut r = rig(&[60_000, 60_000]);
    let req = r.player.play_selected();
    r.start(req);
    r.player.pause_toggle();
    r.flush();
    r.player.pause_toggle();
    r.flush();
    let req = r.player.forward();
    r.start(req);
    let req = r.player.next_song();
    r.start(req);
    r.player.stop();
    r.flush();
    let req = r.player.play_selected();
    r.start(req);
    r.run();
    decode(&r.wire);
}

#[test]
fn stray_done_is_ignored_until_end_marker_sent() {
    let mut r = rig(&[6000]);
    let req = r.player.play_selected();
    r.start(req);
    let log_len = r.player.log.len();
    r.recv(Response::Done);
    assert!(r.player.playback.is_some());
    assert_eq!(r.player.log.len(), log_len);
}

#[test]
fn ready_error_and_unknown_responses() {
    let mut r = rig(&[]);
    assert_eq!(r.player.conn_state, ConnectionState::Connecting);
    r.recv(Response::Ready);
    assert_eq!(r.player.conn_state, ConnectionState::Ready);
    r.recv(Response::Error("bad note".into()));
    r.recv(Response::Unknown("???".into()));
    let tail: Vec<&str> = r.player.log.iter().rev().take(3).map(|s| s.as_str()).collect();
    assert_eq!(tail, ["< ???", "< E bad note", "< R (ready)"]);
}

#[test]
fn disconnect_drops_stream_once() {
    let mut r = rig(&[6000]);
    let req = r.player.play_selected();
    r.start(req);
    r.player.on_disconnect();
    assert_eq!(r.player.conn_state, ConnectionState::Disconnected);
    assert!(r.player.playback.is_none());
    assert_eq!(r.player.status_msg, "Device disconnected");
    let n = r.player.log.len();
    r.player.on_disconnect();
    assert_eq!(r.player.log.len(), n);
}

#[test]
fn offline_and_empty_library_refuse_to_play() {
    let mut p = Player::new(false);
    assert!(p.is_offline());
    assert_eq!(p.conn_state, ConnectionState::NoPort);
    assert_eq!(p.play_selected(), None);
    assert_eq!(p.status_msg, "No songs to play");
    p.load_songs(
        Ok(vec![Song {
            name: "a".into(),
            path: PathBuf::from("a.wav"),
        }]),
        "dir",
    );
    assert_eq!(p.play_selected(), None);
    assert_eq!(p.status_msg, "Offline — connect a micro:bit to play");
}

#[test]
fn decode_failure_and_empty_song() {
    let mut r = rig(&[10]);
    r.player.start_decoded(0, Err("opening WAV file x".into()));
    assert!(r.player.playback.is_none());
    assert_eq!(r.player.status_msg, "WAV decode failed: opening WAV file x");
    assert_eq!(r.player.log.back().unwrap(), "! wav: opening WAV file x");
    r.player.start_decoded(0, Ok(SongStream { rate: PCM_RATE, samples: Vec::new() }));
    assert!(r.player.playback.is_none());
    assert_eq!(r.player.status_msg, "WAV has no samples");
    assert!(r.player.outbox.is_empty());
}

#[test]
fn send_outcomes_are_logged() {
    let mut p = Player::new(true);
    p.record_send(&Command::BeginStream { rate: 7812 }, SendOutcome::Sent);
    p.record_send(&Command::Stop, SendOutcome::Failed("broken pipe".into()));
    p.record_send(&Command::Handshake, SendOutcome::NoPort);
    let log: Vec<&str> = p.log.iter().map(|s| s.as_str()).collect();
    assert_eq!(log, ["> W 7812", "! send failed: broken pipe", "! no port; dropped H"]);
}

#[test]
fn failed_chunk_stops_pump_without_advancing() {
    let mut r = rig(&[6000]);
    let req = r.player.play_selected();
    if let Some(idx) = req {
        let decoded = SongStream { rate: PCM_RATE, samples: r.streams[idx].clone() };
        r.player.start_decoded(idx, Ok(decoded));
    }
    r.player.take_outbox();
    assert!(r.player.pump_next().is_some());
    r.player.chunk_result(SendOutcome::Failed("gone".into()));
    let pb = r.player.playback.as_ref().unwrap();
    assert_eq!(pb.pos, 0);
    assert_eq!(pb.in_flight, 0);
    assert!(r.player.pump_next().is_none());
    assert_eq!(r.player.log.back().unwrap(), "! pcm send failed: gone");
}

#[test]
fn library_load_reports_and_clamps_cursor() {
    let mut p = Player::new(true);
    let song = |n: &str| Song {
        name: n.into(),
        path: PathBuf::from(n),
    };
    p.load_songs(Ok(vec![song("a"), song("b"), song("c")]), "melodies");
    assert_eq!(p.status_msg, "Loaded 3 song(s) from melodies");
    p.select_prev();
    assert_eq!(p.selected, 2);
    p.select_next();
    assert_eq!(p.selected, 0);
    p.select_prev();
    p.load_songs(Ok(vec![song("a")]), "melodies");
    assert_eq!(p.selected, 0);
    p.load_songs(Err("No such file or directory (os error 2)".into()), "melodies");
    assert_eq!(p.status_msg, "Failed to read melodies: No such file or directory (os error 2)");
    assert!(p.songs.is_empty());
    assert_eq!(p.selected, 0);
    assert!(p.selected_song().is_none());
    assert_eq!(p.log.back().unwrap(), &p.status_msg);
}

#[test]
fn log_keeps_only_the_newest_entries() {
    let mut p = Player::new(true);
    for i in 0..(LOG_CAP + 5) {
        p.log_line(format!("line {i}"));
    }
    assert_eq!(p.log.len(), LOG_CAP);
    assert_eq!(p.log.front().unwrap(), "line 5");
}

#[test]
fn startup_greets_only_when_online() {
    let song = Song {
        name: "a".into(),
        path: PathBuf::from("a.wav"),
    };
    let p = Player::open(true, Ok(vec![song]), "melodies");
    assert_eq!(p.outbox, vec![Command::Handshake]);
    assert_eq!(p.conn_state, ConnectionState::Connecting);
    assert_eq!(p.selected, 0);
    assert!(p.playback.is_none());
    assert_eq!(p.log.len(), 1);
    assert_eq!(p.log[0], "Loaded 1 song(s) from melodies");
    let mut wire = Vec::new();
    for cmd in p.outbox.iter() {
        wire.extend(line_bytes(cmd));
    }
    assert_eq!(wire, b"H\n".to_vec());

    let q = Player::open(false, Err("reading song directory x".into()), "x");
    assert!(q.outbox.is_empty());
    assert_eq!(q.conn_state, ConnectionState::NoPort);
    assert!(q.songs.is_empty());
    assert_eq!(q.status_msg, "Failed to read x: reading song directory x");
}

#[test]
fn greet_queues_handshake_when_online() {
    let mut p = Player::new(true);
    p.greet();
    assert_eq!(p.outbox, vec![Command::Handshake]);
    let mut q = Player::new(false);
    q.greet();
    assert!(q.outbox.is_empty());
}
