use microbit_music_tui::audio::playback::{back_target, forward_target, Playback, Seek, PCM_RATE};

#[test]
fn forward_seeks_within_then_crosses_at_end() {
    assert_eq!(forward_target(0, 100, 30), Seek::To(30));
    assert_eq!(forward_target(80, 100, 30), Seek::Boundary);
    assert_eq!(forward_target(100, 100, 30), Seek::Boundary);
}

#[test]
fn back_rewinds_then_crosses_at_start() {
    assert_eq!(back_target(50, 30), Seek::To(20));
    assert_eq!(back_target(30, 30), Seek::Boundary);
    assert_eq!(back_target(10, 30), Seek::Boundary);
}

#[test]
fn forward_lands_exactly_before_end() {
    assert_eq!(forward_target(69, 100, 30), Seek::To(99));
    assert_eq!(forward_target(70, 100, 30), Seek::Boundary);
}

#[test]
fn back_then_forward_returns_to_start_point() {
    // forward 40 -> 70, back 30 -> 40, and the other way round.
    assert_eq!(forward_target(40, 100, 30), Seek::To(70));
    assert_eq!(back_target(70, 30), Seek::To(40));
    assert_eq!(back_target(70, 30), Seek::To(40));
    assert_eq!(forward_target(40, 100, 30), Seek::To(70));
}

fn playback(len: usize, pos: usize, rate: u32) -> Playback {
    Playback {
        song_index: 0,
        samples: vec![128u8; len],
        pos,
        in_flight: 0,
        ended: false,
        paused: false,
        rate,
    }
}

#[test]
fn position_and_duration_in_whole_seconds() {
    let pb = playback(3 * PCM_RATE as usize + 10, PCM_RATE as usize * 2 - 1, PCM_RATE);
    assert_eq!(pb.position_secs(), 1);
    assert_eq!(pb.duration_secs(), 3);
}

#[test]
fn zero_rate_counts_bytes_as_seconds() {
    let pb = playback(42, 7, 0);
    assert_eq!(pb.position_secs(), 7);
    assert_eq!(pb.duration_secs(), 42);
}
