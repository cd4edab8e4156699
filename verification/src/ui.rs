//! What the screen shows that is worked out rather than drawn: the song
//! list's rows, title and highlight, the right-hand pane's title and lines,
//! times as `m:ss`, the kind of each log entry (which decides its colour) and
//! which log entries fit on screen.

use vstd::prelude::*;
use crate::app::Player;
use crate::audio::Song;
use crate::audio::playback::{rate_divisor, Playback};
use crate::text::{chars_of, decimal, push_char, push_decimal};

verus! {

/// `n` (below 100) as two digits, zero-padded.
pub open spec fn two_digits(n: nat) -> Seq<char> {
    if n < 10 {
        seq!['0'] + decimal(n)
    } else {
        decimal(n)
    }
}

/// A duration of `secs` seconds as `m:ss`.
pub open spec fn spec_fmt_time(secs: nat) -> Seq<char> {
    decimal(secs / 60) + seq![':'] + two_digits(secs % 60)
}

/// A duration in seconds as `m:ss` (minutes unpadded, seconds two digits).
pub fn fmt_time(secs: usize) -> (r: String)
    ensures
        r@ == spec_fmt_time(secs as nat),
{
    let mut s = String::new();
    push_decimal(&mut s, (secs / 60) as u64);
    push_char(&mut s, ':');
    let rem = secs % 60;
    if rem < 10 {
        push_char(&mut s, '0');
    }
    push_decimal(&mut s, rem as u64);
    s
}

/// How a log entry is shown.
#[derive(Debug, Clone, Copy, PartialEq, Eq, Structural)]
pub enum LogKind {
    /// A line the host wrote (`>`).
    Sent,
    /// An error, from the device (`< E`) or the host (`!`).
    Error,
    /// A line the device sent (`<`).
    Received,
    /// Anything else: status reports.
    Info,
}

/// The kind of a log entry, by how it starts.
pub open spec fn spec_log_kind(entry: Seq<char>) -> LogKind {
    if entry.len() >= 1 && entry[0] == '>' {
        LogKind::Sent
    } else if (entry.len() >= 3 && entry[0] == '<' && entry[1] == ' ' && entry[2] == 'E') || (
    entry.len() >= 1 && entry[0] == '!') {
        LogKind::Error
    } else if entry.len() >= 1 && entry[0] == '<' {
        LogKind::Received
    } else {
        LogKind::Info
    }
}

/// The kind of a log entry, which decides its colour on screen.
pub fn log_kind(entry: &str) -> (r: LogKind)
    ensures
        r == spec_log_kind(entry@),
{
    let v = chars_of(entry);
    let n = v.len();
    if n >= 1 && v[0] == '>' {
        LogKind::Sent
    } else if (n >= 3 && v[0] == '<' && v[1] == ' ' && v[2] == 'E') || (n >= 1 && v[0] == '!') {
        LogKind::Error
    } else if n >= 1 && v[0] == '<' {
        LogKind::Received
    } else {
        LogKind::Info
    }
}

/// The title of the right-hand pane: the stream when one plays, else a
/// preview of the selected song (marked offline without a connection).
pub open spec fn spec_pane_title(playing: bool, offline: bool) -> Seq<char> {
    if playing {
        " Now Playing "@
    } else if offline {
        " Song Preview (offline) "@
    } else {
        " Song Preview "@
    }
}

/// The title of the right-hand pane.
pub fn pane_title(playing: bool, offline: bool) -> (r: &'static str)
    ensures
        r@ == spec_pane_title(playing, offline),
{
    if playing {
        " Now Playing "
    } else if offline {
        " Song Preview (offline) "
    } else {
        " Song Preview "
    }
}

/// The state line of a stream: held or playing, then position and duration.
pub open spec fn spec_state_line(pb: Playback) -> Seq<char> {
    "State: "@ + (if pb.paused {
        "paused"@
    } else {
        "playing"@
    }) + "   "@ + spec_fmt_time(pb.pos as nat / rate_divisor(pb.rate)) + " / "@ + spec_fmt_time(
        pb.samples@.len() / rate_divisor(pb.rate),
    )
}

/// The state line of a stream, e.g. `State: playing   0:12 / 3:40`.
pub fn state_line(pb: &Playback) -> (r: String)
    ensures
        r@ == spec_state_line(*pb),
{
    let mut s = String::from_str("State: ");
    if pb.paused {
        s.append("paused");
    } else {
        s.append("playing");
    }
    s.append("   ");
    s.append(fmt_time(pb.position_secs()).as_str());
    s.append(" / ");
    s.append(fmt_time(pb.duration_secs()).as_str());
    s
}

/// The row of song `i` in the song list: a `*` marker on the playing song,
/// then its name.
pub open spec fn spec_song_row(name: Seq<char>, playing: Option<usize>, i: int) -> Seq<char> {
    (if playing == Some(i as usize) {
        "* "@
    } else {
        "  "@
    }) + name
}

/// The song list as shown: one row per song, the list's title with the song
/// count, and the highlighted row (the cursor, or none for an empty list).
pub fn song_list_view(songs: &Vec<Song>, playing: Option<usize>, selected: usize) -> (r: (
    Vec<String>,
    String,
    Option<usize>,
))
    ensures
        r.0@.len() == songs@.len(),
        forall|i: int|
            0 <= i < songs@.len() ==> (#[trigger] r.0@[i])@ == spec_song_row(
                songs@[i].name@,
                playing,
                i,
            ),
        r.1@ == " Songs ["@ + decimal(songs@.len()) + "] "@,
        r.2 == (if songs@.len() > 0 {
            Some(selected)
        } else {
            None
        }),
{
    let mut rows: Vec<String> = Vec::new();
    let mut i: usize = 0;
    while i < songs.len()
        invariant
            i <= songs@.len(),
            rows@.len() == i,
            forall|k: int|
                0 <= k < i ==> (#[trigger] rows@[k])@ == spec_song_row(songs@[k].name@, playing, k),
        decreases songs@.len() - i,
    {
        let is_playing = match playing {
            Some(p) => p == i,
            None => false,
        };
        let mut row = if is_playing {
            String::from_str("* ")
        } else {
            String::from_str("  ")
        };
        row.append(songs[i].name.as_str());
        rows.push(row);
        i = i + 1;
    }
    let mut title = String::from_str(" Songs [");
    push_decimal(&mut title, songs.len() as u64);
    title.append("] ");
    let highlight = if songs.len() > 0 {
        Some(selected)
    } else {
        None
    };
    (rows, title, highlight)
}

/// The hint under an idle song preview.
pub open spec fn spec_preview_hint(offline: bool) -> Seq<char> {
    if offline {
        "No micro:bit connected — browsing only."@
    } else {
        "Press Enter to stream this WAV."@
    }
}

/// The info lines of the right-hand pane: for an empty library, how to add
/// songs; while streaming, the song, its state line and its format; else a
/// preview of the song under the cursor (none if the cursor is on no song).
pub open spec fn spec_pane_lines(p: Player, dir: Seq<char>) -> Seq<Seq<char>> {
    if p.songs@.len() == 0 {
        seq!["No songs loaded."@, "Add WAV files under "@ + dir + " and press r."@]
    } else {
        match p.playback {
            Some(pb) => seq![
                "Song:  "@ + p.songs@[pb.song_index as int].name@,
                spec_state_line(pb),
                "WAV:   "@ + decimal(pb.rate as nat) + " Hz, 8-bit mono"@,
            ],
            None => if p.selected < p.songs@.len() {
                seq![
                    "Song:  "@ + p.songs@[p.selected as int].name@,
                    "Type:  WAV (PCM stream)"@,
                    spec_preview_hint(!p.online),
                ]
            } else {
                Seq::empty()
            },
        }
    }
}

/// The info lines of the right-hand pane, as `spec_pane_lines` gives them;
/// `dir` is the song directory as displayed.
pub fn pane_lines(p: &Player, dir: &str) -> (r: Vec<String>)
    requires
        p.songs@.len() > 0 ==> (p.playback matches Some(pb) ==> pb.song_index < p.songs@.len()),
    ensures
        r@.len() == spec_pane_lines(*p, dir@).len(),
        forall|i: int| 0 <= i < r@.len() ==> (#[trigger] r@[i])@ == spec_pane_lines(*p, dir@)[i],
{
    let mut out: Vec<String> = Vec::new();
    if p.songs.len() == 0 {
        out.push(String::from_str("No songs loaded."));
        let mut l = String::from_str("Add WAV files under ");
        l.append(dir);
        l.append(" and press r.");
        out.push(l);
        return out;
    }
    match &p.playback {
        Some(pb) => {
            let mut song = String::from_str("Song:  ");
            song.append(p.songs[pb.song_index].name.as_str());
            out.push(song);
            out.push(state_line(pb));
            let mut wav = String::from_str("WAV:   ");
            push_decimal(&mut wav, pb.rate as u64);
            wav.append(" Hz, 8-bit mono");
            out.push(wav);
        },
        None => {
            if p.selected < p.songs.len() {
                let mut song = String::from_str("Song:  ");
                song.append(p.songs[p.selected].name.as_str());
                out.push(song);
                out.push(String::from_str("Type:  WAV (PCM stream)"));
                out.push(
                    if p.is_offline() {
                        String::from_str("No micro:bit connected — browsing only.")
                    } else {
                        String::from_str("Press Enter to stream this WAV.")
                    },
                );
            }
        },
    }
    out
}

/// The note under a stream's progress gauge.
pub open spec fn spec_pcm_note(paused: bool) -> Seq<char> {
    if paused {
        "Paused."@
    } else {
        "Streaming raw PCM to the micro:bit speaker…"@
    }
}

/// The note under a stream's progress gauge.
pub fn pcm_note(paused: bool) -> (r: &'static str)
    ensures
        r@ == spec_pcm_note(paused),
{
    if paused {
        "Paused."
    } else {
        "Streaming raw PCM to the micro:bit speaker…"
    }
}

/// Rows of a bordered box `height` rows tall left for text (two go to the
/// border).
pub open spec fn log_visible(height: u16) -> nat {
    if height >= 2 {
        (height - 2) as nat
    } else {
        0
    }
}

/// The first log entry shown when `len` entries share a bordered box `height`
/// rows tall: the newest ones that fit.
pub fn log_window_start(len: usize, height: u16) -> (r: usize)
    ensures
        r == (if len > log_visible(height) {
            len - log_visible(height)
        } else {
            0
        }),
{
    let visible: usize = if height >= 2 {
        (height - 2) as usize
    } else {
        0
    };
    if len > visible {
        len - visible
    } else {
        0
    }
}

/// While a stream plays, the pane names the song that plays (not the one
/// under the cursor), then shows its state line and its format.
pub proof fn law_pane_names_playing_song(p: Player, dir: Seq<char>)
    requires
        p.songs@.len() > 0,
        p.playback matches Some(pb) && pb.song_index < p.songs@.len(),
    ensures
        spec_pane_lines(p, dir).len() == 3,
        spec_pane_lines(p, dir)[0] == "Song:  "@ + p.songs@[p.playback->0.song_index as int].name@,
        spec_pane_lines(p, dir)[1] == spec_state_line(p.playback->0),
        spec_pane_lines(p, dir)[2] == "WAV:   "@ + decimal(p.playback->0.rate as nat)
            + " Hz, 8-bit mono"@,
{
}

} // verus!
