//! The player: the decisions of the music streamer. It owns the song library,
//! the list cursor, the connection state, the current stream and the
//! on-screen log, and decides what goes on the wire.
//!
//! Streaming is paced by the micro:bit: PCM chunks go out up to a small
//! window, and more go out whenever the device returns a `Credit`.
//!
//! The player does no I/O itself. It queues command lines in `outbox`, hands
//! out PCM chunks one at a time through `pump_next`, and asks for a song to be
//! decoded by returning its index; the host performs each of these and reports
//! the outcome back (`record_send`, `chunk_result`, `start_decoded`).

use std::collections::VecDeque;
use vstd::prelude::*;
use crate::audio::Song;
use crate::audio::playback::{
    back_target, forward_target, Playback, Seek, PCM_CHUNK, PCM_WINDOW, SEEK_SECS,
};
use crate::audio::stream::SongStream;
use crate::serial::ConnectionState;
use crate::serial::protocol::{Command, Response};
use crate::serial::wire::{WireItem, well_framed};
use crate::text::{decimal, push_decimal};
use vstd::arithmetic::div_mod::{
    lemma_add_mod_noop, lemma_mod_add_multiples_vanish, lemma_mod_self_0, lemma_small_mod,
};

verus! {

/// Lines kept in the on-screen log.
pub const LOG_CAP: usize = 200;

/// How a write to the port went.
pub enum SendOutcome {
    /// Written.
    Sent,
    /// The write failed, with this message.
    Failed(String),
    /// There is no port to write to.
    NoPort,
}

/// The texts of the log entries, oldest first.
pub open spec fn texts(log: Seq<String>) -> Seq<Seq<char>> {
    log.map_values(|s: String| s@)
}

/// `log` with `line` appended, keeping only the newest `LOG_CAP` entries.
pub open spec fn pushed(log: Seq<Seq<char>>, line: Seq<char>) -> Seq<Seq<char>> {
    let l = log.push(line);
    if l.len() > LOG_CAP {
        l.subrange(l.len() - LOG_CAP, l.len() as int)
    } else {
        l
    }
}

/// A command's line as the log shows it: without its newline.
pub open spec fn command_text(cmd: Command) -> Seq<char> {
    let t = cmd.spec_encode();
    t.subrange(0, t.len() - 1)
}

/// The log entry for a write of `cmd` that ended with `outcome`.
pub open spec fn send_entry(cmd: Command, outcome: SendOutcome) -> Seq<char> {
    match outcome {
        SendOutcome::Sent => "> "@ + command_text(cmd),
        SendOutcome::Failed(e) => "! send failed: "@ + e@,
        SendOutcome::NoPort => "! no port; dropped "@ + command_text(cmd),
    }
}

/// The log entry for a received response, if it is logged (credits and
/// stray `Done`s are not).
pub open spec fn response_entry(resp: Response) -> Seq<char> {
    match resp {
        Response::Ready => "< R (ready)"@,
        Response::Done => "< D (done)"@,
        Response::Credit => Seq::empty(),
        Response::Pause => "< P (device pause)"@,
        Response::Forward => "< F (device forward)"@,
        Response::Back => "< B (device back)"@,
        Response::Next => "< N (device next)"@,
        Response::Error(msg) => "< E "@ + msg@,
        Response::Unknown(line) => "< "@ + line@,
    }
}

/// The status shown while song `name` streams at `rate` Hz.
pub open spec fn playing_status(name: Seq<char>, rate: u32) -> Seq<char> {
    "Playing "@ + name + " ("@ + decimal(rate as nat) + " Hz)"@
}

/// The end of the next chunk of a stream at `pos` in `total` bytes.
pub open spec fn chunk_end(pos: nat, total: nat) -> nat {
    if pos + PCM_CHUNK < total {
        (pos + PCM_CHUNK) as nat
    } else {
        total
    }
}

/// The chunks a stream of `samples` sends from byte `pos` to its end, when
/// nothing interrupts it.
pub open spec fn chunks_from(samples: Seq<u8>, pos: nat) -> Seq<Seq<u8>>
    decreases samples.len() - pos,
{
    if pos >= samples.len() {
        Seq::empty()
    } else {
        let e = chunk_end(pos, samples.len());
        seq![samples.subrange(pos as int, e as int)] + chunks_from(samples, e)
    }
}

/// A stream that runs uninterrupted from byte `pos` delivers exactly the
/// samples from `pos` on, in order, in non-empty chunks of at most
/// `PCM_CHUNK` bytes: nothing is lost, repeated or reordered.
pub proof fn lemma_stream_lossless(samples: Seq<u8>, pos: nat)
    requires
        pos <= samples.len(),
    ensures
        chunks_from(samples, pos).flatten() == samples.subrange(pos as int, samples.len() as int),
        forall|i: int|
            0 <= i < chunks_from(samples, pos).len() ==> 0 < (#[trigger] chunks_from(
                samples,
                pos,
            )[i]).len() <= PCM_CHUNK,
    decreases samples.len() - pos,
{
    if pos < samples.len() {
        let e = chunk_end(pos, samples.len());
        lemma_stream_lossless(samples, e);
        let c = chunks_from(samples, pos);
        let rest = chunks_from(samples, e);
        assert(c.first() == samples.subrange(pos as int, e as int));
        assert(c.drop_first() == rest);
        assert(samples.subrange(pos as int, e as int) + samples.subrange(
            e as int,
            samples.len() as int,
        ) == samples.subrange(pos as int, samples.len() as int));
        assert forall|i: int| 0 <= i < c.len() implies 0 < (#[trigger] c[i]).len() <= PCM_CHUNK by {
            if i > 0 {
                assert(c[i] == rest[i - 1]);
            }
        }
    } else {
        assert(samples.subrange(pos as int, samples.len() as int) == Seq::<u8>::empty());
    }
}

/// The cursor after `sel` in a list of `len` songs, wrapping at the end.
pub open spec fn next_index(sel: usize, len: nat) -> int {
    if len == 0 {
        sel as int
    } else {
        (sel + 1) % (len as int)
    }
}

/// The cursor before `sel` in a list of `len` songs, wrapping at the start.
pub open spec fn prev_index(sel: usize, len: nat) -> int {
    if len == 0 {
        sel as int
    } else {
        (sel + len - 1) % (len as int)
    }
}

/// Moving the cursor down and then up (or up and then down) puts it back
/// where it was.
pub proof fn lemma_cursor_moves_undo(sel: usize, len: nat)
    requires
        sel < len <= usize::MAX,
    ensures
        prev_index(next_index(sel, len) as usize, len) == sel,
        next_index(prev_index(sel, len) as usize, len) == sel,
{
    lemma_mod_self_0(len as int);
    lemma_small_mod(sel as nat, len);
    lemma_small_mod((len - 1) as nat, len);
    // Down, then up.
    if sel + 1 < len {
        lemma_small_mod((sel + 1) as nat, len);
        assert(next_index(sel, len) == sel + 1);
        lemma_mod_add_multiples_vanish(sel as int, len as int);
        assert(prev_index((sel + 1) as usize, len) == sel);
    } else {
        assert(next_index(sel, len) == 0);
        assert(prev_index(0, len) == len - 1);
    }
    // Up, then down.
    if sel == 0 {
        assert(prev_index(sel, len) == len - 1);
        assert(next_index((len - 1) as usize, len) == 0);
    } else {
        lemma_mod_add_multiples_vanish(sel - 1, len as int);
        lemma_small_mod((sel - 1) as nat, len);
        assert(prev_index(sel, len) == sel - 1);
        assert(next_index((sel - 1) as usize, len) == sel);
    }
}

/// The song index after `idx`, wrapping at the end of a library of `len`.
pub open spec fn wrap_next(idx: usize, len: nat) -> nat {
    ((idx + 1) % (len as int)) as nat
}

/// The decision-making core of the music player.
pub struct Player {
    pub songs: Vec<Song>,
    pub selected: usize,
    /// Whether a serial connection exists; without one the player is a
    /// read-only song browser.
    pub online: bool,
    pub conn_state: ConnectionState,
    pub playback: Option<Playback>,
    pub log: VecDeque<String>,
    pub status_msg: String,
    /// Command lines decided on and not yet handed to the port, in order.
    pub outbox: Vec<Command>,
    /// A pump is under way: chunks go out while the window has room.
    pub pumping: bool,
}

/// A copy of `v[lo..hi]`.
pub fn copy_range(v: &Vec<u8>, lo: usize, hi: usize) -> (r: Vec<u8>)
    requires
        lo <= hi <= v@.len(),
    ensures
        r@ == v@.subrange(lo as int, hi as int),
{
    let mut r = Vec::new();
    let mut i = lo;
    while i < hi
        invariant
            lo <= i <= hi <= v@.len(),
            r@ == v@.subrange(lo as int, i as int),
        decreases hi - i,
    {
        r.push(v[i]);
        assert(v@.subrange(lo as int, i + 1) == v@.subrange(lo as int, i as int).push(v@[i as int]));
        i = i + 1;
    }
    r
}

/// A new string holding `s`.
fn text(s: &str) -> (r: String)
    ensures
        r@ == s@,
{
    String::from_str(s)
}

/// `a` followed by `b`.
fn join(a: &str, b: &str) -> (r: String)
    ensures
        r@ == a@ + b@,
{
    let mut r = String::from_str(a);
    r.append(b);
    r
}


/// Every field but the log is as it was.
pub open spec fn unchanged(pre: Player, post: Player) -> bool {
    &&& post.songs == pre.songs
    &&& post.selected == pre.selected
    &&& post.online == pre.online
    &&& post.conn_state == pre.conn_state
    &&& post.playback == pre.playback
    &&& post.status_msg == pre.status_msg
    &&& post.outbox == pre.outbox
    &&& post.pumping == pre.pumping
}

/// The library, the connection and the cursor are as they were.
pub open spec fn keeps_library(pre: Player, post: Player) -> bool {
    &&& post.songs == pre.songs
    &&& post.selected == pre.selected
    &&& post.online == pre.online
    &&& post.conn_state == pre.conn_state
}

/// `pb` restarted from byte `pos` (clamped to its end), unpaused, with an
/// empty window.
pub open spec fn restarted(pb: Playback, pos: usize) -> Playback {
    Playback {
        pos: if pos <= pb.samples@.len() {
            pos
        } else {
            pb.samples@.len() as usize
        },
        in_flight: 0,
        ended: false,
        paused: false,
        ..pb
    }
}

/// Seeking the current stream to `pos`: the stream restarts there behind a
/// `Stop` and a fresh `BeginStream`, and a pump starts. Without a stream
/// nothing happens.
pub open spec fn seek_post(pre: Player, post: Player, pos: usize) -> bool {
    match pre.playback {
        None => unchanged(pre, post),
        Some(pb) => {
            &&& keeps_library(pre, post)
            &&& post.status_msg == pre.status_msg
            &&& post.playback == Some(restarted(pb, pos))
            &&& post.outbox@ == pre.outbox@ + seq![
                Command::Stop,
                Command::BeginStream { rate: pb.rate },
            ]
            &&& post.pumping
        },
    }
}

/// Stopping: a current stream is dropped, `Stop` is queued and the status
/// says `status`. Without a stream nothing happens.
pub open spec fn stop_post(pre: Player, post: Player, status: Seq<char>) -> bool {
    match pre.playback {
        None => unchanged(pre, post),
        Some(_) => {
            &&& keeps_library(pre, post)
            &&& post.playback is None
            &&& post.status_msg@ == status
            &&& post.outbox@ == pre.outbox@.push(Command::Stop)
            &&& post.pumping == pre.pumping
        },
    }
}

/// Only the cursor moved, to `sel`.
pub open spec fn selects(pre: Player, post: Player, sel: usize) -> bool {
    &&& post.songs == pre.songs
    &&& post.selected == sel
    &&& post.online == pre.online
    &&& post.conn_state == pre.conn_state
    &&& post.playback == pre.playback
    &&& post.status_msg == pre.status_msg
    &&& post.outbox == pre.outbox
    &&& post.pumping == pre.pumping
}

/// A back control that would cross to the previous song has that song in the
/// library.
pub open spec fn back_has_song(p: Player) -> bool {
    match p.playback {
        Some(pb) => pb.pos <= SEEK_SECS * pb.rate && pb.song_index > 0 ==> pb.song_index
            <= p.songs@.len(),
        None => true,
    }
}

/// The forward control: seek ahead by `SEEK_SECS`; past the end, move to the
/// next song (returned, to be decoded and started), or stop at the end of the
/// library.
pub open spec fn forward_post(pre: Player, post: Player, r: Option<usize>) -> bool {
    match pre.playback {
        None => r is None && unchanged(pre, post),
        Some(pb) => {
            let target = pb.pos + SEEK_SECS * pb.rate;
            if target < pb.samples@.len() {
                r is None && seek_post(pre, post, target as usize)
            } else if pb.song_index + 1 < pre.songs@.len() {
                r == Some((pb.song_index + 1) as usize) && selects(
                    pre,
                    post,
                    (pb.song_index + 1) as usize,
                )
            } else {
                r is None && stop_post(pre, post, "End of library"@)
            }
        },
    }
}

/// The back control: rewind by `SEEK_SECS`; at (or before) the start, move to
/// the previous song (returned, to be decoded and started), or restart the
/// first song.
pub open spec fn back_post(pre: Player, post: Player, r: Option<usize>) -> bool {
    match pre.playback {
        None => r is None && unchanged(pre, post),
        Some(pb) => {
            let step = SEEK_SECS * pb.rate;
            if pb.pos > step {
                r is None && seek_post(pre, post, (pb.pos - step) as usize)
            } else if pb.song_index > 0 {
                r == Some((pb.song_index - 1) as usize) && selects(
                    pre,
                    post,
                    (pb.song_index - 1) as usize,
                )
            } else {
                r is None && seek_post(pre, post, 0)
            }
        },
    }
}

/// The next control: move to the next song, wrapping at the end of the
/// library (returned, to be decoded and started).
pub open spec fn next_post(pre: Player, post: Player, r: Option<usize>) -> bool {
    match pre.playback {
        None => r is None && unchanged(pre, post),
        Some(pb) => if pre.songs@.len() == 0 {
            r is None && unchanged(pre, post)
        } else {
            let n = wrap_next(pb.song_index, pre.songs@.len()) as usize;
            r == Some(n) && selects(pre, post, n)
        },
    }
}

/// The pause control: a running stream is held (`Stop` queued); a held one
/// resumes from its position.
pub open spec fn pause_post(pre: Player, post: Player) -> bool {
    match pre.playback {
        None => unchanged(pre, post),
        Some(pb) => if pb.paused {
            &&& keeps_library(pre, post)
            &&& post.status_msg@ == "Resumed"@
            &&& post.playback == Some(restarted(pb, pb.pos))
            &&& post.outbox@ == pre.outbox@ + seq![
                Command::Stop,
                Command::BeginStream { rate: pb.rate },
            ]
            &&& post.pumping
        } else {
            &&& keeps_library(pre, post)
            &&& post.playback == Some(Playback { paused: true, ..pb })
            &&& post.status_msg@ == "Paused"@
            &&& post.outbox@ == pre.outbox@.push(Command::Stop)
            &&& post.pumping == pre.pumping
        },
    }
}


/// Clearing a stream that played out, reporting the song's name (empty if
/// the library no longer has that song).
pub open spec fn finish_post(pre: Player, post: Player) -> bool {
    match pre.playback {
        None => unchanged(pre, post),
        Some(pb) => {
            let name = if pb.song_index < pre.songs@.len() {
                pre.songs@[pb.song_index as int].name@
            } else {
                Seq::empty()
            };
            &&& keeps_library(pre, post)
            &&& post.playback is None
            &&& post.status_msg@ == "Finished "@ + name
            &&& post.outbox == pre.outbox
            &&& post.pumping == pre.pumping
        },
    }
}

/// A credit frees one window slot (never below zero) and starts a pump.
pub open spec fn credit_post(pre: Player, post: Player) -> bool {
    &&& keeps_library(pre, post)
    &&& post.status_msg == pre.status_msg
    &&& post.outbox == pre.outbox
    &&& post.pumping
    &&& post.playback == match pre.playback {
        Some(pb) => Some(
            Playback {
                in_flight: if pb.in_flight > 0 {
                    (pb.in_flight - 1) as usize
                } else {
                    0
                },
                ..pb
            },
        ),
        None => None,
    }
}

/// Whether a response leaves a line in the log: credits never do, and a
/// `Done` only when it finishes a stream whose end marker went out.
pub open spec fn logs_response(pre: Player, resp: Response) -> bool {
    match resp {
        Response::Credit => false,
        Response::Done => pre.playback matches Some(pb) && pb.ended,
        _ => true,
    }
}

/// What applying a device response does, apart from its log line.
pub open spec fn response_post(pre: Player, post: Player, resp: Response, r: Option<usize>) -> bool {
    match resp {
        Response::Ready => {
            &&& r is None
            &&& post.conn_state == ConnectionState::Ready
            &&& post.songs == pre.songs
            &&& post.selected == pre.selected
            &&& post.online == pre.online
            &&& post.playback == pre.playback
            &&& post.status_msg == pre.status_msg
            &&& post.outbox == pre.outbox
            &&& post.pumping == pre.pumping
        },
        Response::Done => r is None && if pre.playback matches Some(pb) && pb.ended {
            finish_post(pre, post)
        } else {
            unchanged(pre, post)
        },
        Response::Credit => r is None && credit_post(pre, post),
        Response::Pause => r is None && pause_post(pre, post),
        Response::Forward => forward_post(pre, post, r),
        Response::Back => back_post(pre, post, r),
        Response::Next => next_post(pre, post, r),
        Response::Error(_) => r is None && unchanged(pre, post),
        Response::Unknown(_) => r is None && unchanged(pre, post),
    }
}

/// What the next step of a pump is: nothing (and the pump ends) when there
/// is no pump, no stream, a held or finished stream, or a full window; the
/// end marker once every byte went out; else the next chunk of samples.
pub open spec fn pump_post(pre: Player, post: Player, r: Option<Vec<u8>>) -> bool {
    if !pre.pumping {
        r is None && unchanged(pre, post)
    } else {
        match pre.playback {
            None => r is None && unchanged(pre, Player { pumping: true, ..post }) && !post.pumping,
            Some(pb) => if pb.paused || pb.ended || pb.in_flight >= PCM_WINDOW {
                r is None && unchanged(pre, Player { pumping: true, ..post }) && !post.pumping
            } else if pb.pos >= pb.samples@.len() {
                &&& r is None
                &&& keeps_library(pre, post)
                &&& post.status_msg == pre.status_msg
                &&& post.playback == Some(Playback { ended: true, ..pb })
                &&& post.outbox@ == pre.outbox@.push(Command::EndStream)
                &&& !post.pumping
            } else {
                &&& r matches Some(c) && c@ == pb.samples@.subrange(
                    pb.pos as int,
                    chunk_end(pb.pos as nat, pb.samples@.len()) as int,
                )
                &&& unchanged(pre, post)
            },
        }
    }
}


/// A chunk handed out by the pump was written: the play position moves past
/// it and it takes a window slot.
pub open spec fn chunk_sent_post(pre: Player, post: Player) -> bool {
    match pre.playback {
        Some(pb) => {
            &&& keeps_library(pre, post)
            &&& post.status_msg == pre.status_msg
            &&& post.outbox == pre.outbox
            &&& post.pumping
            &&& post.playback == Some(
                Playback {
                    pos: chunk_end(pb.pos as nat, pb.samples@.len()) as usize,
                    in_flight: (pb.in_flight + 1) as usize,
                    ..pb
                },
            )
        },
        None => false,
    }
}

/// The queued lines were handed to the host; nothing else changed.
pub open spec fn drain_post(pre: Player, post: Player) -> bool {
    &&& post.outbox@.len() == 0
    &&& post.songs == pre.songs
    &&& post.selected == pre.selected
    &&& post.online == pre.online
    &&& post.conn_state == pre.conn_state
    &&& post.playback == pre.playback
    &&& post.status_msg == pre.status_msg
    &&& post.pumping == pre.pumping
}

impl Player {
    /// The player's invariant: the log within its cap, the cursor on a song
    /// whenever there are songs, no bare chunk header among the queued lines,
    /// and the stream (if any) well formed.
    pub open spec fn wf(&self) -> bool {
        &&& self.log@.len() <= LOG_CAP
        &&& self.songs@.len() > 0 ==> self.selected < self.songs@.len()
        &&& forall|i: int| 0 <= i < self.outbox@.len() ==> !(#[trigger] self.outbox@[i] is Chunk)
        &&& self.playback matches Some(pb) ==> pb.wf()
    }

    /// The texts of the log.
    pub open spec fn log_texts(&self) -> Seq<Seq<char>> {
        texts(self.log@)
    }

    /// A chunk was handed out by `pump_next` and awaits its `chunk_result`.
    pub open spec fn chunk_pending(&self) -> bool {
        &&& self.pumping
        &&& self.playback matches Some(pb) && !pb.paused && !pb.ended && pb.in_flight
            < PCM_WINDOW && pb.pos < pb.samples@.len()
    }

    /// A fresh player with no songs. `online` says whether a serial connection
    /// was opened: if so the link starts out `Connecting`, else `NoPort`.
    pub fn new(online: bool) -> (p: Player)
        ensures
            p.wf(),
            p.songs@.len() == 0,
            p.selected == 0,
            p.online == online,
            p.conn_state == (if online {
                ConnectionState::Connecting
            } else {
                ConnectionState::NoPort
            }),
            p.playback is None,
            p.log@.len() == 0,
            p.status_msg@.len() == 0,
            p.outbox@.len() == 0,
            !p.pumping,
    {
        Player {
            songs: Vec::new(),
            selected: 0,
            online,
            conn_state: if online {
                ConnectionState::Connecting
            } else {
                ConnectionState::NoPort
            },
            playback: None,
            log: VecDeque::new(),
            status_msg: String::new(),
            outbox: Vec::new(),
            pumping: false,
        }
    }

    /// Greet the device: with a connection, queue the `Handshake` that asks
    /// it to announce itself; offline, nothing.
    pub fn greet(&mut self)
        requires
            old(self).wf(),
        ensures
            final(self).wf(),
            final(self).outbox@ == if old(self).online {
                old(self).outbox@.push(Command::Handshake)
            } else {
                old(self).outbox@
            },
            unchanged(*old(self), Player { outbox: old(self).outbox, ..*final(self) }),
            final(self).log == old(self).log,
    {
        if self.online {
            self.send(Command::Handshake);
        }
    }

    /// The player at start-up: the library read from `dir` (or the error
    /// reading it gave) loaded and reported, the cursor on the first song, and
    /// with a connection the `Handshake` queued as the only line to write.
    pub fn open(online: bool, listing: Result<Vec<Song>, String>, dir: &str) -> (p: Player)
        ensures
            p.wf(),
            p.online == online,
            p.conn_state == (if online {
                ConnectionState::Connecting
            } else {
                ConnectionState::NoPort
            }),
            match listing {
                Ok(songs) => {
                    &&& p.songs == songs
                    &&& p.status_msg@ == "Loaded "@ + decimal(songs@.len()) + " song(s) from "@ + dir@
                },
                Err(e) => {
                    &&& p.songs@.len() == 0
                    &&& p.status_msg@ == "Failed to read "@ + dir@ + ": "@ + e@
                },
            },
            p.selected == 0,
            p.playback is None,
            p.log_texts() == seq![p.status_msg@],
            p.outbox@ == (if online {
                seq![Command::Handshake]
            } else {
                Seq::empty()
            }),
            !p.pumping,
    {
        let mut p = Player::new(online);
        p.load_songs(listing, dir);
        p.greet();
        proof {
            assert(pushed(Seq::empty(), p.status_msg@) == seq![p.status_msg@]);
            assert(Seq::<Command>::empty().push(Command::Handshake) == seq![Command::Handshake]);
        }
        p
    }

    /// Append a line to the log, dropping the oldest beyond `LOG_CAP`.
    pub fn log_line(&mut self, line: String)
        requires
            old(self).wf(),
        ensures
            final(self).wf(),
            final(self).log_texts() == pushed(old(self).log_texts(), line@),
            final(self).songs == old(self).songs,
            final(self).selected == old(self).selected,
            final(self).online == old(self).online,
            final(self).conn_state == old(self).conn_state,
            final(self).playback == old(self).playback,
            final(self).status_msg == old(self).status_msg,
            final(self).outbox == old(self).outbox,
            final(self).pumping == old(self).pumping,
    {
        let ghost before = self.log@;
        self.log.push_back(line);
        if self.log.len() > LOG_CAP {
            self.log.pop_front();
        }
        proof {
            let l = texts(before).push(line@);
            assert(texts(before.push(line)) == l);
            if l.len() > LOG_CAP {
                assert(texts(self.log@) == l.subrange(l.len() - LOG_CAP, l.len() as int));
            }
        }
    }

    /// Queue a command line for the port.
    pub fn send(&mut self, cmd: Command)
        requires
            old(self).wf(),
            !(cmd is Chunk),
        ensures
            final(self).wf(),
            final(self).outbox@ == old(self).outbox@.push(cmd),
            final(self).songs == old(self).songs,
            final(self).selected == old(self).selected,
            final(self).online == old(self).online,
            final(self).conn_state == old(self).conn_state,
            final(self).playback == old(self).playback,
            final(self).log == old(self).log,
            final(self).status_msg == old(self).status_msg,
            final(self).pumping == old(self).pumping,
    {
        self.outbox.push(cmd);
    }

    /// Hand the queued command lines to the host, oldest first, and clear the
    /// queue.
    pub fn take_outbox(&mut self) -> (r: Vec<Command>)
        requires
            old(self).wf(),
        ensures
            final(self).wf(),
            r@ == old(self).outbox@,
            drain_post(*old(self), *final(self)),
            final(self).log == old(self).log,
    {
        let mut r = Vec::new();
        std::mem::swap(&mut r, &mut self.outbox);
        r
    }

    /// Log how the write of a queued command went.
    pub fn record_send(&mut self, cmd: &Command, outcome: SendOutcome)
        requires
            old(self).wf(),
        ensures
            final(self).wf(),
            final(self).log_texts() == pushed(old(self).log_texts(), send_entry(*cmd, outcome)),
            final(self).songs == old(self).songs,
            final(self).selected == old(self).selected,
            final(self).online == old(self).online,
            final(self).conn_state == old(self).conn_state,
            final(self).playback == old(self).playback,
            final(self).status_msg == old(self).status_msg,
            final(self).outbox == old(self).outbox,
            final(self).pumping == old(self).pumping,
    {
        let ghost g = outcome;
        let entry = match outcome {
            SendOutcome::Sent => {
                let mut e = text("> ");
                let full = cmd.encode();
                e.append(Self::drop_newline(&full).as_str());
                e
            },
            SendOutcome::Failed(err) => join("! send failed: ", err.as_str()),
            SendOutcome::NoPort => {
                let mut e = text("! no port; dropped ");
                let full = cmd.encode();
                e.append(Self::drop_newline(&full).as_str());
                e
            },
        };
        assert(entry@ == send_entry(*cmd, g));
        self.log_line(entry);
    }

    /// `s` without its last character.
    fn drop_newline(s: &String) -> (r: String)
        requires
            s@.len() >= 1,
        ensures
            r@ == s@.subrange(0, s@.len() - 1),
    {
        let v = crate::text::chars_of(s.as_str());
        crate::text::string_of_range(&v, 0, v.len() - 1)
    }

    /// Take a fresh song listing: the library read from `dir`, or the error
    /// that reading it gave. Reports the outcome in the status line and the
    /// log, and keeps the cursor on a song.
    pub fn load_songs(&mut self, listing: Result<Vec<Song>, String>, dir: &str)
        requires
            old(self).wf(),
        ensures
            final(self).wf(),
            match listing {
                Ok(songs) => {
                    &&& final(self).songs == songs
                    &&& final(self).status_msg@ == "Loaded "@ + decimal(songs@.len()) + " song(s) from "@
                        + dir@
                },
                Err(e) => {
                    &&& final(self).songs@.len() == 0
                    &&& final(self).status_msg@ == "Failed to read "@ + dir@ + ": "@ + e@
                },
            },
            final(self).selected == (if old(self).selected >= final(self).songs@.len() {
                if final(self).songs@.len() == 0 {
                    0
                } else {
                    (final(self).songs@.len() - 1) as usize
                }
            } else {
                old(self).selected
            }),
            final(self).log_texts() == pushed(old(self).log_texts(), final(self).status_msg@),
            final(self).online == old(self).online,
            final(self).conn_state == old(self).conn_state,
            final(self).playback == old(self).playback,
            final(self).outbox == old(self).outbox,
            final(self).pumping == old(self).pumping,
    {
        match listing {
            Ok(songs) => {
                let mut msg = text("Loaded ");
                push_decimal(&mut msg, songs.len() as u64);
                msg.append(" song(s) from ");
                msg.append(dir);
                self.status_msg = msg;
                self.songs = songs;
            },
            Err(e) => {
                self.songs.clear();
                let mut msg = text("Failed to read ");
                msg.append(dir);
                msg.append(": ");
                msg.append(e.as_str());
                self.status_msg = msg;
            },
        }
        if self.selected >= self.songs.len() {
            self.selected = if self.songs.len() == 0 {
                0
            } else {
                self.songs.len() - 1
            };
        }
        let msg = self.status_msg.clone();
        self.log_line(msg);
    }

    /// Move the cursor to the next song, wrapping at the end.
    pub fn select_next(&mut self)
        requires
            old(self).wf(),
        ensures
            final(self).wf(),
            final(self).selected == next_index(old(self).selected, old(self).songs@.len()),
            final(self).songs == old(self).songs,
            final(self).online == old(self).online,
            final(self).conn_state == old(self).conn_state,
            final(self).playback == old(self).playback,
            final(self).log == old(self).log,
            final(self).status_msg == old(self).status_msg,
            final(self).outbox == old(self).outbox,
            final(self).pumping == old(self).pumping,
    {
        proof {
            let n = self.songs@.len();
            if n > 0 {
                lemma_mod_self_0(n as int);
                if self.selected + 1 < n {
                    lemma_small_mod((self.selected + 1) as nat, n);
                }
            }
        }
        if self.songs.len() > 0 {
            self.selected = if self.selected + 1 == self.songs.len() {
                0
            } else {
                self.selected + 1
            };
        }
    }

    /// Move the cursor to the previous song, wrapping at the start.
    pub fn select_prev(&mut self)
        requires
            old(self).wf(),
        ensures
            final(self).wf(),
            final(self).selected == prev_index(old(self).selected, old(self).songs@.len()),
            final(self).songs == old(self).songs,
            final(self).online == old(self).online,
            final(self).conn_state == old(self).conn_state,
            final(self).playback == old(self).playback,
            final(self).log == old(self).log,
            final(self).status_msg == old(self).status_msg,
            final(self).outbox == old(self).outbox,
            final(self).pumping == old(self).pumping,
    {
        proof {
            let n = self.songs@.len();
            if n > 0 {
                if self.selected == 0 {
                    lemma_small_mod((n - 1) as nat, n);
                } else {
                    lemma_mod_add_multiples_vanish(self.selected - 1, n as int);
                    lemma_small_mod((self.selected - 1) as nat, n);
                }
            }
        }
        if self.songs.len() > 0 {
            self.selected = if self.selected == 0 {
                self.songs.len() - 1
            } else {
                self.selected - 1
            };
        }
    }

    /// No serial connection: the player runs as a read-only song browser.
    pub fn is_offline(&self) -> (r: bool)
        ensures
            r == !self.online,
    {
        !self.online
    }

    /// The song under the cursor, if any.
    pub fn selected_song(&self) -> (r: Option<&Song>)
        ensures
            r == (if self.selected < self.songs@.len() {
                Some(&self.songs@[self.selected as int])
            } else {
                None
            }),
    {
        if self.selected < self.songs.len() {
            Some(&self.songs[self.selected])
        } else {
            None
        }
    }

    /// Restart the current stream from byte `pos` (seek / resume), reusing the
    /// decoded samples: the device is told to stop and to begin a new stream,
    /// then chunks flow again from `pos`.
    fn seek_to(&mut self, pos: usize)
        requires
            old(self).wf(),
        ensures
            final(self).wf(),
            seek_post(*old(self), *final(self), pos),
            final(self).log == old(self).log,
    {
        match self.playback.take() {
            Some(mut pb) => {
                pb.pos = if pos <= pb.samples.len() {
                    pos
                } else {
                    pb.samples.len()
                };
                pb.in_flight = 0;
                pb.ended = false;
                pb.paused = false;
                let rate = pb.rate;
                self.playback = Some(pb);
                self.send(Command::Stop);
                self.send(Command::BeginStream { rate });
                self.pumping = true;
                assert(self.outbox@ == old(self).outbox@ + seq![
                    Command::Stop,
                    Command::BeginStream { rate },
                ]);
            },
            None => {},
        }
    }

    /// Begin streaming the selected song from its start. Returns the song to
    /// decode and start (see `start_decoded`); without songs, or offline,
    /// only the status line changes.
    pub fn play_selected(&mut self) -> (r: Option<usize>)
        requires
            old(self).wf(),
        ensures
            final(self).wf(),
            final(self).log == old(self).log,
            if old(self).songs@.len() == 0 {
                &&& r is None
                &&& final(self).status_msg@ == "No songs to play"@
                &&& unchanged(*old(self), Player { status_msg: old(self).status_msg, ..*final(self) })
            } else if !old(self).online {
                &&& r is None
                &&& final(self).status_msg@ == "Offline — connect a micro:bit to play"@
                &&& unchanged(*old(self), Player { status_msg: old(self).status_msg, ..*final(self) })
            } else {
                &&& r == Some(old(self).selected)
                &&& unchanged(*old(self), *final(self))
            },
    {
        if self.songs.len() == 0 {
            self.status_msg = text("No songs to play");
            return None;
        }
        if self.is_offline() {
            self.status_msg = text("Offline — connect a micro:bit to play");
            return None;
        }
        Some(self.selected)
    }

    /// Start song `idx` from its first sample, given what decoding it gave: on
    /// success `BeginStream` is queued and a pump starts; a decode error or an
    /// empty song leaves nothing playing.
    pub fn start_decoded(&mut self, idx: usize, decoded: Result<SongStream, String>)
        requires
            old(self).wf(),
            idx < old(self).songs@.len(),
            decoded matches Ok(d) ==> (d.samples@.len() > 0 ==> d.samples@.len() + SEEK_SECS * d.rate
                <= usize::MAX),
        ensures
            final(self).wf(),
            keeps_library(*old(self), *final(self)),
            match decoded {
                Err(e) => {
                    &&& final(self).playback is None
                    &&& final(self).status_msg@ == "WAV decode failed: "@ + e@
                    &&& final(self).log_texts() == pushed(old(self).log_texts(), "! wav: "@ + e@)
                    &&& final(self).outbox == old(self).outbox
                    &&& final(self).pumping == old(self).pumping
                },
                Ok(d) => if d.samples@.len() == 0 {
                    &&& final(self).playback is None
                    &&& final(self).status_msg@ == "WAV has no samples"@
                    &&& final(self).log == old(self).log
                    &&& final(self).outbox == old(self).outbox
                    &&& final(self).pumping == old(self).pumping
                } else {
                    &&& final(self).playback == Some(
                        Playback {
                            song_index: idx,
                            samples: d.samples,
                            pos: 0,
                            in_flight: 0,
                            ended: false,
                            paused: false,
                            rate: d.rate,
                        },
                    )
                    &&& final(self).status_msg@ == playing_status(
                        old(self).songs@[idx as int].name@,
                        d.rate,
                    )
                    &&& final(self).log == old(self).log
                    &&& final(self).outbox@ == old(self).outbox@.push(
                        Command::BeginStream { rate: d.rate },
                    )
                    &&& final(self).pumping
                },
            },
    {
        match decoded {
            Err(e) => {
                self.playback = None;
                self.status_msg = join("WAV decode failed: ", e.as_str());
                self.log_line(join("! wav: ", e.as_str()));
            },
            Ok(d) => {
                if d.samples.len() == 0 {
                    self.playback = None;
                    self.status_msg = text("WAV has no samples");
                    return ;
                }
                let mut msg = text("Playing ");
                msg.append(self.songs[idx].name.as_str());
                msg.append(" (");
                push_decimal(&mut msg, d.rate as u64);
                msg.append(" Hz)");
                self.status_msg = msg;
                self.send(Command::BeginStream { rate: d.rate });
                self.playback = Some(
                    Playback {
                        song_index: idx,
                        samples: d.samples,
                        pos: 0,
                        in_flight: 0,
                        ended: false,
                        paused: false,
                        rate: d.rate,
                    },
                );
                self.pumping = true;
            },
        }
    }

    /// Stop any current stream.
    pub fn stop(&mut self)
        requires
            old(self).wf(),
        ensures
            final(self).wf(),
            stop_post(*old(self), *final(self), "Stopped"@),
            final(self).log == old(self).log,
    {
        if self.playback.take().is_some() {
            self.status_msg = text("Stopped");
            self.send(Command::Stop);
        }
    }

    /// Forward control: seek ahead, or move to the next song at the end.
    /// Returns the song to decode and start, if any.
    pub fn forward(&mut self) -> (r: Option<usize>)
        requires
            old(self).wf(),
        ensures
            final(self).wf(),
            forward_post(*old(self), *final(self), r),
            final(self).log == old(self).log,
    {
        let (pos, total, rate, idx) = match &self.playback {
            Some(pb) => (pb.pos, pb.samples.len(), pb.rate, pb.song_index),
            None => return None,
        };
        match forward_target(pos, total, SEEK_SECS * rate as usize) {
            Seek::To(target) => {
                self.seek_to(target);
                None
            },
            Seek::Boundary => {
                if self.songs.len() > 0 && idx < self.songs.len() - 1 {
                    self.selected = idx + 1;
                    Some(idx + 1)
                } else {
                    self.stop();
                    self.status_msg = text("End of library");
                    None
                }
            },
        }
    }

    /// Back control: rewind, or move to the previous song near the start.
    /// Returns the song to decode and start, if any.
    pub fn back(&mut self) -> (r: Option<usize>)
        requires
            old(self).wf(),
            back_has_song(*old(self)),
        ensures
            final(self).wf(),
            back_post(*old(self), *final(self), r),
            final(self).log == old(self).log,
    {
        let (pos, rate, idx) = match &self.playback {
            Some(pb) => (pb.pos, pb.rate, pb.song_index),
            None => return None,
        };
        match back_target(pos, SEEK_SECS * rate as usize) {
            Seek::To(target) => {
                self.seek_to(target);
                None
            },
            Seek::Boundary => {
                if idx > 0 {
                    self.selected = idx - 1;
                    Some(idx - 1)
                } else {
                    self.seek_to(0);
                    None
                }
            },
        }
    }

    /// Next control: move to the next song in the queue, wrapping at the end.
    /// Returns the song to decode and start, if any.
    pub fn next_song(&mut self) -> (r: Option<usize>)
        requires
            old(self).wf(),
        ensures
            final(self).wf(),
            next_post(*old(self), *final(self), r),
            final(self).log == old(self).log,
    {
        let idx = match &self.playback {
            Some(pb) => pb.song_index,
            None => return None,
        };
        if self.songs.len() == 0 {
            return None;
        }
        let n = self.songs.len();
        let m = idx % n;
        let next = if m + 1 == n {
            0
        } else {
            m + 1
        };
        proof {
            lemma_add_mod_noop(idx as int, 1, n as int);
            lemma_mod_self_0(n as int);
            if n > 1 {
                lemma_small_mod(1, n as nat);
            }
            if m + 1 < n {
                lemma_small_mod((m + 1) as nat, n as nat);
            }
        }
        self.selected = next;
        Some(next)
    }

    /// Pause control: hold streaming, or resume from the current position.
    pub fn pause_toggle(&mut self)
        requires
            old(self).wf(),
        ensures
            final(self).wf(),
            pause_post(*old(self), *final(self)),
            final(self).log == old(self).log,
    {
        let (paused, pos) = match &self.playback {
            Some(pb) => (pb.paused, pb.pos),
            None => return ,
        };
        if paused {
            self.status_msg = text("Resumed");
            self.seek_to(pos);
        } else {
            match self.playback.take() {
                Some(mut pb) => {
                    pb.paused = true;
                    self.playback = Some(pb);
                },
                None => {},
            }
            self.status_msg = text("Paused");
            self.send(Command::Stop);
        }
    }

    /// Clear the current stream and report the finished song.
    fn finish(&mut self)
        requires
            old(self).wf(),
        ensures
            final(self).wf(),
            finish_post(*old(self), *final(self)),
            final(self).log == old(self).log,
    {
        let idx = match &self.playback {
            Some(pb) => pb.song_index,
            None => return ,
        };
        let mut msg = text("Finished ");
        if idx < self.songs.len() {
            msg.append(self.songs[idx].name.as_str());
        }
        self.playback = None;
        self.status_msg = msg;
    }

    /// Apply one response from the device. Returns the song to decode and
    /// start, if the response moved to another song.
    pub fn apply_response(&mut self, resp: Response) -> (r: Option<usize>)
        requires
            old(self).wf(),
            resp is Back ==> back_has_song(*old(self)),
        ensures
            final(self).wf(),
            response_post(*old(self), *final(self), resp, r),
            final(self).log_texts() == if logs_response(*old(self), resp) {
                pushed(old(self).log_texts(), response_entry(resp))
            } else {
                old(self).log_texts()
            },
    {
        match resp {
            Response::Ready => {
                self.conn_state = ConnectionState::Ready;
                self.log_line(text("< R (ready)"));
                None
            },
            Response::Done => {
                // A `D` only means "finished" once the end marker went out; one
                // that arrives while the stream has not ended is left over from
                // a stream that was seeked or skipped past.
                let ended = match &self.playback {
                    Some(pb) => pb.ended,
                    None => false,
                };
                if ended {
                    self.log_line(text("< D (done)"));
                    self.finish();
                }
                None
            },
            Response::Credit => {
                match self.playback.take() {
                    Some(mut pb) => {
                        pb.in_flight = if pb.in_flight > 0 {
                            pb.in_flight - 1
                        } else {
                            0
                        };
                        self.playback = Some(pb);
                    },
                    None => {},
                }
                self.pumping = true;
                None
            },
            Response::Pause => {
                self.log_line(text("< P (device pause)"));
                self.pause_toggle();
                None
            },
            Response::Forward => {
                self.log_line(text("< F (device forward)"));
                self.forward()
            },
            Response::Back => {
                self.log_line(text("< B (device back)"));
                self.back()
            },
            Response::Next => {
                self.log_line(text("< N (device next)"));
                self.next_song()
            },
            Response::Error(msg) => {
                self.log_line(join("< E ", msg.as_str()));
                None
            },
            Response::Unknown(line) => {
                self.log_line(join("< ", line.as_str()));
                None
            },
        }
    }

    /// The link closed: the device went away. The first time, the stream is
    /// dropped and the loss reported.
    pub fn on_disconnect(&mut self)
        requires
            old(self).wf(),
        ensures
            final(self).wf(),
            if old(self).conn_state == ConnectionState::Disconnected {
                &&& unchanged(*old(self), *final(self))
                &&& final(self).log == old(self).log
            } else {
                &&& final(self).conn_state == ConnectionState::Disconnected
                &&& final(self).playback is None
                &&& final(self).status_msg@ == "Device disconnected"@
                &&& final(self).log_texts() == pushed(
                    old(self).log_texts(),
                    "! device disconnected"@,
                )
                &&& final(self).songs == old(self).songs
                &&& final(self).selected == old(self).selected
                &&& final(self).online == old(self).online
                &&& final(self).outbox == old(self).outbox
                &&& final(self).pumping == old(self).pumping
            },
    {
        if self.conn_state != ConnectionState::Disconnected {
            self.conn_state = ConnectionState::Disconnected;
            self.playback = None;
            self.status_msg = text("Device disconnected");
            self.log_line(text("! device disconnected"));
        }
    }

    /// The next step of a pump: a chunk of samples to write (then report it
    /// with `chunk_result`), or `None` when the pump is over for now — after
    /// queueing the end marker once every byte went out.
    pub fn pump_next(&mut self) -> (r: Option<Vec<u8>>)
        requires
            old(self).wf(),
        ensures
            final(self).wf(),
            pump_post(*old(self), *final(self), r),
            final(self).log == old(self).log,
            r is Some ==> final(self).chunk_pending(),
            r matches Some(c) ==> 0 < c@.len() <= PCM_CHUNK,
    {
        if !self.pumping {
            return None;
        }
        let (pos, total, stalled) = match &self.playback {
            Some(pb) => (pb.pos, pb.samples.len(), pb.paused || pb.ended || pb.in_flight
                >= PCM_WINDOW),
            None => {
                self.pumping = false;
                return None;
            },
        };
        if stalled {
            self.pumping = false;
            return None;
        }
        if pos >= total {
            match self.playback.take() {
                Some(mut pb) => {
                    pb.ended = true;
                    self.playback = Some(pb);
                },
                None => {},
            }
            self.send(Command::EndStream);
            self.pumping = false;
            return None;
        }
        let end = if total - pos > PCM_CHUNK {
            pos + PCM_CHUNK
        } else {
            total
        };
        match &self.playback {
            Some(pb) => Some(copy_range(&pb.samples, pos, end)),
            None => None,
        }
    }

    /// Report how the write of the chunk that `pump_next` handed out went: a
    /// written chunk moves the play position past it and takes a window
    /// slot; a failed write ends the pump, logging the failure.
    pub fn chunk_result(&mut self, outcome: SendOutcome)
        requires
            old(self).wf(),
            old(self).chunk_pending(),
        ensures
            final(self).wf(),
            keeps_library(*old(self), *final(self)),
            final(self).status_msg == old(self).status_msg,
            final(self).outbox == old(self).outbox,
            match outcome {
                SendOutcome::Sent => {
                    &&& chunk_sent_post(*old(self), *final(self))
                    &&& final(self).log == old(self).log
                },
                SendOutcome::Failed(e) => {
                    &&& final(self).playback == old(self).playback
                    &&& !final(self).pumping
                    &&& final(self).log_texts() == pushed(
                        old(self).log_texts(),
                        "! pcm send failed: "@ + e@,
                    )
                },
                SendOutcome::NoPort => {
                    &&& final(self).playback == old(self).playback
                    &&& !final(self).pumping
                    &&& final(self).log == old(self).log
                },
            },
    {
        match outcome {
            SendOutcome::Sent => {
                match self.playback.take() {
                    Some(mut pb) => {
                        let total = pb.samples.len();
                        pb.pos = if total - pb.pos > PCM_CHUNK {
                            pb.pos + PCM_CHUNK
                        } else {
                            total
                        };
                        pb.in_flight = pb.in_flight + 1;
                        self.playback = Some(pb);
                    },
                    None => {},
                }
            },
            SendOutcome::Failed(e) => {
                self.pumping = false;
                self.log_line(join("! pcm send failed: ", e.as_str()));
            },
            SendOutcome::NoPort => {
                self.pumping = false;
            },
        }
    }
}

/// What a well-formed player writes is well framed: its queued command lines
/// followed by a chunk it hands out (of at most `PCM_CHUNK` bytes) never put a
/// bare chunk header on the wire, so the device decodes them exactly (see
/// `lemma_wire_decodes`).
pub proof fn lemma_player_output_well_framed(p: Player, chunk: Seq<u8>)
    requires
        p.wf(),
        chunk.len() <= PCM_CHUNK,
    ensures
        well_framed(
            p.outbox@.map_values(|c: Command| WireItem::Line(c)).push(WireItem::Chunk(chunk)),
        ),
{
    let items = p.outbox@.map_values(|c: Command| WireItem::Line(c)).push(WireItem::Chunk(chunk));
    assert forall|i: int| 0 <= i < items.len() implies match #[trigger] items[i] {
        WireItem::Line(cmd) => !(cmd is Chunk),
        WireItem::Chunk(data) => data.len() <= u32::MAX,
    } by {
        if i < p.outbox@.len() {
            assert(items[i] == WireItem::Line(p.outbox@[i]));
        }
    }
}

/// Pausing a running stream and then resuming it continues from the same
/// byte, with the same samples, unpaused, behind a fresh `BeginStream`.
pub proof fn lemma_pause_resume_keeps_position(a: Player, b: Player, c: Player)
    requires
        a.wf(),
        a.playback matches Some(pb) && !pb.paused,
        pause_post(a, b),
        pause_post(b, c),
    ensures
        c.playback matches Some(q) && {
            let pb = a.playback->0;
            &&& q.pos == pb.pos
            &&& q.samples == pb.samples
            &&& q.song_index == pb.song_index
            &&& !q.paused
        },
        c.outbox@ == a.outbox@ + seq![
            Command::Stop,
            Command::Stop,
            Command::BeginStream { rate: a.playback->0.rate },
        ],
{
    let pb = a.playback->0;
    assert(b.playback == Some(Playback { paused: true, ..pb }));
    assert(c.outbox@ == b.outbox@ + seq![
        Command::Stop,
        Command::BeginStream { rate: pb.rate },
    ]);
}

/// One step of a stream between the host and the player: a pump step, a
/// credit, a written chunk, or handing the queued lines to the host.
pub open spec fn stream_step(pre: Player, post: Player) -> bool {
    ||| exists|r: Option<Vec<u8>>| pump_post(pre, post, r)
    ||| credit_post(pre, post)
    ||| pre.chunk_pending() && chunk_sent_post(pre, post)
    ||| drain_post(pre, post)
}

/// The step queued the end marker.
pub open spec fn queues_end(pre: Player, post: Player) -> bool {
    post.outbox@ == pre.outbox@.push(Command::EndStream)
}

/// A step queues the end marker only for a running stream whose every byte
/// went out, and leaves it ended; a step on an ended stream keeps it ended
/// and queues nothing.
proof fn lemma_end_step(pre: Player, post: Player)
    requires
        stream_step(pre, post),
    ensures
        queues_end(pre, post) ==> (pre.playback matches Some(pb) && !pb.ended && !pb.paused
            && pb.pos >= pb.samples@.len()) && (post.playback matches Some(q) && q.ended),
        (pre.playback matches Some(pb) && pb.ended) ==> !queues_end(pre, post) && (
        post.playback matches Some(q) && q.ended),
{
    if queues_end(pre, post) {
        assert(post.outbox@.len() == pre.outbox@.len() + 1);
    }
    if exists|r: Option<Vec<u8>>| pump_post(pre, post, r) {
        let r = choose|r: Option<Vec<u8>>| pump_post(pre, post, r);
        assert(pump_post(pre, post, r));
    }
}

/// Over any run of stream steps, the end marker is queued at most once, and
/// only once every sample byte went out.
pub proof fn lemma_end_marker_once(t: Seq<Player>)
    requires
        forall|i: int| 0 <= i < t.len() - 1 ==> stream_step(#[trigger] t[i], t[i + 1]),
    ensures
        forall|i: int|
            0 <= i < t.len() - 1 && queues_end(#[trigger] t[i], t[i + 1]) ==> (t[i].playback matches Some(
                pb,
            ) && !pb.ended && pb.pos >= pb.samples@.len()),
        forall|i: int, j: int|
            0 <= i < j < t.len() - 1 ==> !(queues_end(#[trigger] t[i], t[i + 1]) && queues_end(
                #[trigger] t[j],
                t[j + 1],
            )),
{
    assert forall|i: int|
        0 <= i < t.len() - 1 && queues_end(#[trigger] t[i], t[i + 1]) implies (t[i].playback matches Some(
            pb,
        ) && !pb.ended && pb.pos >= pb.samples@.len()) by {
        lemma_end_step(t[i], t[i + 1]);
    }
    assert forall|i: int, j: int| 0 <= i < j < t.len() - 1 implies !(queues_end(
        #[trigger] t[i],
        t[i + 1],
    ) && queues_end(#[trigger] t[j], t[j + 1])) by {
        if queues_end(t[i], t[i + 1]) {
            lemma_end_step(t[i], t[i + 1]);
            lemma_ended_stays(t, i + 1, j);
            lemma_end_step(t[j], t[j + 1]);
        }
    }
}

/// Once a stream has ended, it stays ended along a run of stream steps.
proof fn lemma_ended_stays(t: Seq<Player>, from: int, to: int)
    requires
        forall|i: int| 0 <= i < t.len() - 1 ==> stream_step(#[trigger] t[i], t[i + 1]),
        0 <= from <= to < t.len(),
        t[from].playback matches Some(pb) && pb.ended,
    ensures
        t[to].playback matches Some(q) && q.ended,
    decreases to - from,
{
    if from < to {
        lemma_end_step(t[from], t[from + 1]);
        lemma_ended_stays(t, from + 1, to);
    }
}

/// The Next control moves to the song after the one playing, wrapping at the
/// end of the library, wherever the cursor is: the cursor follows it, and the
/// stream is left to be restarted with that song.
pub proof fn law_next_follows_playing_song(pre: Player, post: Player, r: Option<usize>)
    requires
        next_post(pre, post, r),
        pre.playback is Some,
        pre.songs@.len() > 0,
    ensures
        r == Some(((pre.playback->0.song_index + 1) % (pre.songs@.len() as int)) as usize),
        post.selected == r->0,
        r->0 < pre.songs@.len(),
        post.playback == pre.playback,
{
}

/// What the Forward, Back and Next controls ask to start does not depend on
/// the cursor: two players with the same library and the same stream get the
/// same answer.
pub proof fn law_controls_ignore_cursor(
    a: Player,
    a2: Player,
    b: Player,
    b2: Player,
    ra: Option<usize>,
    rb: Option<usize>,
    which: Response,
)
    requires
        a.songs == b.songs,
        a.playback == b.playback,
        which is Forward || which is Back || which is Next,
        which is Forward ==> forward_post(a, a2, ra) && forward_post(b, b2, rb),
        which is Back ==> back_post(a, a2, ra) && back_post(b, b2, rb),
        which is Next ==> next_post(a, a2, ra) && next_post(b, b2, rb),
    ensures
        ra == rb,
        ra is Some ==> a2.selected == b2.selected,
{
}

/// When a forward seek reaches the end of the playing song, the control moves
/// to the song after the one playing (wherever the cursor is), or, when the
/// playing song is the last, stops with "End of library".
pub proof fn law_forward_past_end(pre: Player, post: Player, r: Option<usize>)
    requires
        forward_post(pre, post, r),
        pre.playback matches Some(pb) && pb.pos + SEEK_SECS * pb.rate >= pb.samples@.len(),
    ensures
        ({
            let idx = pre.playback->0.song_index;
            if idx + 1 < pre.songs@.len() {
                &&& r == Some((idx + 1) as usize)
                &&& post.selected == r->0
                &&& post.playback == pre.playback
            } else {
                &&& r is None
                &&& post.playback is None
                &&& post.status_msg@ == "End of library"@
                &&& post.outbox@ == pre.outbox@.push(Command::Stop)
            }
        }),
{
}

/// When a backward seek reaches the start of the playing song, the control
/// moves to the song before the one playing (wherever the cursor is), or,
/// when the playing song is the first, restarts it from its first byte.
pub proof fn law_back_past_start(pre: Player, post: Player, r: Option<usize>)
    requires
        back_post(pre, post, r),
        pre.playback matches Some(pb) && pb.pos <= SEEK_SECS * pb.rate,
    ensures
        ({
            let pb = pre.playback->0;
            if pb.song_index > 0 {
                &&& r == Some((pb.song_index - 1) as usize)
                &&& post.selected == pb.song_index - 1
                &&& post.playback == pre.playback
            } else {
                &&& r is None
                &&& post.playback matches Some(q) && q.pos == 0 && q.song_index == pb.song_index
                    && q.samples == pb.samples && !q.paused
                &&& post.selected == pre.selected
            }
        }),
{
}

/// A `Done` after the end marker reports the song that played (by its index
/// in the library, empty if the library no longer has it), whatever the
/// cursor is on, and drops the stream.
pub proof fn law_done_reports_playing_song(pre: Player, post: Player, r: Option<usize>)
    requires
        response_post(pre, post, Response::Done, r),
        pre.playback matches Some(pb) && pb.ended,
    ensures
        ({
            let idx = pre.playback->0.song_index;
            &&& post.status_msg@ == "Finished "@ + (if idx < pre.songs@.len() {
                pre.songs@[idx as int].name@
            } else {
                Seq::empty()
            })
            &&& post.playback is None
            &&& post.selected == pre.selected
            &&& r is None
        }),
{
}

/// A forward seek that stays inside the playing song moves its position
/// ahead by five seconds of samples, keeps the song and its samples, and
/// restarts the device behind a `Stop` and a `BeginStream` at the stream's
/// rate.
pub proof fn law_forward_within_song(pre: Player, post: Player, r: Option<usize>)
    requires
        pre.wf(),
        forward_post(pre, post, r),
        pre.playback matches Some(pb) && pb.pos + SEEK_SECS * pb.rate < pb.samples@.len(),
    ensures
        r is None,
        post.playback matches Some(q) && {
            let pb = pre.playback->0;
            &&& q.pos == pb.pos + SEEK_SECS * pb.rate
            &&& q.song_index == pb.song_index
            &&& q.samples == pb.samples
            &&& q.in_flight == 0
            &&& !q.paused && !q.ended
        },
        post.outbox@ == pre.outbox@ + seq![
            Command::Stop,
            Command::BeginStream { rate: pre.playback->0.rate },
        ],
        post.selected == pre.selected,
{
}

/// A backward seek that stays inside the playing song moves its position back
/// by five seconds of samples, keeping the song and its samples.
pub proof fn law_back_within_song(pre: Player, post: Player, r: Option<usize>)
    requires
        pre.wf(),
        back_post(pre, post, r),
        pre.playback matches Some(pb) && pb.pos > SEEK_SECS * pb.rate,
    ensures
        r is None,
        post.playback matches Some(q) && {
            let pb = pre.playback->0;
            &&& q.pos == pb.pos - SEEK_SECS * pb.rate
            &&& q.song_index == pb.song_index
            &&& q.samples == pb.samples
            &&& !q.paused && !q.ended
        },
        post.outbox@ == pre.outbox@ + seq![
            Command::Stop,
            Command::BeginStream { rate: pre.playback->0.rate },
        ],
        post.selected == pre.selected,
{
}

/// A credit frees one window slot of the stream (none below zero), keeps its
/// position, and starts a pump; it leaves the log alone.
pub proof fn law_credit_frees_a_slot(pre: Player, post: Player, r: Option<usize>)
    requires
        response_post(pre, post, Response::Credit, r),
        pre.playback is Some,
    ensures
        r is None,
        post.playback matches Some(q) && {
            let pb = pre.playback->0;
            &&& q.in_flight == if pb.in_flight > 0 {
                pb.in_flight - 1
            } else {
                0
            }
            &&& q.pos == pb.pos
            &&& q.samples == pb.samples
            &&& q.ended == pb.ended
        },
        post.pumping,
        post.outbox == pre.outbox,
        !logs_response(pre, Response::Credit),
{
}

/// Pausing a running stream holds it at its position and tells the device to
/// stop; nothing more is sent until it resumes.
pub proof fn law_pause_holds(pre: Player, post: Player)
    requires
        pause_post(pre, post),
        pre.playback matches Some(pb) && !pb.paused,
    ensures
        post.playback matches Some(q) && q.paused && q.pos == pre.playback->0.pos
            && q.samples == pre.playback->0.samples,
        post.outbox@ == pre.outbox@.push(Command::Stop),
        post.pumping == pre.pumping,
{
}

/// Stopping drops any stream; the device is told to stop exactly when there
/// was one.
pub proof fn law_stop_drops_stream(pre: Player, post: Player)
    requires
        stop_post(pre, post, "Stopped"@),
    ensures
        post.playback is None,
        post.outbox@ == if pre.playback is Some {
            pre.outbox@.push(Command::Stop)
        } else {
            pre.outbox@
        },
        post.selected == pre.selected,
{
}

/// A chunk the pump hands out is the next run of the stream's samples, from
/// its play position: `PCM_CHUNK` bytes, or what is left if fewer, and only
/// while the stream runs and its window has room.
pub proof fn law_pump_hands_out_next_samples(pre: Player, post: Player, c: Vec<u8>)
    requires
        pump_post(pre, post, Some(c)),
    ensures
        pre.pumping,
        pre.playback matches Some(pb) && {
            &&& !pb.paused && !pb.ended && pb.in_flight < PCM_WINDOW
            &&& pb.pos < pb.samples@.len()
            &&& c@ == pb.samples@.subrange(pb.pos as int, pb.pos + c@.len())
            &&& c@.len() == if pb.samples@.len() - pb.pos < PCM_CHUNK {
                pb.samples@.len() - pb.pos
            } else {
                PCM_CHUNK as int
            }
        },
        post.playback == pre.playback,
{
}

} // verus!
