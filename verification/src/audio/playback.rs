//! Playback definitions and the pure seek logic.
//!
//! The in-progress stream state (`Playback`) and the seek-target maths live
//! here, apart from the player state machine in `crate::app`, which owns the
//! song library and the current stream and decides what is sent.

use vstd::prelude::*;

verus! {

/// Sample rate we resample WAV files to for the micro:bit v2 speaker.
pub const PCM_RATE: u32 = 7812;

/// Bytes of PCM written to the wire per chunk.
pub const PCM_CHUNK: usize = 512;

/// Chunks allowed in flight before we wait for a credit (`K`).
pub const PCM_WINDOW: usize = 4;

/// How far a forward/back control seeks within a song.
pub const SEEK_SECS: usize = 5;

/// State of an in-progress PCM stream.
#[derive(Debug)]
pub struct Playback {
    pub song_index: usize,
    pub samples: Vec<u8>,
    /// Next sample byte to send — the play position. It runs ~¼ s ahead of the
    /// actual sound by the in-flight window; that slop is accepted.
    pub pos: usize,
    /// Chunks sent but not yet credited back.
    pub in_flight: usize,
    /// Whether all bytes plus the end marker have been written.
    pub ended: bool,
    /// Held by a pause control; streaming resumes on the next toggle.
    pub paused: bool,
    pub rate: u32,
}

/// The divisor used to turn byte offsets into seconds: the rate, or 1 for a
/// zero rate.
pub open spec fn rate_divisor(rate: u32) -> nat {
    if rate == 0 {
        1
    } else {
        rate as nat
    }
}

impl Playback {
    /// The stream's invariant: a non-empty sample buffer, small enough that
    /// its length plus a seek step fits in a `usize`, the play position inside
    /// it, the in-flight window respected, and `ended` only once every byte
    /// went out.
    pub open spec fn wf(&self) -> bool {
        &&& 0 < self.samples@.len()
        &&& self.samples@.len() + SEEK_SECS * self.rate <= usize::MAX
        &&& self.pos <= self.samples@.len()
        &&& self.in_flight <= PCM_WINDOW
        &&& self.ended ==> self.pos == self.samples@.len()
    }

    /// Current play position, in whole seconds.
    pub fn position_secs(&self) -> (r: usize)
        ensures
            r == self.pos as nat / rate_divisor(self.rate),
    {
        let d: usize = if self.rate == 0 {
            1
        } else {
            self.rate as usize
        };
        self.pos / d
    }

    /// Total duration, in whole seconds.
    pub fn duration_secs(&self) -> (r: usize)
        ensures
            r == self.samples@.len() / rate_divisor(self.rate),
    {
        let d: usize = if self.rate == 0 {
            1
        } else {
            self.rate as usize
        };
        self.samples.len() / d
    }
}

/// Outcome of a within-song seek calculation.
#[derive(Debug, PartialEq, Eq, Structural)]
pub enum Seek {
    /// Stay in the song, at this byte offset.
    To(usize),
    /// Ran off the end (forward) or start (back) — cross to the adjacent song.
    Boundary,
}

/// Where a forward seek of `step` bytes from `pos` lands in a song of `total`
/// bytes: inside it, or at or past its end.
pub open spec fn forward_seek(pos: usize, total: usize, step: usize) -> Seek {
    if pos + step >= total {
        Seek::Boundary
    } else {
        Seek::To((pos + step) as usize)
    }
}

/// Where a backward seek of `step` bytes from `pos` lands: inside the song, or
/// at or before its start.
pub open spec fn back_seek(pos: usize, step: usize) -> Seek {
    if pos <= step {
        Seek::Boundary
    } else {
        Seek::To((pos - step) as usize)
    }
}

/// Where a forward seek of `step` bytes from `pos` lands in a song of `total`
/// bytes: inside it, or at or past its end.
pub fn forward_target(pos: usize, total: usize, step: usize) -> (r: Seek)
    requires
        pos + step <= usize::MAX,
    ensures
        r == forward_seek(pos, total, step),
{
    let target = pos + step;
    if target >= total {
        Seek::Boundary
    } else {
        Seek::To(target)
    }
}

/// Where a backward seek of `step` bytes from `pos` lands: inside the song, or
/// at (or before) its start.
pub fn back_target(pos: usize, step: usize) -> (r: Seek)
    ensures
        r == back_seek(pos, step),
{
    if pos <= step {
        Seek::Boundary
    } else {
        Seek::To(pos - step)
    }
}

/// A forward seek that stays inside the song is undone by a backward seek
/// of the same step, unless it started at the very first byte (a backward
/// seek that reaches the start crosses to the previous song).
pub proof fn lemma_back_undoes_forward(pos: usize, total: usize, step: usize)
    requires
        pos + step <= usize::MAX,
        pos > 0,
        forward_seek(pos, total, step) is To,
    ensures
        back_seek((pos + step) as usize, step) == Seek::To(pos),
{
}

/// A backward seek that stays inside the song is undone by a forward seek of
/// the same step, as long as the starting point was before the song's end.
pub proof fn lemma_forward_undoes_back(pos: usize, total: usize, step: usize)
    requires
        pos < total,
        back_seek(pos, step) is To,
    ensures
        forward_seek((pos - step) as usize, total, step) == Seek::To(pos),
{
}

} // verus!
