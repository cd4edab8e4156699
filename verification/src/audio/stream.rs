//! Device-ready audio: 8-bit unsigned mono PCM (128 = silence) at a fixed
//! sample rate, as decoded from a song.

use vstd::prelude::*;

verus! {

/// Device-ready audio decoded from a song: 8-bit unsigned mono PCM at `rate` Hz.
pub struct SongStream {
    pub rate: u32,
    pub samples: Vec<u8>,
}

} // verus!
