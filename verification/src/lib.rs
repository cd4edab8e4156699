//! Host side of a micro:bit music streamer: the serial wire protocol, the
//! song library, the pure playback maths and the player state machine that
//! decides what goes on the wire.

pub mod text;
pub mod serial;
pub mod audio;
pub mod app;
pub mod ui;
