# microbit_music_tui

A terminal music player whose sound comes out of a BBC micro:bit v2: WAV files
are decoded on the computer and streamed over USB serial as 8-bit PCM, paced by
credits the device sends back.

- `src/` — the verified library (Verus):
  - `serial/protocol.rs` — commands and responses of the line protocol;
  - `serial/wire.rs` — the byte layout on the wire, the device's framing
    rules, and the proof that every well-framed stream decodes exactly;
  - `serial/reader.rs` — splitting received bytes into lines and responses;
  - `serial/mod.rs` — connection state, port auto-detection;
  - `audio/` — which directory entries are songs and their order, playback
    state and seek maths, decoded-stream type;
  - `app.rs` — the player: every decision about what is sent, when, and what
    the screen reports;
  - `ui.rs` — what the screen shows: song-list rows, pane title and lines,
    times, log-entry kinds and the visible log window.
- `app/` — the program around it: serial I/O and the reader thread, reading
  the song directory, WAV decoding (floating point), and drawing the TUI.
- `tests/` — tests of the library.
