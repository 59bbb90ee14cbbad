# taiko_rs

The rules of a drum rhythm game, verified with Verus.

- `src/chart.rs` reads a song's map: a metadata block, then notes opened by
  `{`, each with the fields `x,don_or_ka,size,type_of_note,length`.
- `src/decimal.rs` and `src/split.rs` are the byte-level pieces the map
  reader is built from.
- `src/notes.rs` says what kind of note a stored note is and how it is drawn.
- `src/play.rs` turns drum strikes into notes, judges notes in the hit
  windows and keeps the score.
- `src/pause.rs` decides what pausing and resuming ask of the state machine.
- `src/path.rs` chooses where the map file is read from.
- `app/main.rs` is the game itself, built on Bevy: windowing, drawing,
  input, files and floating-point motion.
