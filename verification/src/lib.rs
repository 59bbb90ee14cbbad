//! The rules of a drum rhythm game: reading a song's map of notes, judging
//! the drum strikes against the notes that reach the hit zone, keeping the
//! score, and pausing and resuming play.
pub mod decimal;
pub mod split;
pub mod chart;
pub mod notes;
pub mod play;
pub mod pause;
pub mod path;
