//! Finds the lyric file that best matches the song that is playing.
//!
//! A song is normalised into a token (`song`), tokens are compared by a
//! prefix distance (`distance`), and a bounded table keeps the best matches
//! seen so far, best first (`ranker`). Around these stand the status report
//! of the player (`cmus`), the paths and the consent for the final copy
//! (`session`), the failures (`error`), and what is taken from the standard
//! library and from the `md5` crate (`text`, `unicode`, `digest`).

pub mod cmus;
pub mod digest;
pub mod distance;
pub mod error;
pub mod ranker;
pub mod session;
pub mod song;
pub mod text;
pub mod unicode;
