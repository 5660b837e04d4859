//! Verified core of a single-player tic-tac-toe game: the board model with
//! win and draw detection, an exhaustive minimax search engine, the
//! difficulty-parameterized opponent policy built on it, and the session state
//! machine that sequences turns. Window handling, painting and audio playback
//! are presentation plumbing and live with the front end, outside this crate.

pub mod board;
pub mod engine;
pub mod policy;
mod rng;
pub mod session;
pub mod sound;
