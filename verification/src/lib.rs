//! A verified engine for a fixed-length word-guessing game: the two-pass
//! classification of a guess against a secret answer, the monotonic
//! per-letter knowledge it feeds, the hard-mode legality rule, the
//! round-and-session lifecycle, and the cross-round statistics.  Reading
//! word lists, terminal output and the persisted session file are the
//! surrounding program's concern; the engine consumes and produces plain
//! values.

pub mod cli;
pub mod engine;
pub mod errors;
pub mod game;
pub mod model;
pub mod session;
pub mod state;
pub mod status;
