//! An interactive picker over a user's shell command history.
//!
//! The library decodes the history files of several shell dialects into an
//! ordered list of commands, maintains an incrementally filtered view over
//! that list together with a selection cursor and scrolling viewport, and
//! keeps a deduplicated list of bookmarked commands.  All state transitions
//! are verified; reading files, drawing the terminal and talking to the
//! system clipboard are left to the surrounding program.

pub mod session;
pub mod shell;
pub mod storage;
pub mod text;
