//! Core of a terminal emulator: a byte-stream decoder for the ANSI/VT
//! control-sequence grammar, a character grid with bounded scrollback, and
//! the state machine that applies decoded actions to the grid.
//!
//! Everything here is pure logic over plain values; the process, window and
//! pseudo-terminal plumbing live outside this crate and talk to it through
//! bytes, actions and snapshots.

pub mod cell;
pub mod decoder;
pub mod grid;
pub mod input;
pub mod term;
