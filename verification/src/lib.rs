//! The logic of a small interactive console for a microcontroller with a
//! serial input and a bitmap display: a bounded, word-wrapped log, the shell
//! commands that write to it, the redraw flag that the input side and the
//! render side share, and the decisions of the two workers. Reading, painting
//! and locking are left to the firmware around it.

pub mod command;
pub mod console;
pub mod game;
pub mod log_buffer;
pub mod render;
pub mod text;
pub mod worker;
pub mod wrap;
