//! Text editing, tab labels and copy-mode navigation for a terminal
//! multiplexer, with their contracts proved by Verus.

pub mod chars;
pub mod cursor;
pub mod tab_display;
pub mod copy_mode;
pub mod copy_motion;
