//! Core of a three-pane terminal file browser: the entry model, the
//! directory listing rules, the panes and the navigator's state machine.
//! Everything that touches the file system or the terminal is done by the
//! caller, which hands the results to these functions as plain values.

pub mod pos;
pub mod filesys;
pub mod order;
pub mod preview;
pub mod ui;
pub mod state;
pub mod watch;
