//! Core logic of the viewport streaming daemon: the browser key table, the
//! X11 keyboard map, raw frame encoding, the input-injection planner and the
//! websocket session rules.
pub mod cli;
pub mod frame;
pub mod inject;
pub mod keymap;
pub mod keys;
pub mod server;
pub mod session;
