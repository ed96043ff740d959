//! Pinned-window engine: the registry of windows kept above all others, the
//! decisions that pin, unpin and re-assert them, opacity control, window
//! event dispatch and the persisted snapshot of pins.
//!
//! Every operation that touches the windowing system is split in two: the
//! library decides which window operations are to be performed, the host
//! performs them and hands back what happened, and the library commits the
//! outcome to the registry.

pub mod error;
pub mod state;
pub mod transparency;
pub mod window;
pub mod pin_manager;
pub mod event_hook;
pub mod text;
pub mod persistence;
pub mod hotkey;
pub mod autostart;
