//! An interactive line-editing session for text consoles: an editable command
//! buffer with history navigation, context-aware tab completion, and a render
//! reconciler that interleaves log lines with the in-progress edit line.
//!
//! The crate is organised around three pieces:
//! - [`tab`]: the completion engine (a flat registry of trigger contexts with
//!   longest-prefix dispatch and pluggable filtering strategies);
//! - [`editor`]: the editor/history state machine (buffer mutation, cursor
//!   movement, history traversal, the interrupt-key confirmation protocol,
//!   and key-repeat debouncing);
//! - [`render`]: the reconciler that turns the current state into an explicit
//!   list of terminal draw operations.
//!
//! Terminal I/O itself is out of scope: callers execute the draw operations
//! against their terminal of choice.

pub mod editor;
pub mod render;
pub mod tab;
pub mod text;
pub mod utils;
