//! Command-dispatch and navigation engine of a keyboard-driven terminal file browser.
//!
//! The library holds the key-sequence parser, the binding tables, the modal state machine,
//! the cursor and viewport arithmetic and the ordering of directory entries. Terminal I/O,
//! the file system and rendering are left to the host program, which feeds the library plain
//! values and carries out the effects that it asks for.

pub mod actions;
pub mod directory_tree;
pub mod dispatch;
pub mod frame;
pub mod helper_types;
pub mod input;
pub mod modes;
pub mod order;
pub mod path;
pub mod ranking;
pub mod string_map;
pub mod text;
pub mod viewport;
