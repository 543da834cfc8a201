//! The core of a small modal text editor: a document with a cursor, the normal and insert
//! modes, the mapping of keys to actions, and the application of those actions, all
//! with proved contracts.
use vstd::prelude::*;

pub mod editor;
pub mod file_manager;
pub mod keymap;
pub mod line_editor;
pub mod screen;
pub mod status;
pub mod text;
pub mod text_buffer;

verus! {

} // verus!
