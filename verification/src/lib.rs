//! The core of a modal terminal text editor: re-flowing a document into
//! width-bounded display rows, mapping the cursor between screen and document
//! coordinates, moving and scrolling it, and the mode state machine that says
//! which key does what.

pub mod controller;
pub mod cursor;
pub mod digits;
pub mod glyph;
pub mod invariants;
pub mod keys;
pub mod layout;
pub mod model;
pub mod paint;
pub mod search;
pub mod state;
pub mod text;
pub mod wrap;
