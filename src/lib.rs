//! Editing core of a modal terminal text editor: a character-indexed
//! document with a cursor model, a viewport that follows the cursor, and a
//! compositor that turns visible text and style spans into a terminal frame.
pub mod lines;
pub mod rope;
pub mod buffer;
pub mod style;
mod strings;
pub mod utf8;
pub mod display;
pub mod viewport;
pub mod highlight;
pub mod frame;
pub mod editor;
pub mod screen;
