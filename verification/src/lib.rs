//! Core engine of a word-wrapping text editor.
//!
//! The crate models editable text as a sequence of logical lines.  Each line
//! carries a derived visual layout: its text is partitioned into visual rows
//! by break offsets, and every row holds the positioned glyphs the shaper
//! produced for it.  On top of that sit the document (line insertion, removal
//! and lookup), the cursor (movement and edit operations that keep text and
//! layout paired), and the addressing that turns a logical (column, line)
//! position into a pixel caret position.
//!
//! Shaping itself — turning text into glyphs for a given font, scale and
//! available width — is an outside capability.  Callers run the shaper and
//! hand its rows in as plain glyph values; every function here is verified
//! against the layouts it is given.

pub mod addressing;
pub mod button;
pub mod cursor;
pub mod document;
pub mod edit;
pub mod error;
pub mod layout;
pub mod line;
pub mod rect;
pub mod render;
