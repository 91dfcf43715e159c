//! A minimal line-oriented text editor core: a document model (line buffer +
//! cursor) with single-character edit operations, and a viewport engine that
//! maps buffer coordinates to screen coordinates under soft line wrap.
//!
//! Terminal handling, key decoding and file I/O live outside this library;
//! the core works on plain values (characters, lines, terminal dimensions).

pub mod chars;
pub mod model;
pub mod buffer;
pub mod text;
pub mod editor;
pub mod viewport;
pub mod laws;
