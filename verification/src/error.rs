use vstd::prelude::*;

verus! {

/// The error taxonomy of the engine.
///
/// `InvalidCursorPosition` and `OutOfRange` report contract violations that
/// are checked defensively: a cursor column beyond the end of its line, or a
/// line index beyond the document.  The two file errors are reserved for the
/// I/O shell around the engine: a source that could not be decoded, and a
/// save that could not be written.
#[derive(Clone, Copy, PartialEq, Eq, Structural, Debug)]
pub enum EditorError {
    InvalidCursorPosition,
    OutOfRange,
    FileReadError,
    FileWriteError,
}

} // verus!
