use vstd::prelude::*;

use crate::document::Document;
use crate::line::LineV;

verus! {

/// A logical cursor position: a character column within a line, and a line
/// number within the document.  The column ranges from `0` to the line's
/// length inclusive — the caret may sit one past the last character.
#[derive(Clone, Copy, PartialEq, Eq, Structural, Debug)]
pub struct CursorPos {
    pub col: usize,
    pub line: usize,
}

/// A directional cursor movement command.
#[derive(Clone, Copy, PartialEq, Eq, Structural, Debug)]
pub enum CursorMovement {
    Up,
    Down,
    Left,
    Right,
}

/// A position addresses an existing line, at a column no greater than that
/// line's length.
pub open spec fn valid_pos(d: Seq<LineV>, pos: CursorPos) -> bool {
    &&& pos.line < d.len()
    &&& pos.col <= d[pos.line as int].text.len()
}

/// Where a directional movement takes the cursor.
///
/// Left at column zero wraps to the end of the previous line; Right at the
/// end of a line wraps to the start of the next.  Up and Down clamp the
/// column to the target line's length, with no ghost-column memory.  At the
/// document's start and end the blocked movements are no-ops.
pub open spec fn spec_move(d: Seq<LineV>, pos: CursorPos, dir: CursorMovement) -> CursorPos {
    match dir {
        CursorMovement::Left => if pos.col > 0 {
            CursorPos { col: (pos.col - 1) as usize, line: pos.line }
        } else if pos.line > 0 {
            CursorPos {
                col: d[pos.line - 1].text.len() as usize,
                line: (pos.line - 1) as usize,
            }
        } else {
            pos
        },
        CursorMovement::Right => if pos.col < d[pos.line as int].text.len() {
            CursorPos { col: (pos.col + 1) as usize, line: pos.line }
        } else if pos.line + 1 < d.len() {
            CursorPos { col: 0, line: (pos.line + 1) as usize }
        } else {
            pos
        },
        CursorMovement::Down => if pos.line + 1 < d.len() {
            CursorPos {
                col: clamped_col(d, pos.col, pos.line + 1),
                line: (pos.line + 1) as usize,
            }
        } else {
            pos
        },
        CursorMovement::Up => if pos.line > 0 {
            CursorPos {
                col: clamped_col(d, pos.col, pos.line - 1),
                line: (pos.line - 1) as usize,
            }
        } else {
            pos
        },
    }
}

/// The column clamped to the length of the target line.
pub open spec fn clamped_col(d: Seq<LineV>, col: usize, target: int) -> usize {
    if col > d[target].text.len() {
        d[target].text.len() as usize
    } else {
        col
    }
}

/// A caret into a document.  The pixel placement derived from a position is
/// computed by the addressing functions; this type carries the logical
/// position the edit and movement operations work on.
pub struct Cursor {
    pub pos: CursorPos,
}

impl Cursor {
    /// A cursor at the given logical position.
    pub fn new(pos: CursorPos) -> (c: Cursor)
        ensures
            c.pos == pos,
    {
        Cursor { pos }
    }

    /// Applies a directional movement against the document, per
    /// [`spec_move`].  Does not touch any cached pixel placement; callers
    /// recompute that from the new position.
    pub fn move_cursor(&mut self, doc: &Document, direction: CursorMovement)
        requires
            doc.wf(),
            valid_pos(doc@, old(self).pos),
        ensures
            final(self).pos == spec_move(doc@, old(self).pos, direction),
            valid_pos(doc@, final(self).pos),
    {
        match direction {
            CursorMovement::Left => {
                if self.pos.col > 0 {
                    self.pos.col = self.pos.col - 1;
                } else if self.pos.line > 0 {
                    self.pos.line = self.pos.line - 1;
                    self.pos.col = doc.lines[self.pos.line].text.len();
                }
            },
            CursorMovement::Right => {
                if self.pos.col < doc.lines[self.pos.line].text.len() {
                    self.pos.col = self.pos.col + 1;
                } else if self.pos.line < doc.lines.len() - 1 {
                    self.pos.col = 0;
                    self.pos.line = self.pos.line + 1;
                }
            },
            CursorMovement::Down => {
                if self.pos.line < doc.lines.len() - 1 {
                    self.pos.line = self.pos.line + 1;
                    let len = doc.lines[self.pos.line].text.len();
                    if self.pos.col > len {
                        self.pos.col = len;
                    }
                }
            },
            CursorMovement::Up => {
                if self.pos.line > 0 {
                    self.pos.line = self.pos.line - 1;
                    let len = doc.lines[self.pos.line].text.len();
                    if self.pos.col > len {
                        self.pos.col = len;
                    }
                }
            },
        }
    }
}

/// Moving Left at the document's origin is a no-op.
pub proof fn lemma_move_left_at_origin(d: Seq<LineV>)
    ensures
        spec_move(d, (CursorPos { col: 0, line: 0 }), CursorMovement::Left) == (CursorPos {
            col: 0,
            line: 0,
        }),
{
}

/// Moving Right from the last column of the last line is a no-op.
pub proof fn lemma_move_right_at_end(d: Seq<LineV>, pos: CursorPos)
    requires
        d.len() >= 1,
        pos.line == d.len() - 1,
        pos.col == d[pos.line as int].text.len(),
    ensures
        spec_move(d, pos, CursorMovement::Right) == pos,
{
}

} // verus!
