use vstd::prelude::*;

use crate::cursor::CursorPos;
use crate::cursor::valid_pos;
use crate::document::Document;
use crate::layout::Glyph;
use crate::layout::LineLayout;
use crate::line::Line;
use crate::line::LineV;

verus! {

/// The document after a character is inserted at `(col, line)`: that line's
/// text gains the character and its layout is replaced by `rows`.
pub open spec fn spec_insert_char(
    d: Seq<LineV>,
    line: int,
    col: int,
    c: char,
    rows: Seq<Seq<Glyph>>,
) -> Seq<LineV> {
    d.update(line, (LineV { text: d[line].text.insert(col, c), rows: rows }))
}

/// The document after line `line` is split at `col`: the line keeps the
/// text before the split with layout `rows_before`, and a new line holding
/// the rest, with layout `rows_after`, follows it.
pub open spec fn spec_split_line(
    d: Seq<LineV>,
    line: int,
    col: int,
    rows_before: Seq<Seq<Glyph>>,
    rows_after: Seq<Seq<Glyph>>,
) -> Seq<LineV> {
    d.update(line, (LineV { text: d[line].text.take(col), rows: rows_before })).insert(
        line + 1,
        (LineV { text: d[line].text.skip(col), rows: rows_after }),
    )
}

/// The document after the character before `(col, line)` is deleted: that
/// line's text loses the character at `col - 1` and its layout is replaced
/// by `rows`.
pub open spec fn spec_delete_char(
    d: Seq<LineV>,
    line: int,
    col: int,
    rows: Seq<Seq<Glyph>>,
) -> Seq<LineV> {
    d.update(line, (LineV { text: d[line].text.remove(col - 1), rows: rows }))
}

/// The document after line `line` is merged into the line above: the
/// previous line's text gains this line's text, with layout `rows`, and
/// line `line` is removed.
pub open spec fn spec_merge_lines(d: Seq<LineV>, line: int, rows: Seq<Seq<Glyph>>) -> Seq<LineV> {
    d.update(line - 1, (LineV { text: d[line - 1].text + d[line].text, rows: rows })).remove(line)
}

/// A mutable borrow of one line of the document.
fn line_mut(doc: &mut Document, index: usize) -> (r: &mut Line)
    requires
        index < old(doc).lines@.len(),
    ensures
        *r == old(doc).lines@[index as int],
        final(doc).lines@ == old(doc).lines@.update(index as int, *final(r)),
{
    &mut doc.lines[index]
}

/// A copy of a character vector.
fn copy_chars(v: &Vec<char>) -> (r: Vec<char>)
    ensures
        r@ == v@,
{
    let mut r: Vec<char> = Vec::new();
    let mut i: usize = 0;
    while i < v.len()
        invariant
            i <= v@.len(),
            r@ == v@.take(i as int),
        decreases v@.len() - i,
    {
        r.push(v[i]);
        proof {
            assert(v@.take(i + 1) =~= v@.take(i as int).push(v@[i as int]));
        }
        i = i + 1;
    }
    proof {
        assert(v@.take(v@.len() as int) =~= v@);
    }
    r
}

impl Document {
    /// The text line `pos.line` will hold once `c` is inserted at
    /// `pos.col`; what a caller hands to the shaper before
    /// [`Document::insert_char`].
    pub fn text_after_insert(&self, pos: CursorPos, c: char) -> (t: Vec<char>)
        requires
            self.wf(),
            valid_pos(self@, pos),
        ensures
            t@ == self@[pos.line as int].text.insert(pos.col as int, c),
    {
        let mut t = copy_chars(&self.lines[pos.line].text);
        t.insert(pos.col, c);
        t
    }

    /// The texts the two halves of line `pos.line` will hold once it is
    /// split at `pos.col`.
    pub fn split_texts(&self, pos: CursorPos) -> (t: (Vec<char>, Vec<char>))
        requires
            self.wf(),
            valid_pos(self@, pos),
        ensures
            t.0@ == self@[pos.line as int].text.take(pos.col as int),
            t.1@ == self@[pos.line as int].text.skip(pos.col as int),
    {
        let mut before = copy_chars(&self.lines[pos.line].text);
        let after = before.split_off(pos.col);
        (before, after)
    }

    /// The text line `pos.line` will hold once the character before
    /// `pos.col` is deleted.
    pub fn text_after_backspace(&self, pos: CursorPos) -> (t: Vec<char>)
        requires
            self.wf(),
            valid_pos(self@, pos),
            pos.col >= 1,
        ensures
            t@ == self@[pos.line as int].text.remove(pos.col as int - 1),
    {
        let mut t = copy_chars(&self.lines[pos.line].text);
        t.remove(pos.col - 1);
        t
    }

    /// The text line `line - 1` will hold once line `line` is merged into
    /// it.
    pub fn merged_text(&self, line: usize) -> (t: Vec<char>)
        requires
            self.wf(),
            1 <= line < self@.len(),
        ensures
            t@ == self@[line as int - 1].text + self@[line as int].text,
    {
        let mut t = copy_chars(&self.lines[line - 1].text);
        let mut tail = copy_chars(&self.lines[line].text);
        t.append(&mut tail);
        t
    }

    /// Inserts `c` at `pos`, replacing the line's layout with the layout of
    /// the new text; returns the cursor position after the inserted
    /// character.
    pub fn insert_char(&mut self, pos: CursorPos, c: char, layout: LineLayout) -> (newpos:
        CursorPos)
        requires
            old(self).wf(),
            valid_pos(old(self)@, pos),
            layout.wf(),
            layout.total() == old(self)@[pos.line as int].text.len() + 1,
        ensures
            final(self).wf(),
            final(self)@ == spec_insert_char(
                old(self)@,
                pos.line as int,
                pos.col as int,
                c,
                layout.rows(),
            ),
            newpos.col == pos.col + 1,
            newpos.line == pos.line,
            valid_pos(final(self)@, newpos),
    {
        let ghost d0 = self@;
        let l = line_mut(self, pos.line);
        l.text.insert(pos.col, c);
        l.layout = layout;
        proof {
            assert(final(self)@ =~= spec_insert_char(
                d0,
                pos.line as int,
                pos.col as int,
                c,
                layout.rows(),
            ));
            assert forall|i: int| 0 <= i < final(self).lines@.len() implies
                #[trigger] final(self).lines@[i].wf() by {
                if i != pos.line as int {
                    assert(final(self).lines@[i] == old(self).lines@[i]);
                }
            }
        }
        CursorPos { col: pos.col + 1, line: pos.line }
    }

    /// Splits line `pos.line` at `pos.col`: the line keeps the text before
    /// the split with layout `before`; a new line holding the rest, with
    /// layout `after`, is inserted below.  Returns the cursor position at
    /// the start of the new line.
    pub fn split_line(&mut self, pos: CursorPos, before: LineLayout, after: LineLayout) -> (newpos:
        CursorPos)
        requires
            old(self).wf(),
            valid_pos(old(self)@, pos),
            before.wf(),
            before.total() == pos.col,
            after.wf(),
            after.total() == old(self)@[pos.line as int].text.len() - pos.col,
        ensures
            final(self).wf(),
            final(self)@ == spec_split_line(
                old(self)@,
                pos.line as int,
                pos.col as int,
                before.rows(),
                after.rows(),
            ),
            newpos.col == 0,
            newpos.line == pos.line + 1,
            valid_pos(final(self)@, newpos),
    {
        let ghost d0 = self@;
        let l = line_mut(self, pos.line);
        let tail = l.text.split_off(pos.col);
        l.layout = before;
        proof {
            assert forall|i: int| 0 <= i < self.lines@.len() implies #[trigger] self.lines@[i].wf()
                by {
                if i != pos.line as int {
                    assert(self.lines@[i] == old(self).lines@[i]);
                }
            }
            assert(self@ =~= d0.update(
                pos.line as int,
                (LineV { text: d0[pos.line as int].text.take(pos.col as int), rows: before.rows() }),
            ));
            assert(pos.line < self.lines@.len());
        }
        let new_line = Line { text: tail, layout: after };
        let count = self.lines.len();
        proof {
            assert(pos.line < count);
        }
        self.insert_line(pos.line + 1, new_line);
        proof {
            assert(final(self)@ =~= spec_split_line(
                d0,
                pos.line as int,
                pos.col as int,
                before.rows(),
                after.rows(),
            ));
        }
        CursorPos { col: 0, line: pos.line + 1 }
    }

    /// Deletes the character before `pos`, replacing the line's layout with
    /// the layout of the shortened text; returns the cursor position moved
    /// one column left.
    pub fn delete_char(&mut self, pos: CursorPos, layout: LineLayout) -> (newpos: CursorPos)
        requires
            old(self).wf(),
            valid_pos(old(self)@, pos),
            pos.col >= 1,
            layout.wf(),
            layout.total() == old(self)@[pos.line as int].text.len() - 1,
        ensures
            final(self).wf(),
            final(self)@ == spec_delete_char(
                old(self)@,
                pos.line as int,
                pos.col as int,
                layout.rows(),
            ),
            newpos.col == pos.col - 1,
            newpos.line == pos.line,
            valid_pos(final(self)@, newpos),
    {
        let ghost d0 = self@;
        let l = line_mut(self, pos.line);
        l.text.remove(pos.col - 1);
        l.layout = layout;
        proof {
            assert(final(self)@ =~= spec_delete_char(
                d0,
                pos.line as int,
                pos.col as int,
                layout.rows(),
            ));
            assert forall|i: int| 0 <= i < final(self).lines@.len() implies
                #[trigger] final(self).lines@[i].wf() by {
                if i != pos.line as int {
                    assert(final(self).lines@[i] == old(self).lines@[i]);
                }
            }
        }
        CursorPos { col: pos.col - 1, line: pos.line }
    }

    /// Merges line `line` into the line above it, replacing the merged
    /// line's layout with the layout of the joined text; returns the cursor
    /// position at the join point — the previous line's length before the
    /// merge.
    pub fn merge_lines(&mut self, line: usize, layout: LineLayout) -> (newpos: CursorPos)
        requires
            old(self).wf(),
            1 <= line < old(self)@.len(),
            layout.wf(),
            layout.total() == old(self)@[line as int - 1].text.len() + old(
                self,
            )@[line as int].text.len(),
        ensures
            final(self).wf(),
            final(self)@ == spec_merge_lines(old(self)@, line as int, layout.rows()),
            newpos.col == old(self)@[line as int - 1].text.len(),
            newpos.line == line - 1,
            valid_pos(final(self)@, newpos),
    {
        let ghost d0 = self@;
        let mut tail = copy_chars(&self.lines[line].text);
        let l = line_mut(self, line - 1);
        let prev_len = l.text.len();
        l.text.append(&mut tail);
        l.layout = layout;
        proof {
            let ghost merged = LineV {
                text: d0[line as int - 1].text + d0[line as int].text,
                rows: layout.rows(),
            };
            assert(self@ =~= d0.update(line as int - 1, merged));
            assert forall|i: int| 0 <= i < self.lines@.len() implies #[trigger] self.lines@[i].wf()
                by {
                if i != line as int - 1 {
                    assert(self.lines@[i] == old(self).lines@[i]);
                }
            }
        }
        let removed = self.remove_line(line);
        proof {
            assert(final(self)@ =~= spec_merge_lines(d0, line as int, layout.rows()));
        }
        CursorPos { col: prev_len, line: line - 1 }
    }
}


/// A Unicode control character (category Cc): the two blocks
/// U+0000..U+001F and U+007F..U+009F.
pub open spec fn is_control_char(c: char) -> bool {
    (c as u32) < 0x20 || (0x7f <= (c as u32) && (c as u32) <= 0x9f)
}

/// A closed command alphabet for edits at the cursor.
#[derive(Clone, Copy, PartialEq, Eq, Structural, Debug)]
pub enum EditCommand {
    InsertChar(char),
    Newline,
    Backspace,
    Tab,
}

/// Which edit a received character stands for: carriage return starts a new
/// line, U+0008 backspaces, tab is the (no-op) indent placeholder, any
/// other non-control character inserts itself, and the remaining control
/// characters are ignored.
pub open spec fn spec_command_of_char(c: char) -> Option<EditCommand> {
    if c == '\r' {
        Some(EditCommand::Newline)
    } else if c == '\u{8}' {
        Some(EditCommand::Backspace)
    } else if c == '\t' {
        Some(EditCommand::Tab)
    } else if !is_control_char(c) {
        Some(EditCommand::InsertChar(c))
    } else {
        None
    }
}

impl EditCommand {
    /// Classifies a received character, per [`spec_command_of_char`].
    pub fn of_char(c: char) -> (r: Option<EditCommand>)
        ensures
            r == spec_command_of_char(c),
    {
        if c == '\r' {
            Some(EditCommand::Newline)
        } else if c == '\u{8}' {
            Some(EditCommand::Backspace)
        } else if c == '\t' {
            Some(EditCommand::Tab)
        } else {
            let u = c as u32;
            if u < 0x20 || (0x7f <= u && u <= 0x9f) {
                None
            } else {
                Some(EditCommand::InsertChar(c))
            }
        }
    }
}

/// The texts an edit asks the shaper to reshape: nothing, the one line the
/// edit rewrites, or — for a split — the two halves.
pub enum EditTexts {
    NoRelayout,
    One(Vec<char>),
    Two(Vec<char>, Vec<char>),
}

/// The shaped layouts a caller hands back for an edit, mirroring
/// [`EditTexts`] item for item.
pub enum EditLayouts {
    Unchanged,
    Single(LineLayout),
    Split(LineLayout, LineLayout),
}

/// The layouts fit the edit that `c` commands at `pos`: one well-formed
/// layout per reshaped text, covering exactly that text's characters.
pub open spec fn layouts_match(d: Seq<LineV>, pos: CursorPos, c: char, lay: EditLayouts) -> bool {
    match spec_command_of_char(c) {
        None => lay is Unchanged,
        Some(cmd) => match cmd {
            EditCommand::Tab => lay is Unchanged,
            EditCommand::Newline => lay matches EditLayouts::Split(a, b) && a.wf() && b.wf()
                && a.total() == pos.col && b.total() == d[pos.line as int].text.len() - pos.col,
            EditCommand::Backspace => if pos.col > 0 {
                lay matches EditLayouts::Single(l) && l.wf() && l.total() == d[pos.line as int].text.len() - 1
            } else if pos.line > 0 {
                lay matches EditLayouts::Single(l) && l.wf() && l.total() == d[pos.line as int - 1].text.len() + d[pos.line as int].text.len()
            } else {
                lay is Unchanged
            },
            EditCommand::InsertChar(ch) => lay matches EditLayouts::Single(l) && l.wf()
                && l.total() == d[pos.line as int].text.len() + 1,
        },
    }
}

/// The document and cursor position an edit yields: the state machine of
/// the edit commands.  Blocked edits — backspace at the document origin,
/// tab, ignored control characters — leave both unchanged.
pub open spec fn spec_edit(d: Seq<LineV>, pos: CursorPos, c: char, lay: EditLayouts) -> (
    Seq<LineV>,
    CursorPos,
) {
    match (spec_command_of_char(c), lay) {
        (Some(EditCommand::Newline), EditLayouts::Split(a, b)) => (
            spec_split_line(d, pos.line as int, pos.col as int, a.rows(), b.rows()),
            (CursorPos { col: 0, line: (pos.line + 1) as usize }),
        ),
        (Some(EditCommand::Backspace), EditLayouts::Single(l)) => if pos.col > 0 {
            (
                spec_delete_char(d, pos.line as int, pos.col as int, l.rows()),
                (CursorPos { col: (pos.col - 1) as usize, line: pos.line }),
            )
        } else if pos.line > 0 {
            (
                spec_merge_lines(d, pos.line as int, l.rows()),
                (CursorPos {
                    col: d[pos.line as int - 1].text.len() as usize,
                    line: (pos.line - 1) as usize,
                }),
            )
        } else {
            (d, pos)
        },
        (Some(EditCommand::InsertChar(ch)), EditLayouts::Single(l)) => (
            spec_insert_char(d, pos.line as int, pos.col as int, ch, l.rows()),
            (CursorPos { col: (pos.col + 1) as usize, line: pos.line }),
        ),
        _ => (d, pos),
    }
}

impl crate::cursor::Cursor {
    /// The texts an edit at this cursor will reshape, for the caller to run
    /// through the shaper before applying the edit with
    /// [`Cursor::insert_text`].
    pub fn relayout_texts(&self, doc: &Document, c: char) -> (r: EditTexts)
        requires
            doc.wf(),
            valid_pos(doc@, self.pos),
        ensures
            match spec_command_of_char(c) {
                None => r is NoRelayout,
                Some(cmd) => match cmd {
                    EditCommand::Tab => r is NoRelayout,
                    EditCommand::Newline => r matches EditTexts::Two(a, b) && a@ == doc@[self.pos.line as int].text.take(self.pos.col as int) && b@ == doc@[self.pos.line as int].text.skip(self.pos.col as int),
                    EditCommand::Backspace => if self.pos.col > 0 {
                        r matches EditTexts::One(t) && t@ == doc@[self.pos.line as int].text.remove(self.pos.col as int - 1)
                    } else if self.pos.line > 0 {
                        r matches EditTexts::One(t) && t@ == doc@[self.pos.line as int - 1].text + doc@[self.pos.line as int].text
                    } else {
                        r is NoRelayout
                    },
                    EditCommand::InsertChar(ch) => r matches EditTexts::One(t) && t@ == doc@[self.pos.line as int].text.insert(self.pos.col as int, ch),
                },
            },
    {
        match EditCommand::of_char(c) {
            None => EditTexts::NoRelayout,
            Some(cmd) => match cmd {
                EditCommand::Tab => EditTexts::NoRelayout,
                EditCommand::Newline => {
                    let (a, b) = doc.split_texts(self.pos);
                    EditTexts::Two(a, b)
                },
                EditCommand::Backspace => {
                    if self.pos.col > 0 {
                        EditTexts::One(doc.text_after_backspace(self.pos))
                    } else if self.pos.line > 0 {
                        EditTexts::One(doc.merged_text(self.pos.line))
                    } else {
                        EditTexts::NoRelayout
                    }
                },
                EditCommand::InsertChar(ch) => EditTexts::One(doc.text_after_insert(self.pos, ch)),
            },
        }
    }

    /// Applies the edit that `c` commands at this cursor, installing the
    /// layouts the caller shaped for it; document and cursor change
    /// together, per [`spec_edit`].
    pub fn insert_text(&mut self, doc: &mut Document, c: char, layouts: EditLayouts)
        requires
            old(doc).wf(),
            valid_pos(old(doc)@, old(self).pos),
            layouts_match(old(doc)@, old(self).pos, c, layouts),
        ensures
            final(doc).wf(),
            final(doc)@ == spec_edit(old(doc)@, old(self).pos, c, layouts).0,
            final(self).pos == spec_edit(old(doc)@, old(self).pos, c, layouts).1,
            valid_pos(final(doc)@, final(self).pos),
    {
        match EditCommand::of_char(c) {
            None => {},
            Some(cmd) => match cmd {
                EditCommand::Tab => {},
                EditCommand::Newline => {
                    match layouts {
                        EditLayouts::Split(a, b) => {
                            self.pos = doc.split_line(self.pos, a, b);
                        },
                        _ => {
                            proof {
                                assert(false);
                            }
                        },
                    }
                },
                EditCommand::Backspace => {
                    if self.pos.col > 0 {
                        match layouts {
                            EditLayouts::Single(l) => {
                                self.pos = doc.delete_char(self.pos, l);
                            },
                            _ => {
                                proof {
                                    assert(false);
                                }
                            },
                        }
                    } else if self.pos.line > 0 {
                        match layouts {
                            EditLayouts::Single(l) => {
                                self.pos = doc.merge_lines(self.pos.line, l);
                            },
                            _ => {
                                proof {
                                    assert(false);
                                }
                            },
                        }
                    }
                },
                EditCommand::InsertChar(ch) => {
                    match layouts {
                        EditLayouts::Single(l) => {
                            self.pos = doc.insert_char(self.pos, ch, l);
                        },
                        _ => {
                            proof {
                                assert(false);
                            }
                        },
                    }
                },
            },
        }
    }
}

/// Inserting a character and then backspacing at the position just after
/// it restores the document exactly — every line's text and layout — when
/// the backspace installs the layout the line had before the insertion (as
/// a deterministic shaper yields for the restored text).  The cursor
/// returns with it: the insertion moves it from `col` to `col + 1`, and the
/// deletion back to `col`.
pub proof fn lemma_insert_then_backspace(
    d: Seq<LineV>,
    pos: CursorPos,
    c: char,
    rows_inserted: Seq<Seq<Glyph>>,
)
    requires
        pos.line < d.len(),
        pos.col <= d[pos.line as int].text.len(),
    ensures
        spec_delete_char(
            spec_insert_char(d, pos.line as int, pos.col as int, c, rows_inserted),
            pos.line as int,
            pos.col as int + 1,
            d[pos.line as int].rows,
        ) == d,
{
    let li = pos.line as int;
    let col = pos.col as int;
    let mid = spec_insert_char(d, li, col, c, rows_inserted);
    assert(mid[li].text =~= d[li].text.insert(col, c));
    assert(d[li].text.insert(col, c).remove(col) =~= d[li].text);
    assert(spec_delete_char(mid, li, col + 1, d[li].rows) =~= d);
}

/// Splitting a line and then backspacing at the start of the new line
/// restores the document exactly — merge is the inverse of split — when the
/// merge installs the layout the line had before the split (as a
/// deterministic shaper yields for the restored text, under the same font
/// and width).  The cursor returns with it: the merge lands at the end of
/// the first half, which is the split column.
pub proof fn lemma_split_then_merge(
    d: Seq<LineV>,
    pos: CursorPos,
    rows_before: Seq<Seq<Glyph>>,
    rows_after: Seq<Seq<Glyph>>,
)
    requires
        pos.line < d.len(),
        pos.col <= d[pos.line as int].text.len(),
    ensures
        spec_merge_lines(
            spec_split_line(d, pos.line as int, pos.col as int, rows_before, rows_after),
            pos.line as int + 1,
            d[pos.line as int].rows,
        ) == d,
        spec_split_line(d, pos.line as int, pos.col as int, rows_before, rows_after)[pos.line as int].text.len()
            == pos.col,
{
    let li = pos.line as int;
    let col = pos.col as int;
    let s = spec_split_line(d, li, col, rows_before, rows_after);
    assert(s[li].text == d[li].text.take(col));
    assert(s[li + 1].text == d[li].text.skip(col));
    assert(s[li].text + s[li + 1].text =~= d[li].text);
    let merged = LineV { text: s[li].text + s[li + 1].text, rows: d[li].rows };
    assert(merged == d[li]);
    assert(spec_merge_lines(s, li + 1, d[li].rows) =~= d);
}

} // verus!


