use vstd::prelude::*;

use crate::error::EditorError;
use crate::line::Line;
use crate::line::LineV;
use crate::line::empty_line_v;

verus! {

/// The text of a document's lines joined by newlines, with no trailing
/// newline after the last line.
pub open spec fn join_texts(d: Seq<LineV>) -> Seq<char>
    decreases d.len(),
{
    if d.len() == 0 {
        Seq::empty()
    } else if d.len() == 1 {
        d[0].text
    } else {
        join_texts(d.drop_last()) + seq!['\n'] + d.last().text
    }
}

/// An ordered sequence of logical lines; the line index is the logical line
/// number.  A document always holds at least one (possibly empty) line.
pub struct Document {
    pub lines: Vec<Line>,
}

impl View for Document {
    type V = Seq<LineV>;

    open spec fn view(&self) -> Seq<LineV> {
        Seq::new(self.lines@.len(), |i: int| self.lines@[i]@)
    }
}

impl Document {
    /// Well-formedness: never empty, and every line well formed.
    pub open spec fn wf(self) -> bool {
        &&& self.lines@.len() >= 1
        &&& forall|i: int| 0 <= i < self.lines@.len() ==> #[trigger] self.lines@[i].wf()
    }

    /// A new document: a single empty line, as an empty source yields.
    pub fn new() -> (d: Document)
        ensures
            d.wf(),
            d@ == seq![empty_line_v()],
    {
        let mut lines: Vec<Line> = Vec::new();
        lines.push(Line::new_empty());
        let d = Document { lines };
        proof {
            assert(d@ =~= seq![empty_line_v()]);
        }
        d
    }

    /// A document from loaded lines.  An empty load yields the single empty
    /// line of a new document.
    pub fn from_lines(lines: Vec<Line>) -> (d: Document)
        requires
            forall|i: int| 0 <= i < lines@.len() ==> #[trigger] lines@[i].wf(),
        ensures
            d.wf(),
            lines@.len() == 0 ==> d@ == seq![empty_line_v()],
            lines@.len() > 0 ==> d@ == Seq::new(lines@.len(), |i: int| lines@[i]@),
    {
        if lines.len() == 0 {
            Document::new()
        } else {
            Document { lines }
        }
    }

    /// The number of logical lines.
    pub fn line_count(&self) -> (n: usize)
        ensures
            n == self@.len(),
    {
        self.lines.len()
    }

    /// The line at a logical line number; `OutOfRange` beyond the document.
    pub fn line_at(&self, index: usize) -> (r: Result<&Line, EditorError>)
        requires
            self.wf(),
        ensures
            index < self@.len() ==> (r matches Ok(l) && l@ == self@[index as int] && l.wf()),
            index >= self@.len() ==> (r matches Err(e) && e == EditorError::OutOfRange),
    {
        if index < self.lines.len() {
            Ok(&self.lines[index])
        } else {
            Err(EditorError::OutOfRange)
        }
    }

    /// Inserts a line at `index`, shifting subsequent line numbers up by
    /// one; used for the newline split.
    pub fn insert_line(&mut self, index: usize, line: Line)
        requires
            old(self).wf(),
            index <= old(self)@.len(),
            line.wf(),
        ensures
            final(self).wf(),
            final(self)@ == old(self)@.insert(index as int, line@),
    {
        let ghost old_view = self@;
        self.lines.insert(index, line);
        proof {
            assert(final(self)@ =~= old_view.insert(index as int, line@));
        }
    }

    /// Removes and returns the line at `index`, shifting subsequent line
    /// numbers down by one; used for the backspace merge.  The document
    /// must keep at least one line.
    pub fn remove_line(&mut self, index: usize) -> (r: Line)
        requires
            old(self).wf(),
            index < old(self)@.len(),
            old(self)@.len() >= 2,
        ensures
            final(self).wf(),
            final(self)@ == old(self)@.remove(index as int),
            r@ == old(self)@[index as int],
            r.wf(),
    {
        let ghost old_view = self@;
        let r = self.lines.remove(index);
        proof {
            assert(final(self)@ =~= old_view.remove(index as int));
        }
        r
    }

    /// The document's full text: the lines' raw text joined by `'\n'`, with
    /// no trailing newline after the last line; what a save writes.
    pub fn save_text(&self) -> (r: Vec<char>)
        requires
            self.wf(),
        ensures
            r@ == join_texts(self@),
    {
        let mut r: Vec<char> = Vec::new();
        let mut i: usize = 0;
        while i < self.lines.len()
            invariant
                self.wf(),
                i <= self@.len(),
                r@ == join_texts(self@.take(i as int)),
            decreases self@.len() - i,
        {
            if i > 0 {
                r.push('\n');
            }
            let line = &self.lines[i];
            let mut j: usize = 0;
            while j < line.text.len()
                invariant
                    self.wf(),
                    i < self@.len(),
                    line@ == self@[i as int],
                    j <= line.text@.len(),
                    i == 0 ==> r@ == join_texts(self@.take(i as int)) + line.text@.take(j as int),
                    i > 0 ==> r@ == join_texts(self@.take(i as int)) + seq!['\n']
                        + line.text@.take(j as int),
                decreases line.text@.len() - j,
            {
                r.push(line.text[j]);
                proof {
                    assert(line.text@.take(j + 1) =~= line.text@.take(j as int).push(
                        line.text@[j as int],
                    ));
                }
                j = j + 1;
            }
            proof {
                let t = self@.take(i + 1);
                assert(t.drop_last() =~= self@.take(i as int));
                assert(t.last() == self@[i as int]);
                assert(line.text@.take(j as int) =~= line.text@);
                if i == 0 {
                    assert(join_texts(t) == t[0].text);
                    assert(r@ =~= join_texts(self@.take(i + 1)));
                } else {
                    assert(join_texts(t) == join_texts(t.drop_last()) + seq!['\n'] + t.last().text);
                    assert(r@ =~= join_texts(self@.take(i + 1)));
                }
            }
            i = i + 1;
        }
        proof {
            assert(self@.take(self@.len() as int) =~= self@);
        }
        r
    }
}

} // verus!
