use vstd::prelude::*;

use crate::layout::Glyph;
use crate::layout::LineLayout;
use crate::layout::row_len_sum;
use crate::layout::rows_shape_ok;

verus! {

/// The abstract value of a [`Line`]: its text and its glyph rows.  The break
/// offsets are not part of the view — a well-formed layout determines them
/// from the rows.
#[verifier::ext_equal]
pub struct LineV {
    pub text: Seq<char>,
    pub rows: Seq<Seq<Glyph>>,
}

/// The view of a well-formed line: at least one row, no empty row apart
/// from the single row of empty text, and exactly one glyph per character.
pub open spec fn line_v_wf(l: LineV) -> bool {
    &&& l.rows.len() >= 1
    &&& rows_shape_ok(l.rows)
    &&& row_len_sum(l.rows) == l.text.len()
}

/// The view of an empty line: no text, one empty visual row.
pub open spec fn empty_line_v() -> LineV {
    LineV { text: Seq::empty(), rows: seq![Seq::<Glyph>::empty()] }
}

/// One logical line: its text as Unicode scalar values, and the wrapped
/// visual layout derived from that text.  The constructors and the edit
/// operations replace text and layout together, so a caller never observes
/// text whose layout is stale.
pub struct Line {
    pub text: Vec<char>,
    pub layout: LineLayout,
}

impl View for Line {
    type V = LineV;

    open spec fn view(&self) -> LineV {
        LineV { text: self.text@, rows: self.layout.rows() }
    }
}

impl Line {
    /// Well-formedness: the layout is well formed and covers exactly this
    /// line's characters.
    pub open spec fn wf(self) -> bool {
        &&& self.layout.wf()
        &&& self.layout.total() == self.text@.len()
    }

    /// Pairs text with a layout, provided the layout covers exactly the
    /// text's characters; rejects a layout of any other length.
    pub fn new(text: Vec<char>, layout: LineLayout) -> (r: Option<Line>)
        requires
            layout.wf(),
        ensures
            r is Some <==> layout.total() == text@.len(),
            r matches Some(l) ==> {
                &&& l.wf()
                &&& l@ == (LineV { text: text@, rows: layout.rows() })
            },
    {
        let total = layout.total_chars();
        if total == text.len() {
            Some(Line { text, layout })
        } else {
            None
        }
    }

    /// An empty line: no text, one empty visual row.
    pub fn new_empty() -> (r: Line)
        ensures
            r.wf(),
            r@ == empty_line_v(),
    {
        let r = Line { text: Vec::new(), layout: LineLayout::empty() };
        proof {
            assert(r@.text =~= empty_line_v().text);
            assert(r@ =~= empty_line_v());
        }
        r
    }

    /// Replaces this line's layout after a reshape, provided the new layout
    /// covers exactly this line's characters; leaves the line unchanged and
    /// reports failure otherwise.
    pub fn calculate(&mut self, layout: LineLayout) -> (ok: bool)
        requires
            old(self).wf(),
            layout.wf(),
        ensures
            final(self).wf(),
            ok <==> layout.total() == old(self)@.text.len(),
            ok ==> final(self)@ == (LineV { text: old(self)@.text, rows: layout.rows() }),
            !ok ==> *final(self) == *old(self),
    {
        let total = layout.total_chars();
        if total == self.text.len() {
            self.layout = layout;
            true
        } else {
            false
        }
    }

    /// The line's text.
    pub fn text(&self) -> (r: &Vec<char>)
        ensures
            r@ == self@.text,
    {
        &self.text
    }

    /// The number of characters in the line.
    pub fn text_len(&self) -> (n: usize)
        ensures
            n == self@.text.len(),
    {
        self.text.len()
    }

    /// The number of visual rows of the line.
    pub fn num_rows(&self) -> (n: usize)
        ensures
            n == self@.rows.len(),
    {
        self.layout.num_rows()
    }

    /// A well-formed line is well formed in its view too.
    pub proof fn lemma_view_wf(self)
        requires
            self.wf(),
        ensures
            line_v_wf(self@),
    {
        self.layout.lemma_total_is_row_len_sum();
    }

    /// The break offsets of a line start at zero, end at the text length,
    /// and — except for the single `[0, 0]` pair of an empty line —
    /// strictly increase.
    pub proof fn lemma_wrap_breaks(self)
        requires
            self.wf(),
        ensures
            self.layout.breaks()[0] == 0,
            self.layout.breaks().last() as int == self@.text.len(),
            forall|i: int|
                0 <= i < self@.rows.len() ==> #[trigger] self.layout.breaks()[i]
                    <= self.layout.breaks()[i + 1],
            self@.text.len() > 0 ==> forall|i: int|
                0 <= i < self@.rows.len() ==> #[trigger] self.layout.breaks()[i]
                    < self.layout.breaks()[i + 1],
    {
        self.layout.lemma_breaks_well_formed();
    }

    /// The glyph rows of a line partition its text: their lengths sum to
    /// the text length.
    pub proof fn lemma_rows_partition_text(self)
        requires
            self.wf(),
        ensures
            row_len_sum(self@.rows) == self@.text.len(),
    {
        self.layout.lemma_total_is_row_len_sum();
    }
}

} // verus!
