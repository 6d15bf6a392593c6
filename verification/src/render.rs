use vstd::prelude::*;

use crate::addressing::lemma_rows_upto_monotonic;
use crate::addressing::spec_rows_upto;
use crate::addressing::spec_total_rows;
use crate::document::Document;
use crate::layout::row_prefix_len;
use crate::line::LineV;

verus! {

/// One visual row to draw: the character span of its line's text, and the
/// ordinal of the screen row it occupies, counting every visual row of
/// every line above it.
#[derive(Clone, Copy, PartialEq, Eq, Structural, Debug)]
pub struct RowSpan {
    pub line: usize,
    pub start: usize,
    pub end: usize,
    pub y_rows: usize,
}

/// The spans of one line at line index `li`, its first visual row drawn at
/// screen row `y0`.
pub open spec fn spec_line_spans(l: LineV, li: int, y0: int) -> Seq<RowSpan> {
    Seq::new(
        l.rows.len(),
        |r: int|
            RowSpan {
                line: li as usize,
                start: row_prefix_len(l.rows, r) as usize,
                end: row_prefix_len(l.rows, r + 1) as usize,
                y_rows: (y0 + r) as usize,
            },
    )
}

/// The spans of the first `n` lines, in draw order.
pub open spec fn spec_spans_upto(d: Seq<LineV>, n: int) -> Seq<RowSpan>
    decreases n,
{
    if n <= 0 {
        Seq::empty()
    } else {
        spec_spans_upto(d, n - 1) + spec_line_spans(d[n - 1], n - 1, spec_rows_upto(d, n - 1))
    }
}

/// Every visual row of a document, in draw order.
pub open spec fn spec_spans(d: Seq<LineV>) -> Seq<RowSpan> {
    spec_spans_upto(d, d.len() as int)
}

impl Document {
    /// The ordered list of text spans a renderer draws: one span per
    /// visual row of every line, each with the screen row it occupies.
    /// The engine emits these layout facts; it does not draw.
    pub fn visual_spans(&self) -> (r: Vec<RowSpan>)
        requires
            self.wf(),
            spec_total_rows(self@) <= usize::MAX,
        ensures
            r@ == spec_spans(self@),
    {
        let mut out: Vec<RowSpan> = Vec::new();
        let mut y: usize = 0;
        let mut i: usize = 0;
        while i < self.lines.len()
            invariant
                self.wf(),
                spec_total_rows(self@) <= usize::MAX,
                i <= self@.len(),
                y as int == spec_rows_upto(self@, i as int),
                out@ == spec_spans_upto(self@, i as int),
            decreases self@.len() - i,
        {
            let ghost y0 = spec_rows_upto(self@, i as int);
            let line = &self.lines[i];
            let breaks = line.layout.breaks_vec();
            let nrows = line.layout.num_rows();
            let mut w: usize = 0;
            while w < nrows
                invariant
                    self.wf(),
                    spec_total_rows(self@) <= usize::MAX,
                    i < self@.len(),
                    line@ == self@[i as int],
                    line.wf(),
                    breaks@ == line.layout.breaks(),
                    nrows == line@.rows.len(),
                    y0 == spec_rows_upto(self@, i as int),
                    w <= nrows,
                    y as int == y0 + w,
                    out@ == spec_spans_upto(self@, i as int) + spec_line_spans(
                        line@,
                        i as int,
                        y0,
                    ).take(w as int),
                decreases nrows - w,
            {
                proof {
                    line.layout.lemma_break_is_prefix_sum(w as int);
                    line.layout.lemma_break_is_prefix_sum(w as int + 1);
                    lemma_rows_upto_monotonic(self@, i as int + 1, self@.len() as int);
                    assert(spec_rows_upto(self@, i as int + 1) == spec_rows_upto(self@, i as int)
                        + nrows);
                }
                let span = RowSpan { line: i, start: breaks[w], end: breaks[w + 1], y_rows: y };
                out.push(span);
                proof {
                    let ls = spec_line_spans(line@, i as int, y0);
                    assert(span == ls[w as int]);
                    assert(ls.take(w as int + 1) =~= ls.take(w as int).push(ls[w as int]));
                }
                y = y + 1;
                w = w + 1;
            }
            proof {
                let ls = spec_line_spans(line@, i as int, y0);
                assert(ls.take(nrows as int) =~= ls);
                assert(out@ =~= spec_spans_upto(self@, i as int + 1));
            }
            i = i + 1;
        }
        proof {
            assert(out@ =~= spec_spans(self@));
        }
        out
    }
}

/// The pixel y at which a screen row is drawn: its row ordinal at one
/// `font_scale` of pixels per row, shifted up by the pixel scroll and down
/// by the top margin's height.
pub fn row_pixel_y(y_rows: usize, font_scale: u32, scroll: i64, margin: u32) -> (y: i64)
    requires
        1 <= font_scale,
        y_rows * font_scale <= i64::MAX,
        y_rows * font_scale - scroll + margin <= i64::MAX,
    ensures
        y as int == y_rows * font_scale - scroll + margin,
{
    proof {
        assert(0 <= (y_rows as int) * (font_scale as int)) by (nonlinear_arith)
            requires
                y_rows as int >= 0,
                font_scale as int >= 0,
        ;
        assert(y_rows as int <= (y_rows as int) * (font_scale as int)) by (nonlinear_arith)
            requires
                y_rows as int >= 0,
                font_scale as int >= 1,
        ;
    }
    ((y_rows as i64) * (font_scale as i64)) - scroll + (margin as i64)
}

} // verus!
