use vstd::prelude::*;

use crate::cursor::Cursor;
use crate::cursor::CursorPos;
use crate::document::Document;
use crate::error::EditorError;
use crate::layout::Glyph;
use crate::layout::lemma_row_prefix_len_monotonic;
use crate::layout::row_len_sum;
use crate::layout::row_prefix_len;
use crate::line::Line;
use crate::line::LineV;
use crate::rect::PxRect;

verus! {

/// The caret width used when the cursor sits past the last character and
/// there is no glyph to measure.
pub const FALLBACK_CARET_WIDTH: u32 = 8;

/// A caret placement in pixels: x position, y position, and caret width.
#[derive(Clone, Copy, PartialEq, Eq, Structural, Debug)]
pub struct CaretPos {
    pub x: i64,
    pub y: i64,
    pub width: u32,
}

/// The x position just past the glyphs of one visual row: the right edge
/// of its last glyph, or the row's start if it is empty.
pub open spec fn spec_row_end_x(row: Seq<Glyph>) -> int {
    if row.len() == 0 {
        0
    } else {
        row.last().x + row.last().width
    }
}

/// The caret placement within a line's rows for a column that addresses a
/// glyph: that glyph's x position and width, on its row's y line, `fs`
/// pixels per row.
pub open spec fn spec_locate_in_rows(rows: Seq<Seq<Glyph>>, col: int, fs: int) -> (int, int, u32)
    decreases rows.len(),
{
    if rows.len() == 0 {
        (0, 0, 0)
    } else if col < rows[0].len() {
        (rows[0][col].x as int, 0, rows[0][col].width)
    } else {
        let rec = spec_locate_in_rows(rows.skip(1), col - rows[0].len(), fs);
        (rec.0, rec.1 + fs, rec.2)
    }
}

/// The caret placement after a line's last character: just past the right
/// edge of the last glyph on the last visual row, with the fallback caret
/// width.
pub open spec fn spec_line_end(rows: Seq<Seq<Glyph>>, fs: int) -> (int, int, u32) {
    (spec_row_end_x(rows.last()), (rows.len() - 1) * fs, FALLBACK_CARET_WIDTH)
}

/// The caret placement for column `col` of a line, relative to the line's
/// own top: a glyph's position while `col` addresses a glyph, the line-end
/// placement at `col == text.len()`.
pub open spec fn spec_locate(l: LineV, col: int, fs: int) -> (int, int, u32) {
    if col < l.text.len() {
        spec_locate_in_rows(l.rows, col, fs)
    } else {
        spec_line_end(l.rows, fs)
    }
}

/// The visual row a column falls in: the unique row whose character span
/// contains it.
pub open spec fn spec_row_of(rows: Seq<Seq<Glyph>>, col: int) -> int
    decreases rows.len(),
{
    if rows.len() <= 1 {
        0
    } else if col < rows[0].len() {
        0
    } else {
        1 + spec_row_of(rows.skip(1), col - rows[0].len())
    }
}

/// Prefix glyph counts of the rows after the first, shifted by the first
/// row's count.
proof fn lemma_row_prefix_len_skip(rows: Seq<Seq<Glyph>>, n: int)
    requires
        rows.len() >= 1,
        0 <= n <= rows.len() - 1,
    ensures
        row_prefix_len(rows.skip(1), n) == row_prefix_len(rows, n + 1) - rows[0].len(),
    decreases n,
{
    if n > 0 {
        lemma_row_prefix_len_skip(rows, n - 1);
        assert(rows.skip(1)[n - 1] == rows[n]);
        assert(row_prefix_len(rows.skip(1), n) == row_prefix_len(rows.skip(1), n - 1) + rows.skip(
            1,
        )[n - 1].len());
        assert(row_prefix_len(rows, n + 1) == row_prefix_len(rows, n) + rows[n].len());
    } else {
        assert(row_prefix_len(rows.skip(1), 0) == 0);
        assert(row_prefix_len(rows, 0) == 0);
        assert(row_prefix_len(rows, 1) == row_prefix_len(rows, 0) + rows[0].len());
    }
}

/// The in-rows placement of a column that falls in row `r` is that row's
/// glyph at the column's offset within the row, `r` rows down.
proof fn lemma_locate_at_row(rows: Seq<Seq<Glyph>>, col: int, fs: int, r: int)
    requires
        0 <= r < rows.len(),
        row_prefix_len(rows, r) <= col < row_prefix_len(rows, r) + rows[r].len(),
    ensures
        spec_locate_in_rows(rows, col, fs) == (
            rows[r][col - row_prefix_len(rows, r)].x as int,
            r * fs,
            rows[r][col - row_prefix_len(rows, r)].width,
        ),
    decreases r,
{
    if r == 0 {
        assert(row_prefix_len(rows, 0) == 0);
    } else {
        assert(row_prefix_len(rows, 1) == row_prefix_len(rows, 0) + rows[0].len());
        assert(row_prefix_len(rows, 0) == 0);
        lemma_row_prefix_len_monotonic(rows, 1, r);
        lemma_row_prefix_len_skip(rows, r - 1);
        assert(rows.skip(1)[r - 1] == rows[r]);
        lemma_locate_at_row(rows.skip(1), col - rows[0].len(), fs, r - 1);
        assert((r - 1) * fs + fs == r * fs) by (nonlinear_arith);
        assert(col - rows[0].len() - row_prefix_len(rows.skip(1), r - 1) == col - row_prefix_len(
            rows,
            r,
        ));
    }
}

/// A column that falls in row `r` has `spec_row_of` equal to `r`.
proof fn lemma_row_of_at(rows: Seq<Seq<Glyph>>, col: int, r: int)
    requires
        0 <= r < rows.len(),
        row_prefix_len(rows, r) <= col < row_prefix_len(rows, r) + rows[r].len(),
    ensures
        spec_row_of(rows, col) == r,
    decreases r,
{
    if r == 0 {
    } else {
        lemma_row_prefix_len_monotonic(rows, 1, r);
        lemma_row_prefix_len_skip(rows, r - 1);
        assert(rows.skip(1)[r - 1] == rows[r]);
        lemma_row_of_at(rows.skip(1), col - rows[0].len(), r - 1);
    }
}

/// The y of an in-rows placement lies between the first and the last row's
/// y line.
proof fn lemma_locate_in_rows_y_bounds(rows: Seq<Seq<Glyph>>, col: int, fs: int)
    requires
        rows.len() >= 1,
        0 <= col < row_len_sum(rows),
        fs >= 0,
    ensures
        0 <= spec_locate_in_rows(rows, col, fs).1 <= (rows.len() - 1) * fs,
    decreases rows.len(),
{
    assert(row_len_sum(rows) == row_prefix_len(rows, rows.len() as int));
    if col < rows[0].len() {
        assert((rows.len() - 1) * fs >= 0) by (nonlinear_arith)
            requires
                rows.len() >= 1,
                fs >= 0,
        ;
    } else {
        lemma_row_prefix_len_skip(rows, rows.len() - 1);
        assert(row_len_sum(rows.skip(1)) == row_len_sum(rows) - rows[0].len());
        assert(rows.skip(1).len() >= 1);
        lemma_locate_in_rows_y_bounds(rows.skip(1), col - rows[0].len(), fs);
        assert((rows.len() - 2) * fs + fs == (rows.len() - 1) * fs) by (nonlinear_arith);
    }
}

/// Addressing the column just past a line's text lands the caret at or
/// past the right edge of the last glyph on the last visual row, with the
/// fallback caret width; the rest of the line-end property — that the
/// lookup succeeds — is the `Ok` case of [`Document::locate`]'s contract.
pub proof fn lemma_locate_line_end(l: LineV, fs: int)
    requires
        l.rows.len() >= 1,
    ensures
        l.rows.last().len() > 0 ==> spec_locate(l, l.text.len() as int, fs).0 >= l.rows.last().last().x
            + l.rows.last().last().width,
        spec_locate(l, l.text.len() as int, fs).2 == FALLBACK_CARET_WIDTH,
{
}

impl Line {
    /// The caret placement for a column of this line, relative to the
    /// line's own top, one `font_scale` of pixels per visual row: the
    /// column's glyph position while the column addresses a glyph, and
    /// just past the last row's last glyph at the column one beyond the
    /// text.  A column further out is a contract violation and reports
    /// `InvalidCursorPosition`.
    pub fn locate(&self, col: usize, font_scale: u32) -> (r: Result<CaretPos, EditorError>)
        requires
            self.wf(),
            1 <= font_scale,
            self@.rows.len() * font_scale <= i64::MAX,
        ensures
            col <= self@.text.len() ==> (r matches Ok(p) && (p.x as int, p.y as int, p.width)
                == spec_locate(self@, col as int, font_scale as int)),
            col > self@.text.len() ==> (r matches Err(e) && e
                == EditorError::InvalidCursorPosition),
    {
        let ghost rows_v = self@.rows;
        let ghost fs = font_scale as int;
        let rows_n = self.layout.num_rows();
        proof {
            self.layout.lemma_total_is_row_len_sum();
        }
        let mut x: usize = 0;
        let mut row: usize = 0;
        let mut last_x_px: i64 = 0;
        while row < rows_n
            invariant
                self.wf(),
                rows_v == self@.rows,
                fs == font_scale as int,
                1 <= font_scale,
                rows_n == rows_v.len(),
                rows_v.len() * font_scale <= i64::MAX,
                row_len_sum(rows_v) == self@.text.len(),
                row <= rows_n,
                x as int == row_prefix_len(rows_v, row as int),
                x <= col,
                row > 0 ==> last_x_px as int == spec_row_end_x(rows_v[row as int - 1]),
            decreases rows_n - row,
        {
            let row_glyphs = self.layout.row(row);
            last_x_px = 0;
            let mut j: usize = 0;
            while j < row_glyphs.len()
                invariant
                    self.wf(),
                    rows_v == self@.rows,
                    fs == font_scale as int,
                    1 <= font_scale,
                    rows_n == rows_v.len(),
                    rows_v.len() * font_scale <= i64::MAX,
                    row_len_sum(rows_v) == self@.text.len(),
                    row < rows_n,
                    row_glyphs@ == rows_v[row as int],
                    j <= row_glyphs@.len(),
                    x as int == row_prefix_len(rows_v, row as int) + j,
                    x <= col,
                    j > 0 ==> last_x_px as int == rows_v[row as int][j as int - 1].x
                        + rows_v[row as int][j as int - 1].width,
                    j == 0 ==> last_x_px == 0,
                decreases row_glyphs@.len() - j,
            {
                let g = row_glyphs[j];
                if x == col {
                    proof {
                        lemma_locate_at_row(rows_v, col as int, fs, row as int);
                        lemma_row_prefix_len_monotonic(rows_v, row as int + 1, rows_v.len() as int);
                        assert(0 <= (row as int) * fs <= (rows_n as int) * fs) by (nonlinear_arith)
                            requires
                                0 <= row as int <= rows_n as int,
                                fs >= 0,
                        ;
                        assert(rows_n as int <= (rows_n as int) * fs) by (nonlinear_arith)
                            requires
                                fs >= 1,
                                rows_n as int >= 0,
                        ;
                    }
                    let y = (row as i64) * (font_scale as i64);
                    return Ok(CaretPos { x: g.x as i64, y, width: g.width });
                }
                last_x_px = (g.x as i64) + (g.width as i64);
                proof {
                    lemma_row_prefix_len_monotonic(rows_v, row as int + 1, rows_v.len() as int);
                }
                x = x + 1;
                j = j + 1;
            }
            row = row + 1;
        }
        if x == col {
            proof {
                assert(rows_n >= 1);
                assert(col == row_len_sum(rows_v));
                assert(rows_v[rows_n as int - 1] == rows_v.last());
                assert(0 <= (rows_n as int - 1) * fs <= (rows_n as int) * fs) by (nonlinear_arith)
                    requires
                        1 <= rows_n as int,
                        fs >= 0,
                ;
                assert(rows_n as int <= (rows_n as int) * fs) by (nonlinear_arith)
                    requires
                        fs >= 1,
                        rows_n as int >= 0,
                ;
            }
            let y = ((rows_n - 1) as i64) * (font_scale as i64);
            return Ok(CaretPos { x: last_x_px, y, width: FALLBACK_CARET_WIDTH });
        }
        Err(EditorError::InvalidCursorPosition)
    }
}

/// The visual rows of the first `n` lines of a document.
pub open spec fn spec_rows_upto(d: Seq<LineV>, n: int) -> int
    decreases n,
{
    if n <= 0 {
        0
    } else {
        spec_rows_upto(d, n - 1) + d[n - 1].rows.len()
    }
}

/// The visual rows of the whole document.
pub open spec fn spec_total_rows(d: Seq<LineV>) -> int {
    spec_rows_upto(d, d.len() as int)
}

/// Prefix row counts never decrease as the prefix grows.
pub proof fn lemma_rows_upto_monotonic(d: Seq<LineV>, m: int, n: int)
    requires
        0 <= m <= n,
    ensures
        spec_rows_upto(d, m) <= spec_rows_upto(d, n),
    decreases n - m,
{
    if m < n {
        lemma_rows_upto_monotonic(d, m, n - 1);
    }
}

/// The caret placement for a position in a document: the position's
/// placement within its line, pushed down by one `fs` of pixels for every
/// visual row of every line above it.
pub open spec fn spec_locate_doc(d: Seq<LineV>, pos: CursorPos, fs: int) -> (int, int, u32) {
    let rel = spec_locate(d[pos.line as int], pos.col as int, fs);
    (rel.0, rel.1 + spec_rows_upto(d, pos.line as int) * fs, rel.2)
}

impl Document {
    /// The number of visual rows of all lines before `line`; the row
    /// offset at which that line is drawn.
    pub fn rows_before(&self, line: usize) -> (n: usize)
        requires
            self.wf(),
            line <= self@.len(),
            spec_total_rows(self@) <= usize::MAX,
        ensures
            n as int == spec_rows_upto(self@, line as int),
    {
        let mut acc: usize = 0;
        let mut i: usize = 0;
        while i < line
            invariant
                self.wf(),
                line <= self@.len(),
                spec_total_rows(self@) <= usize::MAX,
                i <= line,
                acc as int == spec_rows_upto(self@, i as int),
            decreases line - i,
        {
            let k = self.lines[i].num_rows();
            proof {
                assert(self.lines@[i as int]@ == self@[i as int]);
                lemma_rows_upto_monotonic(self@, i as int + 1, self@.len() as int);
            }
            acc = acc + k;
            i = i + 1;
        }
        acc
    }

    /// The caret placement for a logical position: its line's placement
    /// pushed down by the visual rows of all preceding lines.  A line
    /// beyond the document reports `OutOfRange`; a column beyond its line
    /// reports `InvalidCursorPosition`; every position a caller has
    /// clamped — the column at the line length included — succeeds.
    pub fn locate(&self, pos: CursorPos, font_scale: u32) -> (r: Result<CaretPos, EditorError>)
        requires
            self.wf(),
            1 <= font_scale,
            spec_total_rows(self@) <= usize::MAX,
            spec_total_rows(self@) * font_scale <= i64::MAX,
        ensures
            pos.line < self@.len() && pos.col <= self@[pos.line as int].text.len() ==> (r matches Ok(
                p,
            ) && (p.x as int, p.y as int, p.width) == spec_locate_doc(
                self@,
                pos,
                font_scale as int,
            ) && 0 <= p.y as int <= spec_total_rows(self@) * font_scale),
            pos.line < self@.len() && pos.col > self@[pos.line as int].text.len() ==> (r matches Err(
                e,
            ) && e == EditorError::InvalidCursorPosition),
            pos.line >= self@.len() ==> (r matches Err(e) && e == EditorError::OutOfRange),
    {
        let ghost d = self@;
        let ghost fs = font_scale as int;
        if pos.line >= self.lines.len() {
            return Err(EditorError::OutOfRange);
        }
        let y_rows = self.rows_before(pos.line);
        let line = &self.lines[pos.line];
        proof {
            assert(self.lines@[pos.line as int].wf());
            assert(line@ == d[pos.line as int]);
            assert(line@.rows.len() >= 1);
            lemma_rows_upto_monotonic(d, pos.line as int + 1, d.len() as int);
            assert(spec_rows_upto(d, pos.line as int + 1) == spec_rows_upto(d, pos.line as int)
                + line@.rows.len());
            assert(line@.rows.len() * font_scale <= i64::MAX) by (nonlinear_arith)
                requires
                    line@.rows.len() + spec_rows_upto(d, pos.line as int) <= spec_total_rows(d),
                    spec_rows_upto(d, pos.line as int) >= 0,
                    spec_total_rows(d) * font_scale <= i64::MAX,
                    font_scale >= 1,
                    line@.rows.len() >= 0,
            ;
        }
        match line.locate(pos.col, font_scale) {
            Err(e) => Err(e),
            Ok(p) => {
                proof {
                    let rel = spec_locate(line@, pos.col as int, fs);
                    if pos.col < line@.text.len() {
                        line.lemma_view_wf();
                        lemma_locate_in_rows_y_bounds(line@.rows, pos.col as int, fs);
                    } else {
                        assert(rel.1 == (line@.rows.len() - 1) * fs);
                        assert(0 <= (line@.rows.len() - 1) * fs <= line@.rows.len() * fs)
                            by (nonlinear_arith)
                            requires
                                line@.rows.len() >= 1,
                                fs >= 0,
                        ;
                    }
                    assert(0 <= rel.1 <= (line@.rows.len() - 1) * fs);
                    assert((line@.rows.len() - 1) * fs + spec_rows_upto(d, pos.line as int) * fs
                        <= spec_total_rows(d) * fs && 0 <= spec_rows_upto(d, pos.line as int) * fs
                        && spec_rows_upto(d, pos.line as int) * fs <= spec_total_rows(d) * fs)
                        by (nonlinear_arith)
                        requires
                            line@.rows.len() + spec_rows_upto(d, pos.line as int)
                                <= spec_total_rows(d),
                            spec_rows_upto(d, pos.line as int) >= 0,
                            line@.rows.len() >= 1,
                            fs >= 0,
                    ;
                    assert(y_rows as int * fs == spec_rows_upto(d, pos.line as int) * fs);
                    assert(y_rows as int <= y_rows as int * fs) by (nonlinear_arith)
                        requires
                            fs >= 1,
                            y_rows as int >= 0,
                    ;
                }
                let y = p.y + (y_rows as i64) * (font_scale as i64);
                Ok(CaretPos { x: p.x, y, width: p.width })
            },
        }
    }

    /// The caret rectangle for a logical position, shifted up by a pixel
    /// scroll: the located placement with the caret's height equal to the
    /// font scale.  Errors as [`Document::locate`] does.
    pub fn caret_rect(&self, pos: CursorPos, font_scale: u32, scroll: i64) -> (r: Result<
        PxRect,
        EditorError,
    >)
        requires
            self.wf(),
            1 <= font_scale,
            spec_total_rows(self@) <= usize::MAX,
            spec_total_rows(self@) * font_scale <= i64::MAX,
            spec_total_rows(self@) * font_scale - scroll <= i64::MAX,
        ensures
            pos.line < self@.len() && pos.col <= self@[pos.line as int].text.len() ==> (r matches Ok(
                c,
            ) && {
                let loc = spec_locate_doc(self@, pos, font_scale as int);
                &&& c.x as int == loc.0
                &&& c.y as int == loc.1 - scroll
                &&& c.w == loc.2
                &&& c.h == font_scale
                &&& c.offset_x == 0
                &&& c.offset_y == 0
            }),
            pos.line < self@.len() && pos.col > self@[pos.line as int].text.len() ==> (r matches Err(
                e,
            ) && e == EditorError::InvalidCursorPosition),
            pos.line >= self@.len() ==> (r matches Err(e) && e == EditorError::OutOfRange),
    {
        match self.locate(pos, font_scale) {
            Err(e) => Err(e),
            Ok(p) => {
                let y = p.y - scroll;
                Ok(PxRect {
                    x: p.x,
                    y,
                    w: p.width,
                    h: font_scale,
                    offset_x: 0,
                    offset_y: 0,
                })
            },
        }
    }
}

impl Cursor {
    /// The text of the visual row this cursor's column falls in, given the
    /// cursor's line: the slice of the line's text between the breaks
    /// around the column.  A column hanging past the end of the line is in
    /// no row.
    pub fn get_cursor_inline(&self, line: &Line) -> (r: Option<Vec<char>>)
        requires
            line.wf(),
        ensures
            r is Some <==> self.pos.col < line@.text.len(),
            r matches Some(t) ==> {
                let ro = spec_row_of(line@.rows, self.pos.col as int);
                t@ == line@.text.subrange(
                    row_prefix_len(line@.rows, ro),
                    row_prefix_len(line@.rows, ro + 1),
                )
            },
    {
        let ghost rows_v = line@.rows;
        let ghost col = self.pos.col as int;
        proof {
            line.layout.lemma_total_is_row_len_sum();
        }
        let breaks = line.layout.breaks_vec();
        let mut i: usize = 0;
        while i < breaks.len()
            invariant
                line.wf(),
                rows_v == line@.rows,
                col == self.pos.col as int,
                breaks@ == line.layout.breaks(),
                row_len_sum(rows_v) == line@.text.len(),
                i <= breaks@.len(),
                forall|k: int| 0 <= k < i ==> #[trigger] breaks@[k] <= self.pos.col,
            decreases breaks@.len() - i,
        {
            if self.pos.col < breaks[i] {
                proof {
                    assert(breaks@[0] == 0);
                    assert(i > 0);
                    line.layout.lemma_break_is_prefix_sum(i as int - 1);
                    line.layout.lemma_break_is_prefix_sum(i as int);
                    assert(i as int <= rows_v.len());
                    lemma_row_of_at(rows_v, col, i as int - 1);
                    lemma_row_prefix_len_monotonic(rows_v, i as int, rows_v.len() as int);
                }
                let start = breaks[i - 1];
                let end = breaks[i];
                let mut out: Vec<char> = Vec::new();
                let mut k = start;
                while k < end
                    invariant
                        line.wf(),
                        start <= k <= end,
                        end <= line.text@.len(),
                        out@ == line.text@.subrange(start as int, k as int),
                    decreases end - k,
                {
                    out.push(line.text[k]);
                    proof {
                        assert(line.text@.subrange(start as int, k + 1) =~= line.text@.subrange(
                            start as int,
                            k as int,
                        ).push(line.text@[k as int]));
                    }
                    k = k + 1;
                }
                return Some(out);
            }
            i = i + 1;
        }
        proof {
            assert(breaks@[breaks@.len() - 1] <= self.pos.col);
        }
        None
    }
}

} // verus!
