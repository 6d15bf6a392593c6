use vstd::prelude::*;

verus! {

/// One shaped glyph: its horizontal pixel position within its visual row and
/// the pixel width of its bounding box.  Positions are row-local: every
/// visual row is laid out starting at x = 0.
#[derive(Clone, Copy, PartialEq, Eq, Structural, Debug)]
pub struct Glyph {
    pub x: u32,
    pub width: u32,
}

/// Number of glyphs in the first `n` rows.
pub open spec fn row_prefix_len(rows: Seq<Seq<Glyph>>, n: int) -> int
    decreases n,
{
    if n <= 0 {
        0
    } else {
        row_prefix_len(rows, n - 1) + rows[n - 1].len()
    }
}

/// Number of glyphs over all rows.
pub open spec fn row_len_sum(rows: Seq<Seq<Glyph>>) -> int {
    row_prefix_len(rows, rows.len() as int)
}

/// Every visual row holds at least one glyph, except that empty text is
/// represented by exactly one empty row.
pub open spec fn rows_shape_ok(rows: Seq<Seq<Glyph>>) -> bool {
    ||| forall|i: int| 0 <= i < rows.len() ==> #[trigger] rows[i].len() > 0
    ||| (rows.len() == 1 && rows[0].len() == 0)
}

/// Rows a caller may hand to [`LineLayout::from_rows`]: no empty rows, and a
/// glyph count that fits the break offsets.
pub open spec fn rows_acceptable(rows: Seq<Seq<Glyph>>) -> bool {
    &&& forall|i: int| 0 <= i < rows.len() ==> #[trigger] rows[i].len() > 0
    &&& row_len_sum(rows) <= usize::MAX
}

/// The wrapped layout of one logical line: the glyph rows the shaper
/// produced, paired with the break offsets that partition the line's text
/// into visual rows.  Row `i` covers the character span
/// `breaks[i] .. breaks[i + 1]`.  The constructors produce the two fields
/// together, and [`LineLayout::wf`] ties them to each other; every function
/// that consumes a layout demands it.
pub struct LineLayout {
    pub rows: Vec<Vec<Glyph>>,
    pub breaks: Vec<usize>,
}

impl LineLayout {
    /// The glyph rows, one sequence of glyphs per visual row.
    pub open spec fn rows(self) -> Seq<Seq<Glyph>> {
        Seq::new(self.rows@.len(), |i: int| self.rows@[i]@)
    }

    /// The break offsets partitioning the text into visual rows.
    pub open spec fn breaks(self) -> Seq<usize> {
        self.breaks@
    }

    /// The number of characters this layout covers.
    pub open spec fn total(self) -> int {
        self.breaks@.last() as int
    }

    /// Well-formedness: at least one row, one more break than rows, a
    /// leading break of zero, each break advancing by its row's glyph
    /// count, and no empty row apart from the single row of empty text.
    pub open spec fn wf(self) -> bool {
        &&& self.rows@.len() >= 1
        &&& self.breaks@.len() == self.rows@.len() + 1
        &&& self.breaks@[0] == 0
        &&& forall|i: int|
            1 <= i <= self.rows@.len() ==> #[trigger] self.breaks@[i] as int == self.breaks@[i - 1]
                as int + self.rows@[i - 1]@.len()
        &&& rows_shape_ok(self.rows())
    }

    /// The layout of empty text: one empty visual row, breaks `[0, 0]`.
    pub fn empty() -> (r: LineLayout)
        ensures
            r.wf(),
            r.total() == 0,
            r.rows() == seq![Seq::<Glyph>::empty()],
    {
        let mut rows: Vec<Vec<Glyph>> = Vec::new();
        rows.push(Vec::new());
        let mut breaks: Vec<usize> = Vec::new();
        breaks.push(0);
        breaks.push(0);
        let r = LineLayout { rows, breaks };
        proof {
            assert(r.rows() =~= seq![Seq::<Glyph>::empty()]);
        }
        r
    }

    /// Builds a layout from shaped rows, deriving the break offsets.  Empty
    /// input stands for empty text and yields the single empty row.  Rows
    /// containing an empty row (other than that case), or holding more
    /// glyphs than a break offset can count, are rejected.
    pub fn from_rows(rows: Vec<Vec<Glyph>>) -> (r: Option<LineLayout>)
        ensures
            r is Some <==> rows_acceptable(Self::rows_view(rows)),
            r matches Some(l) ==> {
                &&& l.wf()
                &&& rows@.len() == 0 ==> l.rows() == seq![Seq::<Glyph>::empty()]
                &&& rows@.len() > 0 ==> l.rows() == Self::rows_view(rows)
                &&& l.total() == row_len_sum(Self::rows_view(rows))
            },
    {
        let ghost rv = Self::rows_view(rows);
        if rows.len() == 0 {
            proof {
                assert(row_prefix_len(rv, 0) == 0);
            }
            return Some(LineLayout::empty());
        }
        let mut breaks: Vec<usize> = Vec::new();
        breaks.push(0);
        let mut acc: usize = 0;
        let mut i: usize = 0;
        while i < rows.len()
            invariant
                i <= rows@.len(),
                rv == Self::rows_view(rows),
                breaks@.len() == i + 1,
                breaks@[0] == 0,
                forall|j: int|
                    1 <= j <= i ==> #[trigger] breaks@[j] as int == breaks@[j - 1] as int
                        + rows@[j - 1]@.len(),
                acc as int == row_prefix_len(rv, i as int),
                breaks@[i as int] == acc,
                forall|j: int| 0 <= j < i ==> #[trigger] rv[j].len() > 0,
            decreases rows@.len() - i,
        {
            let row_len = rows[i].len();
            if row_len == 0 {
                proof {
                    assert(rv[i as int].len() == 0);
                }
                return None;
            }
            if row_len > usize::MAX - acc {
                proof {
                    assert(rv[i as int] == rows@[i as int]@);
                    assert(row_prefix_len(rv, i as int + 1) == acc + row_len);
                    lemma_row_prefix_len_monotonic(rv, i as int + 1, rv.len() as int);
                }
                return None;
            }
            acc = acc + row_len;
            breaks.push(acc);
            i = i + 1;
        }
        let r = LineLayout { rows, breaks };
        proof {
            assert(r.rows() =~= rv);
            assert(rows_shape_ok(r.rows()));
        }
        Some(r)
    }

    /// The glyph rows of an executable vector of rows, as a sequence of
    /// sequences.
    pub open spec fn rows_view(rows: Vec<Vec<Glyph>>) -> Seq<Seq<Glyph>> {
        Seq::new(rows@.len(), |i: int| rows@[i]@)
    }

    /// The number of characters this layout covers.
    pub fn total_chars(&self) -> (n: usize)
        requires
            self.wf(),
        ensures
            n as int == self.total(),
    {
        self.breaks[self.breaks.len() - 1]
    }

    /// The number of visual rows.
    pub fn num_rows(&self) -> (n: usize)
        ensures
            n == self.rows().len(),
    {
        self.rows.len()
    }

    /// The glyphs of visual row `i`.
    pub fn row(&self, i: usize) -> (r: &Vec<Glyph>)
        requires
            i < self.rows().len(),
        ensures
            r@ == self.rows()[i as int],
    {
        &self.rows[i]
    }

    /// The break offsets as a vector, for callers that scan them.
    pub fn breaks_vec(&self) -> (r: &Vec<usize>)
        ensures
            r@ == self.breaks(),
    {
        &self.breaks
    }

    /// Each break offset is the glyph count of the rows before it.
    pub proof fn lemma_break_is_prefix_sum(self, i: int)
        requires
            self.wf(),
            0 <= i <= self.rows().len(),
        ensures
            self.breaks()[i] as int == row_prefix_len(self.rows(), i),
        decreases i,
    {
        if i > 0 {
            self.lemma_break_is_prefix_sum(i - 1);
            assert(self.breaks@[i] as int == self.breaks@[i - 1] as int + self.rows@[i - 1]@.len());
            assert(self.rows()[i - 1] == self.rows@[i - 1]@);
        }
    }

    /// The layout's character count is the glyph count of all its rows.
    pub proof fn lemma_total_is_row_len_sum(self)
        requires
            self.wf(),
        ensures
            self.total() == row_len_sum(self.rows()),
    {
        self.lemma_break_is_prefix_sum(self.rows().len() as int);
    }

    /// The break offsets start at zero, end at the layout's character
    /// count, never decrease, and — except for the single `[0, 0]` pair of
    /// empty text — strictly increase.
    pub proof fn lemma_breaks_well_formed(self)
        requires
            self.wf(),
        ensures
            self.breaks()[0] == 0,
            self.breaks().last() as int == self.total(),
            forall|i: int|
                0 <= i < self.rows().len() ==> #[trigger] self.breaks()[i] <= self.breaks()[i + 1],
            self.total() > 0 ==> forall|i: int|
                0 <= i < self.rows().len() ==> #[trigger] self.breaks()[i] < self.breaks()[i + 1],
    {
        if self.total() > 0 {
            assert forall|i: int|
                0 <= i < self.rows().len() implies #[trigger] self.breaks()[i] < self.breaks()[i
                + 1] by {
                if self.rows()[i].len() == 0 {
                    assert(self.rows().len() == 1 && self.rows()[0].len() == 0);
                    self.lemma_total_is_row_len_sum();
                }
            }
        }
    }
}

/// Prefix glyph counts never decrease as the prefix grows.
pub proof fn lemma_row_prefix_len_monotonic(rows: Seq<Seq<Glyph>>, m: int, n: int)
    requires
        0 <= m <= n,
    ensures
        row_prefix_len(rows, m) <= row_prefix_len(rows, n),
    decreases n - m,
{
    if m < n {
        lemma_row_prefix_len_monotonic(rows, m, n - 1);
    }
}

} // verus!
