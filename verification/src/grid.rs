//! The 2D cell buffer behind every pane: mutation, scrolling, resizing,
//! row text extraction and case-insensitive search.

use vstd::prelude::*;

use crate::cell::Cell;
use crate::chars::{chars_of_str, lower_chars_of, lower_of, string_from_chars};

verus! {

/// The characters of a row that occupy a column: continuation slots of wide
/// glyphs (width 0) are skipped.
pub open spec fn visible_chars(row: Seq<Cell>) -> Seq<char>
    decreases row.len(),
{
    if row.len() == 0 {
        Seq::empty()
    } else if row.last().width > 0 {
        visible_chars(row.drop_last()).push(row.last().ch)
    } else {
        visible_chars(row.drop_last())
    }
}

/// Whether a character counts as trailing blank space.
pub open spec fn is_trailing_blank(c: char) -> bool {
    c == ' ' || c == '\t' || c == '\r' || c == '\n'
}

/// The sequence with its trailing whitespace removed.
pub open spec fn trim_trailing_spaces(s: Seq<char>) -> Seq<char>
    decreases s.len(),
{
    if s.len() > 0 && is_trailing_blank(s.last()) {
        trim_trailing_spaces(s.drop_last())
    } else {
        s
    }
}

/// The text of one grid row: visible characters, right-trimmed.
pub open spec fn row_text_spec(row: Seq<Cell>) -> Seq<char> {
    trim_trailing_spaces(visible_chars(row))
}

/// The lower-cased text that search runs over for row `i`.
pub open spec fn row_search_text(g: Seq<Seq<Cell>>, i: int) -> Seq<char> {
    lower_of(row_text_spec(g[i]))
}

/// Every row's search text is short enough for its columns to be
/// reported; lower-casing rarely lengthens text, so this holds of any
/// realistic grid.
pub open spec fn rows_fit(g: Seq<Seq<Cell>>, rows: int) -> bool {
    forall|i: int| 0 <= i < rows ==> (#[trigger] row_search_text(g, i)).len() <= 65535
}

/// `needle` occurs in `hay` starting at position `p`.
pub open spec fn is_match_at(hay: Seq<char>, needle: Seq<char>, p: int) -> bool {
    &&& 0 <= p
    &&& p + needle.len() <= hay.len()
    &&& hay.subrange(p, p + needle.len() as int) == needle
}

/// No occurrence of `needle` starts in `[lo, hi)` of row `i`'s search text.
pub open spec fn no_match_in_row_range(
    g: Seq<Seq<Cell>>,
    needle: Seq<char>,
    i: int,
    lo: int,
    hi: int,
) -> bool {
    forall|p: int| lo <= p < hi ==> !is_match_at(#[trigger] row_search_text(g, i), needle, p)
}

/// Where the forward scan starts in row `m` when the search began at
/// `(sc, sr)`: just after the cursor in the starting row, at 0 elsewhere.
pub open spec fn fwd_from(m: int, sr: int, sc: int) -> int {
    if m == sr {
        sc + 1
    } else {
        0
    }
}

/// No occurrence of `needle` in rows `[lo_row, hi_row)` at or after the
/// forward scan start of each row.
pub open spec fn fwd_clear(
    g: Seq<Seq<Cell>>,
    needle: Seq<char>,
    lo_row: int,
    hi_row: int,
    sr: int,
    sc: int,
) -> bool {
    forall|m: int|
        lo_row <= m < hi_row ==> no_match_in_row_range(
            g,
            needle,
            m,
            fwd_from(m, sr, sc),
            #[trigger] row_search_text(g, m).len() as int,
        )
}

proof fn lemma_visible_chars_len(row: Seq<Cell>)
    ensures
        visible_chars(row).len() <= row.len(),
    decreases row.len(),
{
    if row.len() > 0 {
        lemma_visible_chars_len(row.drop_last());
    }
}

proof fn lemma_trim_len(s: Seq<char>)
    ensures
        trim_trailing_spaces(s).len() <= s.len(),
    decreases s.len(),
{
    if s.len() > 0 && is_trailing_blank(s.last()) {
        lemma_trim_len(s.drop_last());
    }
}

/// Whether `needle` occurs in `hay` at exactly position `p`.
fn match_at(hay: &Vec<char>, needle: &Vec<char>, p: usize) -> (b: bool)
    requires
        p + needle@.len() <= hay@.len(),
    ensures
        b == is_match_at(hay@, needle@, p as int),
{
    let hlen = hay.len();
    let nlen = needle.len();
    let mut k: usize = 0;
    while k < nlen
        invariant
            hlen == hay@.len(),
            nlen == needle@.len(),
            p + nlen <= hlen,
            k <= nlen,
            forall|t: int| 0 <= t < k ==> hay@[p + t] == needle@[t],
        decreases nlen - k,
    {
        if hay[p + k] != needle[k] {
            proof {
                assert(hay@.subrange(p as int, p + needle@.len() as int)[k as int] == hay@[p + k]);
            }
            return false;
        }
        k += 1;
    }
    proof {
        assert(hay@.subrange(p as int, p + needle@.len() as int) =~= needle@);
    }
    true
}

/// The first position in `[from, until)` where `needle` occurs in `hay`.
fn find_first(hay: &Vec<char>, needle: &Vec<char>, from: usize, until: usize) -> (r: Option<usize>)
    requires
        needle@.len() >= 1,
    ensures
        match r {
            Some(p) => from <= p < until && is_match_at(hay@, needle@, p as int) && forall|q: int|
                from <= q < p ==> !is_match_at(hay@, needle@, q),
            None => forall|q: int| from <= q < until ==> !is_match_at(hay@, needle@, q),
        },
{
    let mut p: usize = from;
    while p < until
        invariant
            from <= p,
            forall|q: int| from <= q < p ==> !is_match_at(hay@, needle@, q),
        decreases until - p,
    {
        if p <= hay.len() && needle.len() <= hay.len() - p {
            if match_at(hay, needle, p) {
                return Some(p);
            }
        }
        p += 1;
    }
    None
}

/// The last position in `[from, until)` where `needle` occurs in `hay`.
fn find_last(hay: &Vec<char>, needle: &Vec<char>, from: usize, until: usize) -> (r: Option<usize>)
    requires
        needle@.len() >= 1,
    ensures
        match r {
            Some(p) => from <= p < until && is_match_at(hay@, needle@, p as int) && forall|q: int|
                p < q < until ==> !is_match_at(hay@, needle@, q),
            None => forall|q: int| from <= q < until ==> !is_match_at(hay@, needle@, q),
        },
{
    let mut p: usize = until;
    while p > from
        invariant
            p <= until,
            forall|q: int| p <= q < until ==> !is_match_at(hay@, needle@, q),
        decreases p,
    {
        p -= 1;
        if p <= hay.len() && needle.len() <= hay.len() - p {
            if match_at(hay, needle, p) {
                return Some(p);
            }
        }
    }
    None
}

/// A blank row of `cols` default cells.
pub open spec fn blank_row(cols: int) -> Seq<Cell> {
    Seq::new(cols as nat, |i: int| Cell::spec_default())
}

/// The grid after one upward scroll of the half-open row band `[top, bottom)`:
/// each row of the band takes the contents of the row below it and a blank
/// row appears at `bottom - 1`; rows outside the band keep their contents.
pub open spec fn scroll_up_spec(g: Seq<Seq<Cell>>, top: int, bottom: int, cols: int) -> Seq<
    Seq<Cell>,
> {
    Seq::new(
        g.len(),
        |i: int|
            if i < top || i >= bottom {
                g[i]
            } else if i < bottom - 1 {
                g[i + 1]
            } else {
                blank_row(cols)
            },
    )
}

/// The grid after one downward scroll of `[top, bottom)`: each row of the
/// band takes the contents of the row above it and a blank row appears at
/// `top`.
pub open spec fn scroll_down_spec(g: Seq<Seq<Cell>>, top: int, bottom: int, cols: int) -> Seq<
    Seq<Cell>,
> {
    Seq::new(
        g.len(),
        |i: int|
            if i < top || i >= bottom {
                g[i]
            } else if i > top {
                g[i - 1]
            } else {
                blank_row(cols)
            },
    )
}

/// `n` upward scrolls of `[top, bottom)` in sequence.
pub open spec fn scroll_up_n_spec(
    g: Seq<Seq<Cell>>,
    top: int,
    bottom: int,
    cols: int,
    n: nat,
) -> Seq<Seq<Cell>>
    decreases n,
{
    if n == 0 {
        g
    } else {
        scroll_up_spec(scroll_up_n_spec(g, top, bottom, cols, (n - 1) as nat), top, bottom, cols)
    }
}

/// `n` downward scrolls of `[top, bottom)` in sequence.
pub open spec fn scroll_down_n_spec(
    g: Seq<Seq<Cell>>,
    top: int,
    bottom: int,
    cols: int,
    n: nat,
) -> Seq<Seq<Cell>>
    decreases n,
{
    if n == 0 {
        g
    } else {
        scroll_down_spec(
            scroll_down_n_spec(g, top, bottom, cols, (n - 1) as nat),
            top,
            bottom,
            cols,
        )
    }
}

/// Build a blank row of `cols` cells.
fn make_blank_row(cols: u16) -> (r: Vec<Cell>)
    ensures
        r@ =~= blank_row(cols as int),
{
    let mut row: Vec<Cell> = Vec::new();
    let mut i: usize = 0;
    while i < cols as usize
        invariant
            i <= cols as usize,
            row@.len() == i,
            forall|j: int| 0 <= j < i ==> row@[j] == Cell::spec_default(),
        decreases cols as usize - i,
    {
        row.push(Cell::default());
        i += 1;
    }
    row
}

/// A `rows x cols` grid of cells.
pub struct Grid {
    pub cols: u16,
    pub rows: u16,
    pub cells: Vec<Vec<Cell>>,
}

impl View for Grid {
    type V = Seq<Seq<Cell>>;

    open spec fn view(&self) -> Seq<Seq<Cell>> {
        self.cells@.map_values(|r: Vec<Cell>| r@)
    }
}

impl Grid {
    /// Shape invariant: one inner vector per row, each of exactly `cols`
    /// cells.
    pub open spec fn wf(&self) -> bool {
        &&& self@.len() == self.rows
        &&& forall|i: int| 0 <= i < self@.len() ==> (#[trigger] self@[i]).len() == self.cols
    }

    pub fn new(cols: u16, rows: u16) -> (g: Grid)
        ensures
            g.wf(),
            g.cols == cols,
            g.rows == rows,
            forall|i: int| 0 <= i < rows ==> #[trigger] g@[i] =~= blank_row(cols as int),
    {
        let mut cells: Vec<Vec<Cell>> = Vec::new();
        let mut i: usize = 0;
        while i < rows as usize
            invariant
                i <= rows as usize,
                cells@.len() == i,
                forall|j: int| 0 <= j < i ==> (#[trigger] cells@[j])@ =~= blank_row(cols as int),
            decreases rows as usize - i,
        {
            cells.push(make_blank_row(cols));
            i += 1;
        }
        Grid { cols, rows, cells }
    }

    /// Read the cell at `(col, row)`.
    pub fn cell(&self, col: u16, row: u16) -> (c: &Cell)
        requires
            self.wf(),
            col < self.cols,
            row < self.rows,
        ensures
            *c == self@[row as int][col as int],
    {
        &self.cells[row as usize][col as usize]
    }

    /// Overwrite the cell at `(col, row)`; out-of-range writes are ignored.
    pub fn set_cell(&mut self, col: u16, row: u16, cell: Cell)
        requires
            old(self).wf(),
        ensures
            final(self).wf(),
            final(self).cols == old(self).cols,
            final(self).rows == old(self).rows,
            col < old(self).cols && row < old(self).rows ==> final(self)@ =~= old(self)@.update(
                row as int,
                old(self)@[row as int].update(col as int, cell),
            ),
            !(col < old(self).cols && row < old(self).rows) ==> final(self)@ == old(self)@,
    {
        if (col as usize) < self.cols as usize && (row as usize) < self.rows as usize {
            proof {
                assert(self.cells@.len() == self@.len());
                assert(self@[row as int] == self.cells@[row as int]@);
            }
            let row_ref = &mut self.cells[row as usize];
            let cell_ref = &mut row_ref[col as usize];
            *cell_ref = cell;
            assert(self@ =~= old(self)@.update(
                row as int,
                old(self)@[row as int].update(col as int, cell),
            ));
        }
    }

    /// Borrow a whole row.
    pub fn row(&self, row: u16) -> (r: &Vec<Cell>)
        requires
            self.wf(),
            row < self.rows,
        ensures
            r@ == self@[row as int],
    {
        &self.cells[row as usize]
    }

    /// Borrow a whole row mutably.
    pub fn row_mut(&mut self, row: u16) -> (r: &mut Vec<Cell>)
        requires
            old(self).wf(),
            row < old(self).rows,
        ensures
            r@ == old(self)@[row as int],
            final(self)@ =~= old(self)@.update(row as int, final(r)@),
            final(self).cols == old(self).cols,
            final(self).rows == old(self).rows,
    {
        &mut self.cells[row as usize]
    }

    /// Scroll `[top, bottom)` up one line: the band's top row is lost and a
    /// blank row appears just above `bottom`. A no-op unless
    /// `top < bottom <= rows`.
    pub fn scroll_up(&mut self, top: u16, bottom: u16)
        requires
            old(self).wf(),
        ensures
            final(self).wf(),
            final(self).cols == old(self).cols,
            final(self).rows == old(self).rows,
            top < bottom && bottom <= old(self).rows ==> final(self)@ =~= scroll_up_spec(
                old(self)@,
                top as int,
                bottom as int,
                old(self).cols as int,
            ),
            !(top < bottom && bottom <= old(self).rows) ==> final(self)@ == old(self)@,
    {
        if top < bottom && bottom <= self.rows {
            self.cells.remove(top as usize);
            self.cells.insert(bottom as usize - 1, make_blank_row(self.cols));
            assert(self@ =~= scroll_up_spec(
                old(self)@,
                top as int,
                bottom as int,
                old(self).cols as int,
            ));
        }
    }

    /// Scroll `[top, bottom)` down one line: the band's bottom row is lost
    /// and a blank row appears at `top`. A no-op unless `top < bottom <= rows`.
    pub fn scroll_down(&mut self, top: u16, bottom: u16)
        requires
            old(self).wf(),
        ensures
            final(self).wf(),
            final(self).cols == old(self).cols,
            final(self).rows == old(self).rows,
            top < bottom && bottom <= old(self).rows ==> final(self)@ =~= scroll_down_spec(
                old(self)@,
                top as int,
                bottom as int,
                old(self).cols as int,
            ),
            !(top < bottom && bottom <= old(self).rows) ==> final(self)@ == old(self)@,
    {
        if top < bottom && bottom <= self.rows {
            self.cells.remove(bottom as usize - 1);
            self.cells.insert(top as usize, make_blank_row(self.cols));
            assert(self@ =~= scroll_down_spec(
                old(self)@,
                top as int,
                bottom as int,
                old(self).cols as int,
            ));
        }
    }

    /// Blank every cell in the inclusive region bounded by `top`, `left`,
    /// `bottom`, `right`, clipped to the grid.
    pub fn clear_region(&mut self, top: u16, left: u16, bottom: u16, right: u16)
        requires
            old(self).wf(),
        ensures
            final(self).wf(),
            final(self).cols == old(self).cols,
            final(self).rows == old(self).rows,
            forall|i: int, j: int|
                0 <= i < old(self).rows && 0 <= j < old(self).cols ==> #[trigger] final(self)@[i][j] == if top <= i && i <= bottom && left <= j && j <= right {
                    Cell::spec_default()
                } else {
                    old(self)@[i][j]
                },
    {
        let mut row: u16 = top;
        while row < self.rows && row <= bottom
            invariant
                self.wf(),
                self.cols == old(self).cols,
                self.rows == old(self).rows,
                top <= row,
                forall|i: int, j: int|
                    0 <= i < self.rows && 0 <= j < self.cols ==> #[trigger] self@[i][j] == if top
                        <= i && i < row && i <= bottom && left <= j && j <= right {
                        Cell::spec_default()
                    } else {
                        old(self)@[i][j]
                    },
            decreases self.rows - row,
        {
            let mut col: u16 = left;
            while col < self.cols && col <= right
                invariant
                    self.wf(),
                    self.cols == old(self).cols,
                    self.rows == old(self).rows,
                    top <= row < self.rows,
                    row <= bottom,
                    left <= col,
                    (left as int) < (col as int) ==> (col as int) <= (right as int) + 1,
                    forall|i: int, j: int|
                        0 <= i < self.rows && 0 <= j < self.cols ==> #[trigger] self@[i][j] == if (
                        top <= i && i < row && i <= bottom && left <= j && j <= right) || (i == row
                            && left <= j && j < col) {
                            Cell::spec_default()
                        } else {
                            old(self)@[i][j]
                        },
                decreases self.cols - col,
            {
                self.set_cell(col, row, Cell::default());
                col += 1;
            }
            row += 1;
        }
    }

    /// Blank the whole grid.
    pub fn clear(&mut self)
        requires
            old(self).wf(),
        ensures
            final(self).wf(),
            final(self).cols == old(self).cols,
            final(self).rows == old(self).rows,
            forall|i: int, j: int|
                0 <= i < old(self).rows && 0 <= j < old(self).cols ==> #[trigger] final(self)@[i][j] == Cell::spec_default(),
    {
        if self.rows == 0 || self.cols == 0 {
            return ;
        }
        let bottom: u16 = self.rows - 1;
        let right: u16 = self.cols - 1;
        self.clear_region(0, 0, bottom, right);
    }

    /// Blank a single row; out-of-range rows are ignored.
    pub fn clear_row(&mut self, row: u16)
        requires
            old(self).wf(),
        ensures
            final(self).wf(),
            final(self).cols == old(self).cols,
            final(self).rows == old(self).rows,
            row < old(self).rows ==> final(self)@ =~= old(self)@.update(
                row as int,
                blank_row(old(self).cols as int),
            ),
            !(row < old(self).rows) ==> final(self)@ == old(self)@,
    {
        if row < self.rows {
            if self.cols > 0 {
                let right: u16 = self.cols - 1;
                self.clear_region(row, 0, row, right);
            }
            assert(self@ =~~= old(self)@.update(row as int, blank_row(old(self).cols as int)));
        }
    }

    /// Resize to `new_cols x new_rows`, preserving the top-left content and
    /// padding with blank cells.
    pub fn resize(&mut self, new_cols: u16, new_rows: u16)
        requires
            old(self).wf(),
        ensures
            final(self).wf(),
            final(self).cols == new_cols,
            final(self).rows == new_rows,
            forall|i: int, j: int|
                0 <= i < new_rows && 0 <= j < new_cols ==> #[trigger] final(self)@[i][j] == if i
                    < old(self).rows && j < old(self).cols {
                    old(self)@[i][j]
                } else {
                    Cell::spec_default()
                },
    {
        let mut new_cells: Vec<Vec<Cell>> = Vec::new();
        let mut i: usize = 0;
        while i < new_rows as usize
            invariant
                old(self).wf(),
                i <= new_rows as usize,
                new_cells@.len() == i,
                forall|r: int| 0 <= r < i ==> (#[trigger] new_cells@[r])@.len() == new_cols,
                forall|r: int, c: int|
                    0 <= r < i && 0 <= c < new_cols ==> #[trigger] new_cells@[r]@[c] == if r
                        < old(self).rows && c < old(self).cols {
                        old(self)@[r][c]
                    } else {
                        Cell::spec_default()
                    },
            decreases new_rows as usize - i,
        {
            let mut row: Vec<Cell> = Vec::new();
            let mut j: usize = 0;
            while j < new_cols as usize
                invariant
                    old(self).wf(),
                    self == old(self),
                    i < new_rows as usize,
                    j <= new_cols as usize,
                    row@.len() == j,
                    forall|c: int|
                        0 <= c < j ==> #[trigger] row@[c] == if (i as int) < old(self).rows && c
                            < old(self).cols {
                            old(self)@[i as int][c]
                        } else {
                            Cell::spec_default()
                        },
                decreases new_cols as usize - j,
            {
                if i < self.rows as usize && j < self.cols as usize {
                    let c = *self.cell(j as u16, i as u16);
                    row.push(c);
                } else {
                    row.push(Cell::default());
                }
                j += 1;
            }
            new_cells.push(row);
            i += 1;
        }
        self.cells = new_cells;
        self.cols = new_cols;
        self.rows = new_rows;
    }

    /// The text of one row as a character vector.
    fn row_text_vec(&self, row: u16) -> (r: Vec<char>)
        requires
            self.wf(),
            row < self.rows,
        ensures
            r@ == row_text_spec(self@[row as int]),
    {
        let cells = &self.cells[row as usize];
        proof {
            assert(cells@ == self@[row as int]);
        }
        let mut chars: Vec<char> = Vec::new();
        let mut i: usize = 0;
        while i < cells.len()
            invariant
                i <= cells@.len(),
                chars@ == visible_chars(cells@.subrange(0, i as int)),
            decreases cells@.len() - i,
        {
            proof {
                let pre = cells@.subrange(0, i + 1 as int);
                assert(pre.drop_last() =~= cells@.subrange(0, i as int));
                assert(pre.last() == cells@[i as int]);
            }
            if cells[i].width > 0 {
                chars.push(cells[i].ch);
            }
            i += 1;
        }
        proof {
            assert(cells@.subrange(0, cells@.len() as int) =~= cells@);
        }
        while chars.len() > 0 && (chars[chars.len() - 1] == ' ' || chars[chars.len() - 1] == '\t'
            || chars[chars.len() - 1] == '\r' || chars[chars.len() - 1] == '\n')
            invariant
                trim_trailing_spaces(chars@) == trim_trailing_spaces(visible_chars(cells@)),
            decreases chars@.len(),
        {
            proof {
                assert(chars@.subrange(0, chars@.len() - 1) =~= chars@.drop_last());
            }
            chars.pop();
        }
        chars
    }

    /// The text content of a row: the visible characters with trailing
    /// spaces removed. An out-of-range row yields the empty string.
    pub fn row_text(&self, row: u16) -> (r: String)
        requires
            self.wf(),
        ensures
            row < self.rows ==> r@ == row_text_spec(self@[row as int]),
            row >= self.rows ==> r@ == Seq::<char>::empty(),
    {
        if row >= self.rows {
            return String::new();
        }
        let v = self.row_text_vec(row);
        string_from_chars(&v)
    }

    /// Case-insensitive search for `query` over the rows' text.
    ///
    /// A forward search scans from just after `(start_col, start_row)` to the
    /// end of the grid, then wraps to `(0, 0)` and continues up to and
    /// including the starting column; backward is the mirror. Returns the
    /// `(col, row)` of the occurrence found first in that order, or `None`
    /// when the grid holds no occurrence at all. In particular, a forward
    /// search returns `None` exactly when no row's text contains the query
    /// (case-insensitively), provided the query is nonempty.
    pub fn search(&self, query: &str, start_col: u16, start_row: u16, forward: bool) -> (r: Option<
        (u16, u16),
    >)
        requires
            self.wf(),
        ensures
            query@.len() == 0 ==> r is None,
            query@.len() >= 1 && rows_fit(self@, self.rows as int) && r is None ==> forall|
                i: int,
                p: int,
            |
                0 <= i < self.rows ==> !(#[trigger] is_match_at(
                    row_search_text(self@, i),
                    lower_of(query@),
                    p,
                )),
            match r {
                Some((c, i)) => {
                    &&& i < self.rows
                    &&& is_match_at(row_search_text(self@, i as int), lower_of(query@), c as int)
                },
                None => true,
            },
            forward && query@.len() >= 1 && rows_fit(self@, self.rows as int) ==> match r {
                Some((c, i)) => ({
                    let g = self@;
                    let q = lower_of(query@);
                    let sr = start_row as int;
                    let sc = start_col as int;
                    ||| (sr <= i && fwd_clear(g, q, sr, i as int, sr, sc) && c
                        >= fwd_from(i as int, sr, sc) && no_match_in_row_range(
                        g,
                        q,
                        i as int,
                        fwd_from(i as int, sr, sc),
                        c as int,
                    ))
                    ||| (i <= sr && fwd_clear(g, q, sr, self.rows as int, sr, sc) && (forall|
                        m: int,
                        p: int,
                    |
                        0 <= m < i ==> !(#[trigger] is_match_at(row_search_text(g, m), q, p)))
                        && no_match_in_row_range(g, q, i as int, 0, c as int) && (i == sr ==> c
                        <= sc))
                }),
                None => true,
            },
            !forward && query@.len() >= 1 && rows_fit(self@, self.rows as int) && self.rows > 0
                ==> match r {
                Some((c, i)) => ({
                    let g = self@;
                    let q = lower_of(query@);
                    let sr = start_row as int;
                    let sc = start_col as int;
                    let top = if sr >= self.rows {
                        self.rows - 1
                    } else {
                        sr
                    };
                    ||| (i <= top && (forall|m: int|
                        i < m <= top ==> no_match_in_row_range(
                            g,
                            q,
                            m,
                            0,
                            if m == sr {
                                sc
                            } else {
                                #[trigger] row_search_text(g, m).len() as int
                            },
                        )) && no_match_in_row_range(
                        g,
                        q,
                        i as int,
                        c + 1,
                        if i == sr {
                            sc
                        } else {
                            row_search_text(g, i as int).len() as int
                        },
                    ) && (i == sr ==> c < sc))
                    ||| (top <= i && (forall|m: int|
                        0 <= m <= top ==> no_match_in_row_range(
                            g,
                            q,
                            m,
                            0,
                            if m == sr {
                                sc
                            } else {
                                #[trigger] row_search_text(g, m).len() as int
                            },
                        )) && (forall|m: int|
                        i < m < self.rows ==> no_match_in_row_range(
                            g,
                            q,
                            m,
                            if m == sr {
                                sc
                            } else {
                                0
                            },
                            #[trigger] row_search_text(g, m).len() as int,
                        )) && no_match_in_row_range(
                        g,
                        q,
                        i as int,
                        c + 1,
                        row_search_text(g, i as int).len() as int,
                    ) && (i == sr ==> c >= sc))
                }),
                None => true,
            },
    {
        let q_chars = chars_of_str(query);
        if q_chars.len() == 0 {
            return None;
        }
        let qlow = lower_chars_of(query);
        let ghost g = self@;
        let ghost q = lower_of(query@);
        let ghost sr = start_row as int;
        let ghost sc = start_col as int;
        if forward {
            let mut row: u16 = start_row;
            while row < self.rows
                invariant
                    forward,
                    self.wf(),
                    query@.len() >= 1,
                    start_row <= row,
                    qlow@ == q,
                    q.len() >= 1,
                    g == self@,
                    q == lower_of(query@),
                    sr == start_row as int,
                    sc == start_col as int,
                    fwd_clear(g, q, sr, row as int, sr, sc),
                decreases self.rows - row,
            {
                let tv = self.row_text_vec(row);
                let ts = string_from_chars(&tv);
                let hay = lower_chars_of(ts.as_str());
                proof {
                    assert(hay@ == row_search_text(g, row as int));
                }
                let from: usize = if row == start_row {
                    start_col as usize + 1
                } else {
                    0
                };
                match find_first(&hay, &qlow, from, hay.len()) {
                    Some(p) => {
                        if p <= 0xFFFF {
                            return Some((p as u16, row));
                        }
                        return None;
                    },
                    None => {},
                }
                proof {
                    assert(no_match_in_row_range(
                        g,
                        q,
                        row as int,
                        fwd_from(row as int, sr, sc),
                        row_search_text(g, row as int).len() as int,
                    ));
                }
                row += 1;
            }
            let mut row2: u16 = 0;
            while row2 < self.rows && row2 <= start_row
                invariant
                    forward,
                    self.wf(),
                    query@.len() >= 1,
                    qlow@ == q,
                    q.len() >= 1,
                    g == self@,
                    q == lower_of(query@),
                    sr == start_row as int,
                    sc == start_col as int,
                    fwd_clear(g, q, sr, self.rows as int, sr, sc),
                    forall|m: int|
                        0 <= m < row2 ==> no_match_in_row_range(
                            g,
                            q,
                            m,
                            0,
                            if m == sr {
                                sc + 1
                            } else {
                                #[trigger] row_search_text(g, m).len() as int
                            },
                        ),
                decreases self.rows - row2,
            {
                let tv = self.row_text_vec(row2);
                let ts = string_from_chars(&tv);
                let hay = lower_chars_of(ts.as_str());
                proof {
                    assert(hay@ == row_search_text(g, row2 as int));
                }
                let until: usize = if row2 == start_row {
                    start_col as usize + 1
                } else {
                    hay.len()
                };
                match find_first(&hay, &qlow, 0, until) {
                    Some(p) => {
                        if p <= 0xFFFF {
                            return Some((p as u16, row2));
                        }
                        return None;
                    },
                    None => {},
                }
                row2 += 1;
            }
            proof {
                assert forall|i: int, p: int| 0 <= i < self.rows implies !(#[trigger] is_match_at(
                    row_search_text(g, i),
                    q,
                    p,
                )) by {
                    if sr <= i {
                        assert(no_match_in_row_range(
                            g,
                            q,
                            i,
                            fwd_from(i, sr, sc),
                            row_search_text(g, i).len() as int,
                        ));
                    }
                    if i <= sr && i < self.rows {
                        assert(no_match_in_row_range(
                            g,
                            q,
                            i,
                            0,
                            if i == sr {
                                sc + 1
                            } else {
                                row_search_text(g, i).len() as int
                            },
                        ));
                    }
                }
            }
            None
        } else {
            if self.rows == 0 {
                return None;
            }
            let top: u16 = if start_row >= self.rows {
                self.rows - 1
            } else {
                start_row
            };
            let mut rr: u16 = top + 1;
            while rr > 0
                invariant
                    !forward,
                    self.wf(),
                    query@.len() >= 1,
                    rr <= top + 1,
                    top < self.rows,
                    top == if sr >= self.rows as int {
                        self.rows - 1
                    } else {
                        sr
                    },
                    qlow@ == q,
                    q.len() >= 1,
                    g == self@,
                    q == lower_of(query@),
                    sr == start_row as int,
                    sc == start_col as int,
                    forall|m: int|
                        rr <= m <= top ==> no_match_in_row_range(
                            g,
                            q,
                            m,
                            0,
                            if m == sr {
                                sc
                            } else {
                                #[trigger] row_search_text(g, m).len() as int
                            },
                        ),
                decreases rr,
            {
                rr -= 1;
                let tv = self.row_text_vec(rr);
                let ts = string_from_chars(&tv);
                let hay = lower_chars_of(ts.as_str());
                proof {
                    assert(hay@ == row_search_text(g, rr as int));
                }
                let until: usize = if rr == start_row {
                    start_col as usize
                } else {
                    hay.len()
                };
                match find_last(&hay, &qlow, 0, until) {
                    Some(p) => {
                        if p <= 0xFFFF {
                            return Some((p as u16, rr));
                        }
                        return None;
                    },
                    None => {},
                }
            }
            let mut r2: u16 = self.rows;
            while r2 > top
                invariant
                    !forward,
                    self.wf(),
                    query@.len() >= 1,
                    top <= r2 <= self.rows,
                    top < self.rows,
                    top == if sr >= self.rows as int {
                        self.rows - 1
                    } else {
                        sr
                    },
                    qlow@ == q,
                    q.len() >= 1,
                    g == self@,
                    q == lower_of(query@),
                    sr == start_row as int,
                    sc == start_col as int,
                    forall|m: int|
                        0 <= m <= top ==> no_match_in_row_range(
                            g,
                            q,
                            m,
                            0,
                            if m == sr {
                                sc
                            } else {
                                #[trigger] row_search_text(g, m).len() as int
                            },
                        ),
                    forall|m: int|
                        r2 <= m < self.rows ==> no_match_in_row_range(
                            g,
                            q,
                            m,
                            if m == sr {
                                sc
                            } else {
                                0
                            },
                            #[trigger] row_search_text(g, m).len() as int,
                        ),
                decreases r2,
            {
                r2 -= 1;
                let tv = self.row_text_vec(r2);
                let ts = string_from_chars(&tv);
                let hay = lower_chars_of(ts.as_str());
                proof {
                    assert(hay@ == row_search_text(g, r2 as int));
                }
                let from: usize = if r2 == start_row {
                    start_col as usize
                } else {
                    0
                };
                match find_last(&hay, &qlow, from, hay.len()) {
                    Some(p) => {
                        if p <= 0xFFFF {
                            return Some((p as u16, r2));
                        }
                        return None;
                    },
                    None => {},
                }
            }
            proof {
                assert forall|i: int, p: int| 0 <= i < self.rows implies !(#[trigger] is_match_at(
                    row_search_text(g, i),
                    q,
                    p,
                )) by {
                    if i <= top {
                        assert(no_match_in_row_range(
                            g,
                            q,
                            i,
                            0,
                            if i == sr {
                                sc
                            } else {
                                row_search_text(g, i).len() as int
                            },
                        ));
                    }
                    if top <= i && i < self.rows {
                        assert(no_match_in_row_range(
                            g,
                            q,
                            i,
                            if i == sr {
                                sc
                            } else {
                                0
                            },
                            row_search_text(g, i).len() as int,
                        ));
                    }
                }
            }
            None
        }
    }

    /// Blank the cells of `row` from `col` (inclusive) to the end of the
    /// line; out-of-range rows are ignored.
    pub fn erase_to_eol(&mut self, row: u16, col: u16)
        requires
            old(self).wf(),
        ensures
            final(self).wf(),
            final(self).cols == old(self).cols,
            final(self).rows == old(self).rows,
            forall|i: int, j: int|
                0 <= i < old(self).rows && 0 <= j < old(self).cols ==> #[trigger] final(self)@[i][j]
                    == if i == row && col <= j {
                    Cell::spec_default()
                } else {
                    old(self)@[i][j]
                },
    {
        if row < self.rows && self.cols > 0 {
            let right: u16 = self.cols - 1;
            self.clear_region(row, col, row, right);
        }
    }

    /// Blank the cells of `row` from the start of the line to `col`
    /// (inclusive); out-of-range rows are ignored.
    pub fn erase_to_bol(&mut self, row: u16, col: u16)
        requires
            old(self).wf(),
        ensures
            final(self).wf(),
            final(self).cols == old(self).cols,
            final(self).rows == old(self).rows,
            forall|i: int, j: int|
                0 <= i < old(self).rows && 0 <= j < old(self).cols ==> #[trigger] final(self)@[i][j]
                    == if i == row && j <= col {
                    Cell::spec_default()
                } else {
                    old(self)@[i][j]
                },
    {
        if row < self.rows && self.cols > 0 {
            self.clear_region(row, 0, row, col);
        }
    }

    /// Insert `count` blank lines at `row`, pushing lines below down within
    /// the region ending at `bottom` (exclusive).
    pub fn insert_lines(&mut self, row: u16, count: u16, bottom: u16)
        requires
            old(self).wf(),
        ensures
            final(self).wf(),
            final(self).cols == old(self).cols,
            final(self).rows == old(self).rows,
            row < bottom && bottom <= old(self).rows ==> final(self)@ =~= scroll_down_n_spec(
                old(self)@,
                row as int,
                bottom as int,
                old(self).cols as int,
                count as nat,
            ),
            !(row < bottom && bottom <= old(self).rows) ==> final(self)@ == old(self)@,
    {
        let mut k: u16 = 0;
        while k < count
            invariant
                self.wf(),
                self.cols == old(self).cols,
                self.rows == old(self).rows,
                k <= count,
                row < bottom && bottom <= old(self).rows ==> self@ =~= scroll_down_n_spec(
                    old(self)@,
                    row as int,
                    bottom as int,
                    old(self).cols as int,
                    k as nat,
                ),
                !(row < bottom && bottom <= old(self).rows) ==> self@ == old(self)@,
            decreases count - k,
        {
            self.scroll_down(row, bottom);
            k += 1;
        }
    }

    /// Delete `count` lines at `row`, pulling lines below up within the
    /// region ending at `bottom` (exclusive) and blanking the freed lines.
    pub fn delete_lines(&mut self, row: u16, count: u16, bottom: u16)
        requires
            old(self).wf(),
        ensures
            final(self).wf(),
            final(self).cols == old(self).cols,
            final(self).rows == old(self).rows,
            row < bottom && bottom <= old(self).rows ==> final(self)@ =~= scroll_up_n_spec(
                old(self)@,
                row as int,
                bottom as int,
                old(self).cols as int,
                count as nat,
            ),
            !(row < bottom && bottom <= old(self).rows) ==> final(self)@ == old(self)@,
    {
        let mut k: u16 = 0;
        while k < count
            invariant
                self.wf(),
                self.cols == old(self).cols,
                self.rows == old(self).rows,
                k <= count,
                row < bottom && bottom <= old(self).rows ==> self@ =~= scroll_up_n_spec(
                    old(self)@,
                    row as int,
                    bottom as int,
                    old(self).cols as int,
                    k as nat,
                ),
                !(row < bottom && bottom <= old(self).rows) ==> self@ == old(self)@,
            decreases count - k,
        {
            self.scroll_up(row, bottom);
            k += 1;
        }
    }
}

} // verus!
