//! The VT state machine: a cursor and grid driven by ECMA-48 control
//! functions, with scroll region, saved cursor, window title and an
//! alternate screen.

use vstd::prelude::*;

use crate::cell::{Attrs, Cell, Color};
use crate::chars::{char_from_u32, valid_scalar};
use crate::grid::{
    blank_row, scroll_down_n_spec, scroll_down_spec, scroll_up_n_spec, scroll_up_spec, Grid,
};

verus! {

/// Cursor position and the attributes new glyphs are written with.
#[derive(Debug, Clone, Copy, PartialEq, Eq, Structural)]
pub struct Cursor {
    pub col: u16,
    pub row: u16,
    pub attrs: Attrs,
    pub fg: Color,
    pub bg: Color,
    pub visible: bool,
}

impl Cursor {
    /// The home cursor: top-left, default colors, visible.
    pub open spec fn spec_default() -> Cursor {
        Cursor {
            col: 0,
            row: 0,
            attrs: Attrs::spec_default(),
            fg: Color::Default,
            bg: Color::Default,
            visible: true,
        }
    }
}

impl Default for Cursor {
    fn default() -> (r: Self)
        ensures
            r == Cursor::spec_default(),
    {
        Cursor {
            col: 0,
            row: 0,
            attrs: Attrs::default(),
            fg: Color::Default,
            bg: Color::Default,
            visible: true,
        }
    }
}

/// The saved-cursor snapshot: column, row, attributes, colors.
pub type SavedCursor = (u16, u16, Attrs, Color, Color);

/// Mathematical model of a `TerminalState`.
#[verifier::ext_equal]
pub struct TsView {
    pub grid: Seq<Seq<Cell>>,
    pub cols: u16,
    pub rows: u16,
    pub cursor: Cursor,
    pub scroll_top: u16,
    pub scroll_bottom: u16,
    pub saved_cursor: Option<SavedCursor>,
    pub title: Seq<char>,
    pub dirty: bool,
    pub alt_grid: Option<Seq<Seq<Cell>>>,
    pub alt_cursor: Option<Cursor>,
    pub alt_scroll_top: Option<u16>,
    pub alt_scroll_bottom: Option<u16>,
    pub alt_saved_cursor: Option<Option<SavedCursor>>,
    pub using_alt_screen: bool,
}

/// The screen state of one pane: a grid plus cursor, scroll region, saved
/// cursor, title, dirty flag and alternate screen.
pub struct TerminalState {
    pub grid: Grid,
    pub cursor: Cursor,
    pub scroll_top: u16,
    pub scroll_bottom: u16,
    pub saved_cursor: Option<SavedCursor>,
    pub title: String,
    pub dirty: bool,
    pub alt_grid: Option<Grid>,
    pub alt_cursor: Option<Cursor>,
    pub alt_scroll_top: Option<u16>,
    pub alt_scroll_bottom: Option<u16>,
    pub alt_saved_cursor: Option<Option<SavedCursor>>,
    pub using_alt_screen: bool,
}

impl View for TerminalState {
    type V = TsView;

    open spec fn view(&self) -> TsView {
        TsView {
            grid: self.grid@,
            cols: self.grid.cols,
            rows: self.grid.rows,
            cursor: self.cursor,
            scroll_top: self.scroll_top,
            scroll_bottom: self.scroll_bottom,
            saved_cursor: self.saved_cursor,
            title: self.title@,
            dirty: self.dirty,
            alt_grid: match self.alt_grid {
                Some(g) => Some(g@),
                None => None,
            },
            alt_cursor: self.alt_cursor,
            alt_scroll_top: self.alt_scroll_top,
            alt_scroll_bottom: self.alt_scroll_bottom,
            alt_saved_cursor: self.alt_saved_cursor,
            using_alt_screen: self.using_alt_screen,
        }
    }
}

impl TerminalState {
    /// Structural invariant tying the concrete grids to the model: the
    /// grid vectors have their declared shape and the alternate grid, when
    /// present, matches the live grid's size.
    pub open spec fn inv(&self) -> bool {
        &&& self.grid.wf()
        &&& self@.wf()
        &&& match self.alt_grid {
            Some(g) => g.wf() && g.cols == self.grid.cols && g.rows == self.grid.rows,
            None => true,
        }
    }
}

impl TsView {
    /// Internal invariant: the grid has the declared shape, the cursor is
    /// inside it, the scroll region is a nonempty range of rows, and an
    /// alternate screen, when present, has the same shape.
    pub open spec fn wf(self) -> bool {
        &&& self.cols >= 1
        &&& self.rows >= 1
        &&& self.grid.len() == self.rows
        &&& forall|i: int| 0 <= i < self.grid.len() ==> (#[trigger] self.grid[i]).len() == self.cols
        &&& self.cursor.col < self.cols
        &&& self.cursor.row < self.rows
        &&& self.scroll_top < self.scroll_bottom
        &&& self.scroll_bottom <= self.rows
        &&& (self.using_alt_screen ==> self.alt_grid is Some && self.alt_cursor is Some
            && self.alt_scroll_top is Some && self.alt_scroll_bottom is Some
            && self.alt_saved_cursor is Some)
        &&& match (self.alt_scroll_top, self.alt_scroll_bottom) {
            (Some(t), Some(b)) => t < b && b <= self.rows,
            (None, None) => true,
            _ => false,
        }
        &&& match self.alt_grid {
            Some(g) => g.len() == self.rows && forall|i: int|
                0 <= i < g.len() ==> (#[trigger] g[i]).len() == self.cols,
            None => true,
        }
        &&& match self.alt_cursor {
            Some(c) => c.col < self.cols && c.row < self.rows,
            None => true,
        }
    }

    /// A fresh screen of the given size.
    pub open spec fn init(cols: u16, rows: u16) -> TsView {
        TsView {
            grid: Seq::new(rows as nat, |i: int| blank_row(cols as int)),
            cols: cols,
            rows: rows,
            cursor: Cursor::spec_default(),
            scroll_top: 0,
            scroll_bottom: rows,
            saved_cursor: None,
            title: Seq::empty(),
            dirty: true,
            alt_grid: None,
            alt_cursor: None,
            alt_scroll_top: None,
            alt_scroll_bottom: None,
            alt_saved_cursor: None,
            using_alt_screen: false,
        }
    }
}

/// A line feed: move the cursor down, scrolling the region when the cursor
/// sits on its last line.
pub open spec fn ts_line_feed(v: TsView) -> TsView {
    if v.cursor.row + 1 >= v.scroll_bottom {
        TsView {
            grid: scroll_up_spec(
                v.grid,
                v.scroll_top as int,
                v.scroll_bottom as int,
                v.cols as int,
            ),
            ..v
        }
    } else {
        TsView { cursor: Cursor { row: (v.cursor.row + 1) as u16, ..v.cursor }, ..v }
    }
}

/// Advance the cursor one column, wrapping to the next line past the
/// right margin.
pub open spec fn ts_advance_cursor(v: TsView) -> TsView {
    if v.cursor.col + 1 >= v.cols {
        ts_line_feed(TsView { cursor: Cursor { col: 0, ..v.cursor }, ..v })
    } else {
        TsView { cursor: Cursor { col: (v.cursor.col + 1) as u16, ..v.cursor }, ..v }
    }
}

/// The grid with one cell replaced.
pub open spec fn grid_set(g: Seq<Seq<Cell>>, col: int, row: int, c: Cell) -> Seq<Seq<Cell>> {
    g.update(row, g[row].update(col, c))
}

/// Printing one glyph of the given display width (0 to 2 columns).
///
/// A zero-width character leaves the screen untouched. A wide glyph writes
/// its cell plus a width-0 continuation cell to its right when there is
/// room; at the right margin it is clipped to a single cell, so a width-2
/// cell never stands without its continuation.
pub open spec fn ts_print(v: TsView, c: char, w: nat) -> TsView {
    if w == 0 {
        v
    } else {
        let wide = w >= 2 && v.cursor.col + 1 < v.cols;
        let cell = Cell {
            ch: c,
            fg: v.cursor.fg,
            bg: v.cursor.bg,
            attrs: v.cursor.attrs,
            width: if wide {
                2
            } else {
                1
            },
        };
        let g1 = grid_set(v.grid, v.cursor.col as int, v.cursor.row as int, cell);
        if wide {
            let cont = Cell {
                ch: ' ',
                fg: v.cursor.fg,
                bg: v.cursor.bg,
                attrs: v.cursor.attrs,
                width: 0,
            };
            let g2 = grid_set(g1, v.cursor.col + 1 as int, v.cursor.row as int, cont);
            let moved = TsView {
                grid: g2,
                cursor: Cursor { col: (v.cursor.col + 1) as u16, ..v.cursor },
                dirty: true,
                ..v
            };
            ts_advance_cursor(moved)
        } else {
            ts_advance_cursor(TsView { grid: g1, dirty: true, ..v })
        }
    }
}

/// A C0 control byte: backspace, tab, line feed, carriage return; others
/// are ignored.
pub open spec fn ts_execute(v: TsView, b: u8) -> TsView {
    if b == 0x08 {
        if v.cursor.col > 0 {
            TsView { cursor: Cursor { col: (v.cursor.col - 1) as u16, ..v.cursor }, ..v }
        } else {
            v
        }
    } else if b == 0x09 {
        let next_tab: int = ((v.cursor.col / 8) + 1) * 8;
        let clamped: u16 = if next_tab < v.cols - 1 {
            next_tab as u16
        } else {
            (v.cols - 1) as u16
        };
        TsView { cursor: Cursor { col: clamped, ..v.cursor }, ..v }
    } else if b == 0x0A || b == 0x0B || b == 0x0C {
        TsView { dirty: true, ..ts_line_feed(v) }
    } else if b == 0x0D {
        TsView { cursor: Cursor { col: 0, ..v.cursor }, ..v }
    } else {
        v
    }
}

/// Entering the alternate screen: the live grid, cursor, scroll region
/// and saved cursor move into the alternate slots and fresh defaults take
/// their place.
pub open spec fn ts_enter_alt(v: TsView) -> TsView {
    if v.using_alt_screen {
        v
    } else {
        TsView {
            alt_grid: Some(v.grid),
            alt_cursor: Some(v.cursor),
            alt_scroll_top: Some(v.scroll_top),
            alt_scroll_bottom: Some(v.scroll_bottom),
            alt_saved_cursor: Some(v.saved_cursor),
            grid: Seq::new(v.rows as nat, |i: int| blank_row(v.cols as int)),
            cursor: Cursor::spec_default(),
            scroll_top: 0,
            scroll_bottom: v.rows,
            saved_cursor: None,
            using_alt_screen: true,
            ..v
        }
    }
}

/// Leaving the alternate screen: the saved grid, cursor, scroll region
/// and saved cursor come back exactly as they were at entry.
pub open spec fn ts_exit_alt(v: TsView) -> TsView {
    if !v.using_alt_screen {
        v
    } else {
        TsView {
            grid: match v.alt_grid {
                Some(g) => g,
                None => v.grid,
            },
            cursor: match v.alt_cursor {
                Some(c) => c,
                None => v.cursor,
            },
            scroll_top: match v.alt_scroll_top {
                Some(t) => t,
                None => v.scroll_top,
            },
            scroll_bottom: match v.alt_scroll_bottom {
                Some(b) => b,
                None => v.scroll_bottom,
            },
            saved_cursor: match v.alt_saved_cursor {
                Some(sc) => sc,
                None => v.saved_cursor,
            },
            alt_grid: None,
            alt_cursor: None,
            alt_scroll_top: None,
            alt_scroll_bottom: None,
            alt_saved_cursor: None,
            using_alt_screen: false,
            ..v
        }
    }
}

/// The `i`-th numeric parameter, or `default` when absent or zero.
pub open spec fn csi_p(params: Seq<u16>, idx: int, default: u16) -> u16 {
    if 0 <= idx < params.len() && params[idx] != 0 {
        params[idx]
    } else {
        default
    }
}

/// The grid with the inclusive cell region `[top,bottom] x [left,right]`
/// blanked.
pub open spec fn grid_clear_region(
    g: Seq<Seq<Cell>>,
    top: int,
    left: int,
    bottom: int,
    right: int,
) -> Seq<Seq<Cell>> {
    Seq::new(
        g.len(),
        |i: int|
            Seq::new(
                g[i].len(),
                |j: int|
                    if top <= i && i <= bottom && left <= j && j <= right {
                        Cell::spec_default()
                    } else {
                        g[i][j]
                    },
            ),
    )
}

/// One row after inserting `n` blank cells at `col`, shifting right.
pub open spec fn row_insert_cells(row: Seq<Cell>, col: int, n: int) -> Seq<Cell> {
    Seq::new(
        row.len(),
        |j: int|
            if j < col {
                row[j]
            } else if j < col + n {
                Cell::spec_default()
            } else {
                row[j - n]
            },
    )
}

/// One row after deleting `n` cells at `col`, shifting left and padding
/// with blanks.
pub open spec fn row_delete_cells(row: Seq<Cell>, col: int, n: int) -> Seq<Cell> {
    Seq::new(
        row.len(),
        |j: int|
            if j < col {
                row[j]
            } else if j + n < row.len() {
                row[j + n]
            } else {
                Cell::spec_default()
            },
    )
}

/// The glyph attributes and colors an SGR sequence manipulates.
#[derive(Debug, Clone, Copy, PartialEq, Eq, Structural)]
pub struct SgrState {
    pub attrs: Attrs,
    pub fg: Color,
    pub bg: Color,
}

/// The reset SGR state.
pub open spec fn sgr_reset() -> SgrState {
    SgrState { attrs: Attrs::spec_default(), fg: Color::Default, bg: Color::Default }
}

/// Parse an extended color at `idx`: `2;r;g;b` or `5;n`. Returns the color
/// found, if any, and the index just past what was consumed.
pub open spec fn parse_ext_color(params: Seq<u16>, idx: int) -> (Option<Color>, int) {
    if idx >= params.len() || idx < 0 {
        (None, idx)
    } else if params[idx] == 2 {
        if idx + 3 < params.len() {
            (
                Some(
                    Color::Rgb(
                        params[idx + 1] as u8,
                        params[idx + 2] as u8,
                        params[idx + 3] as u8,
                    ),
                ),
                idx + 4,
            )
        } else {
            (None, idx + 1)
        }
    } else if params[idx] == 5 {
        if idx + 1 < params.len() {
            (Some(Color::Indexed(params[idx + 1] as u8)), idx + 2)
        } else {
            (None, idx + 1)
        }
    } else {
        (None, idx)
    }
}

/// One SGR code applied to the state (for plain one-parameter codes).
pub open spec fn sgr_apply_code(st: SgrState, code: u16) -> SgrState {
    if code == 0 {
        sgr_reset()
    } else if code == 1 {
        SgrState { attrs: Attrs { bold: true, ..st.attrs }, ..st }
    } else if code == 3 {
        SgrState { attrs: Attrs { italic: true, ..st.attrs }, ..st }
    } else if code == 4 {
        SgrState { attrs: Attrs { underline: true, ..st.attrs }, ..st }
    } else if code == 5 {
        SgrState { attrs: Attrs { blink: true, ..st.attrs }, ..st }
    } else if code == 7 {
        SgrState { attrs: Attrs { reverse: true, ..st.attrs }, ..st }
    } else if code == 8 {
        SgrState { attrs: Attrs { hidden: true, ..st.attrs }, ..st }
    } else if code == 9 {
        SgrState { attrs: Attrs { strikethrough: true, ..st.attrs }, ..st }
    } else if code == 22 {
        SgrState { attrs: Attrs { bold: false, ..st.attrs }, ..st }
    } else if code == 23 {
        SgrState { attrs: Attrs { italic: false, ..st.attrs }, ..st }
    } else if code == 24 {
        SgrState { attrs: Attrs { underline: false, ..st.attrs }, ..st }
    } else if code == 25 {
        SgrState { attrs: Attrs { blink: false, ..st.attrs }, ..st }
    } else if code == 27 {
        SgrState { attrs: Attrs { reverse: false, ..st.attrs }, ..st }
    } else if code == 28 {
        SgrState { attrs: Attrs { hidden: false, ..st.attrs }, ..st }
    } else if code == 29 {
        SgrState { attrs: Attrs { strikethrough: false, ..st.attrs }, ..st }
    } else if 30 <= code && code <= 37 {
        SgrState { fg: Color::Indexed((code - 30) as u8), ..st }
    } else if code == 39 {
        SgrState { fg: Color::Default, ..st }
    } else if 40 <= code && code <= 47 {
        SgrState { bg: Color::Indexed((code - 40) as u8), ..st }
    } else if code == 49 {
        SgrState { bg: Color::Default, ..st }
    } else if 90 <= code && code <= 97 {
        SgrState { fg: Color::Indexed((code - 90 + 8) as u8), ..st }
    } else if 100 <= code && code <= 107 {
        SgrState { bg: Color::Indexed((code - 100 + 8) as u8), ..st }
    } else {
        st
    }
}

/// The SGR parameter list applied from index `i` on.
pub open spec fn sgr_run(st: SgrState, params: Seq<u16>, i: int) -> SgrState
    decreases params.len() - i,
{
    if i < 0 || i >= params.len() {
        st
    } else if params[i] == 38 {
        let (c, ni) = parse_ext_color(params, i + 1);
        let st2 = match c {
            Some(color) => SgrState { fg: color, ..st },
            None => st,
        };
        sgr_run(st2, params, ni)
    } else if params[i] == 48 {
        let (c, ni) = parse_ext_color(params, i + 1);
        let st2 = match c {
            Some(color) => SgrState { bg: color, ..st },
            None => st,
        };
        sgr_run(st2, params, ni)
    } else {
        sgr_run(sgr_apply_code(st, params[i]), params, i + 1)
    }
}

/// The whole SGR sequence: an empty parameter list means reset.
pub open spec fn ts_sgr(v: TsView, params: Seq<u16>) -> TsView {
    let st0 = SgrState { attrs: v.cursor.attrs, fg: v.cursor.fg, bg: v.cursor.bg };
    let st = if params.len() == 0 {
        sgr_reset()
    } else {
        sgr_run(st0, params, 0)
    };
    TsView {
        cursor: Cursor { attrs: st.attrs, fg: st.fg, bg: st.bg, ..v.cursor },
        dirty: true,
        ..v
    }
}

/// The private set/reset modes (`CSI ? ... h/l`) applied from index `i`:
/// cursor visibility (25) and the alternate screen (1049).
pub open spec fn ts_modes(v: TsView, params: Seq<u16>, i: int, set: bool) -> TsView
    decreases params.len() - i,
{
    if i < 0 || i >= params.len() {
        v
    } else {
        let v2 = if params[i] == 25 {
            TsView { cursor: Cursor { visible: set, ..v.cursor }, ..v }
        } else if params[i] == 1049 {
            if set {
                ts_enter_alt(v)
            } else {
                ts_exit_alt(v)
            }
        } else {
            v
        };
        ts_modes(v2, params, i + 1, set)
    }
}

/// A CSI control sequence applied to the screen.
pub open spec fn ts_csi(v: TsView, params: Seq<u16>, inter: Seq<u8>, action: char) -> TsView {
    let rows = v.rows as int;
    let cols = v.cols as int;
    let cur = v.cursor;
    if action == 'A' {
        let n = csi_p(params, 0, 1) as int;
        let row = if cur.row - n >= 0 {
            (cur.row - n) as u16
        } else {
            0u16
        };
        TsView { cursor: Cursor { row, ..cur }, dirty: true, ..v }
    } else if action == 'B' {
        let n = csi_p(params, 0, 1) as int;
        let row = if cur.row + n < rows - 1 {
            (cur.row + n) as u16
        } else {
            (rows - 1) as u16
        };
        TsView { cursor: Cursor { row, ..cur }, dirty: true, ..v }
    } else if action == 'C' {
        let n = csi_p(params, 0, 1) as int;
        let col = if cur.col + n < cols - 1 {
            (cur.col + n) as u16
        } else {
            (cols - 1) as u16
        };
        TsView { cursor: Cursor { col, ..cur }, dirty: true, ..v }
    } else if action == 'D' {
        let n = csi_p(params, 0, 1) as int;
        let col = if cur.col - n >= 0 {
            (cur.col - n) as u16
        } else {
            0u16
        };
        TsView { cursor: Cursor { col, ..cur }, dirty: true, ..v }
    } else if action == 'E' {
        let n = csi_p(params, 0, 1) as int;
        let row = if cur.row + n < rows - 1 {
            (cur.row + n) as u16
        } else {
            (rows - 1) as u16
        };
        TsView { cursor: Cursor { row, col: 0, ..cur }, dirty: true, ..v }
    } else if action == 'F' {
        let n = csi_p(params, 0, 1) as int;
        let row = if cur.row - n >= 0 {
            (cur.row - n) as u16
        } else {
            0u16
        };
        TsView { cursor: Cursor { row, col: 0, ..cur }, dirty: true, ..v }
    } else if action == 'G' {
        let c = csi_p(params, 0, 1) as int - 1;
        let col = if c < cols - 1 {
            c as u16
        } else {
            (cols - 1) as u16
        };
        TsView { cursor: Cursor { col, ..cur }, dirty: true, ..v }
    } else if action == 'H' || action == 'f' {
        let r = csi_p(params, 0, 1) as int - 1;
        let c = csi_p(params, 1, 1) as int - 1;
        let row = if r < rows - 1 {
            r as u16
        } else {
            (rows - 1) as u16
        };
        let col = if c < cols - 1 {
            c as u16
        } else {
            (cols - 1) as u16
        };
        TsView { cursor: Cursor { row, col, ..cur }, dirty: true, ..v }
    } else if action == 'J' {
        let mode = csi_p(params, 0, 0);
        let g = if mode == 0 {
            grid_clear_region(
                grid_clear_region(v.grid, cur.row as int, cur.col as int, cur.row as int, cols - 1),
                cur.row + 1,
                0,
                rows - 1,
                cols - 1,
            )
        } else if mode == 1 {
            grid_clear_region(
                grid_clear_region(v.grid, cur.row as int, 0, cur.row as int, cur.col as int),
                0,
                0,
                cur.row - 1,
                cols - 1,
            )
        } else if mode == 2 || mode == 3 {
            grid_clear_region(v.grid, 0, 0, rows - 1, cols - 1)
        } else {
            v.grid
        };
        TsView { grid: g, dirty: true, ..v }
    } else if action == 'K' {
        let mode = csi_p(params, 0, 0);
        let g = if mode == 0 {
            grid_clear_region(v.grid, cur.row as int, cur.col as int, cur.row as int, cols - 1)
        } else if mode == 1 {
            grid_clear_region(v.grid, cur.row as int, 0, cur.row as int, cur.col as int)
        } else if mode == 2 {
            grid_clear_region(v.grid, cur.row as int, 0, cur.row as int, cols - 1)
        } else {
            v.grid
        };
        TsView { grid: g, dirty: true, ..v }
    } else if action == 'L' {
        let n = csi_p(params, 0, 1);
        let g = if cur.row < v.scroll_bottom && v.scroll_bottom <= v.rows {
            scroll_down_n_spec(v.grid, cur.row as int, v.scroll_bottom as int, cols, n as nat)
        } else {
            v.grid
        };
        TsView { grid: g, dirty: true, ..v }
    } else if action == 'M' {
        let n = csi_p(params, 0, 1);
        let g = if cur.row < v.scroll_bottom && v.scroll_bottom <= v.rows {
            scroll_up_n_spec(v.grid, cur.row as int, v.scroll_bottom as int, cols, n as nat)
        } else {
            v.grid
        };
        TsView { grid: g, dirty: true, ..v }
    } else if action == 'P' {
        let n = csi_p(params, 0, 1) as int;
        let g = v.grid.update(
            cur.row as int,
            row_delete_cells(v.grid[cur.row as int], cur.col as int, n),
        );
        TsView { grid: g, dirty: true, ..v }
    } else if action == 'S' {
        let n = csi_p(params, 0, 1);
        let g = if v.scroll_top < v.scroll_bottom && v.scroll_bottom <= v.rows {
            scroll_up_n_spec(v.grid, v.scroll_top as int, v.scroll_bottom as int, cols, n as nat)
        } else {
            v.grid
        };
        TsView { grid: g, dirty: true, ..v }
    } else if action == 'T' {
        let n = csi_p(params, 0, 1);
        let g = if v.scroll_top < v.scroll_bottom && v.scroll_bottom <= v.rows {
            scroll_down_n_spec(v.grid, v.scroll_top as int, v.scroll_bottom as int, cols, n as nat)
        } else {
            v.grid
        };
        TsView { grid: g, dirty: true, ..v }
    } else if action == '@' {
        let n = csi_p(params, 0, 1) as int;
        let g = v.grid.update(
            cur.row as int,
            row_insert_cells(v.grid[cur.row as int], cur.col as int, n),
        );
        TsView { grid: g, dirty: true, ..v }
    } else if action == 'X' {
        let n = csi_p(params, 0, 1) as int;
        let g = grid_clear_region(
            v.grid,
            cur.row as int,
            cur.col as int,
            cur.row as int,
            cur.col + n - 1,
        );
        TsView { grid: g, dirty: true, ..v }
    } else if action == 'm' {
        ts_sgr(v, params)
    } else if action == 'r' {
        let top = (csi_p(params, 0, 1) - 1) as u16;
        let bottom = csi_p(params, 1, v.rows);
        let (t, b) = if top < bottom && bottom <= v.rows {
            (top, bottom)
        } else {
            (v.scroll_top, v.scroll_bottom)
        };
        TsView {
            scroll_top: t,
            scroll_bottom: b,
            cursor: Cursor { col: 0, row: 0, ..cur },
            dirty: true,
            ..v
        }
    } else if action == 's' {
        TsView { saved_cursor: Some((cur.col, cur.row, cur.attrs, cur.fg, cur.bg)), ..v }
    } else if action == 'u' {
        match v.saved_cursor {
            Some((col, row, attrs, fg, bg)) => {
                let ccol = if col < v.cols {
                    col
                } else {
                    (v.cols - 1) as u16
                };
                let crow = if row < v.rows {
                    row
                } else {
                    (v.rows - 1) as u16
                };
                TsView {
                    cursor: Cursor { col: ccol, row: crow, attrs, fg, bg, ..cur },
                    dirty: true,
                    ..v
                }
            },
            None => TsView { dirty: true, ..v },
        }
    } else if action == 'h' || action == 'l' {
        if inter == seq![0x3Fu8] {
            TsView { dirty: true, ..ts_modes(v, params, 0, action == 'h') }
        } else {
            v
        }
    } else {
        v
    }
}

/// An ESC-dispatched control: save/restore cursor, index, reverse index,
/// next line.
pub open spec fn ts_esc(v: TsView, b: u8) -> TsView {
    let cur = v.cursor;
    if b == 0x37 {
        TsView { saved_cursor: Some((cur.col, cur.row, cur.attrs, cur.fg, cur.bg)), ..v }
    } else if b == 0x38 {
        match v.saved_cursor {
            Some((col, row, attrs, fg, bg)) => {
                let ccol = if col < v.cols {
                    col
                } else {
                    (v.cols - 1) as u16
                };
                let crow = if row < v.rows {
                    row
                } else {
                    (v.rows - 1) as u16
                };
                TsView {
                    cursor: Cursor { col: ccol, row: crow, attrs, fg, bg, ..cur },
                    dirty: true,
                    ..v
                }
            },
            None => v,
        }
    } else if b == 0x4D {
        if cur.row == v.scroll_top {
            TsView {
                grid: scroll_down_spec(
                    v.grid,
                    v.scroll_top as int,
                    v.scroll_bottom as int,
                    v.cols as int,
                ),
                dirty: true,
                ..v
            }
        } else if cur.row > 0 {
            TsView {
                cursor: Cursor { row: (cur.row - 1) as u16, ..cur },
                dirty: true,
                ..v
            }
        } else {
            TsView { dirty: true, ..v }
        }
    } else if b == 0x44 {
        TsView { dirty: true, ..ts_line_feed(v) }
    } else if b == 0x45 {
        TsView { dirty: true, ..ts_line_feed(TsView { cursor: Cursor { col: 0, ..cur }, ..v }) }
    } else {
        v
    }
}

/// An OSC string: codes 0 and 2 set the window title (ASCII bytes only;
/// others are dropped).
pub open spec fn ascii_chars(bytes: Seq<u8>) -> Seq<char>
    decreases bytes.len(),
{
    if bytes.len() == 0 {
        Seq::empty()
    } else if bytes.last() < 0x80 {
        ascii_chars(bytes.drop_last()).push(bytes.last() as char)
    } else {
        ascii_chars(bytes.drop_last())
    }
}

pub open spec fn ts_osc(v: TsView, osc: Seq<u8>) -> TsView {
    if osc.len() >= 2 && (osc[0] == 0x30 || osc[0] == 0x32) && osc[1] == 0x3B {
        TsView { title: ascii_chars(osc.subrange(2, osc.len() as int)), ..v }
    } else {
        v
    }
}

/// Entering and leaving the alternate screen restores the primary grid,
/// cursor, scroll region and saved cursor exactly.
pub proof fn lemma_alt_screen_round_trip(v: TsView)
    requires
        !v.using_alt_screen,
    ensures
        ts_exit_alt(ts_enter_alt(v)).grid == v.grid,
        ts_exit_alt(ts_enter_alt(v)).cursor == v.cursor,
        ts_exit_alt(ts_enter_alt(v)).scroll_top == v.scroll_top,
        ts_exit_alt(ts_enter_alt(v)).scroll_bottom == v.scroll_bottom,
        ts_exit_alt(ts_enter_alt(v)).saved_cursor == v.saved_cursor,
        !ts_exit_alt(ts_enter_alt(v)).using_alt_screen,
{
}

/// Whatever happens while on the alternate screen, leaving it restores
/// the primary grid, cursor, scroll region and saved cursor bit for bit,
/// as long as the alternate slots were left alone (no screen operation
/// but enter, exit and resize touches them).
pub proof fn lemma_alt_screen_session(v: TsView, w: TsView)
    requires
        !v.using_alt_screen,
        w.using_alt_screen,
        w.alt_grid == ts_enter_alt(v).alt_grid,
        w.alt_cursor == ts_enter_alt(v).alt_cursor,
        w.alt_scroll_top == ts_enter_alt(v).alt_scroll_top,
        w.alt_scroll_bottom == ts_enter_alt(v).alt_scroll_bottom,
        w.alt_saved_cursor == ts_enter_alt(v).alt_saved_cursor,
    ensures
        ts_exit_alt(w).grid == v.grid,
        ts_exit_alt(w).cursor == v.cursor,
        ts_exit_alt(w).scroll_top == v.scroll_top,
        ts_exit_alt(w).scroll_bottom == v.scroll_bottom,
        ts_exit_alt(w).saved_cursor == v.saved_cursor,
        !ts_exit_alt(w).using_alt_screen,
{
}

/// The `idx`-th parameter of a CSI sequence, or `default` when absent or
/// zero.
fn csi_param(params: &Vec<u16>, idx: usize, default: u16) -> (r: u16)
    ensures
        r == csi_p(params@, idx as int, default),
{
    if idx < params.len() {
        let p = params[idx];
        if p != 0 {
            p
        } else {
            default
        }
    } else {
        default
    }
}

/// A row with `n` cells deleted at `col`, shifted left and blank-padded.
fn shifted_row_delete(row: &Vec<Cell>, col: u16, n: u16) -> (r: Vec<Cell>)
    ensures
        r@ =~= row_delete_cells(row@, col as int, n as int),
{
    let len = row.len();
    let mut out: Vec<Cell> = Vec::new();
    let mut j: usize = 0;
    while j < len
        invariant
            len == row@.len(),
            j <= len,
            out@.len() == j,
            forall|q: int|
                0 <= q < j ==> #[trigger] out@[q] == row_delete_cells(
                    row@,
                    col as int,
                    n as int,
                )[q],
        decreases len - j,
    {
        if j < col as usize {
            out.push(row[j]);
        } else if ((n as usize) < len) && (j < len - (n as usize)) {
            out.push(row[j + n as usize]);
        } else {
            out.push(Cell::default());
        }
        j += 1;
    }
    out
}

/// A row with `n` blank cells inserted at `col`, shifting right.
fn shifted_row_insert(row: &Vec<Cell>, col: u16, n: u16) -> (r: Vec<Cell>)
    ensures
        r@ =~= row_insert_cells(row@, col as int, n as int),
{
    let len = row.len();
    let mut out: Vec<Cell> = Vec::new();
    let mut j: usize = 0;
    while j < len
        invariant
            len == row@.len(),
            j <= len,
            out@.len() == j,
            forall|q: int|
                0 <= q < j ==> #[trigger] out@[q] == row_insert_cells(
                    row@,
                    col as int,
                    n as int,
                )[q],
        decreases len - j,
    {
        if j < col as usize {
            out.push(row[j]);
        } else if j < col as usize + n as usize {
            out.push(Cell::default());
        } else {
            out.push(row[j - n as usize]);
        }
        j += 1;
    }
    out
}

impl TerminalState {
    pub fn new(cols: u16, rows: u16) -> (r: TerminalState)
        requires
            cols >= 1,
            rows >= 1,
        ensures
            r@ =~~= TsView::init(cols, rows),
            r.inv(),
    {
        TerminalState {
            grid: Grid::new(cols, rows),
            cursor: Cursor::default(),
            scroll_top: 0,
            scroll_bottom: rows,
            saved_cursor: None,
            title: String::new(),
            dirty: true,
            alt_grid: None,
            alt_cursor: None,
            alt_scroll_top: None,
            alt_scroll_bottom: None,
            alt_saved_cursor: None,
            using_alt_screen: false,
        }
    }

    pub fn cols(&self) -> (r: u16)
        ensures
            r == self@.cols,
    {
        self.grid.cols
    }

    pub fn rows(&self) -> (r: u16)
        ensures
            r == self@.rows,
    {
        self.grid.rows
    }

    #[verifier::rlimit(100)]
    #[verifier::spinoff_prover]
    pub fn resize(&mut self, cols: u16, rows: u16)
        requires
            old(self).inv(),
            cols >= 1,
            rows >= 1,
        ensures
            final(self).inv(),
            final(self)@.cols == cols,
            final(self)@.rows == rows,
            forall|i: int, j: int|
                0 <= i < rows && 0 <= j < cols ==> #[trigger] final(self)@.grid[i][j] == if i < old(
                    self,
                )@.rows && j < old(self)@.cols {
                    old(self)@.grid[i][j]
                } else {
                    Cell::spec_default()
                },
            final(self)@.scroll_top == 0,
            final(self)@.scroll_bottom == rows,
            final(self)@.cursor == (Cursor {
                col: if old(self)@.cursor.col < cols {
                    old(self)@.cursor.col
                } else {
                    (cols - 1) as u16
                },
                row: if old(self)@.cursor.row < rows {
                    old(self)@.cursor.row
                } else {
                    (rows - 1) as u16
                },
                ..old(self)@.cursor
            }),
            final(self)@.saved_cursor == old(self)@.saved_cursor,
            final(self)@.title == old(self)@.title,
            final(self)@.dirty,
            final(self)@.using_alt_screen == old(self)@.using_alt_screen,
            final(self)@.alt_grid is Some <==> old(self)@.alt_grid is Some,
    {
        self.grid.resize(cols, rows);
        self.scroll_top = 0;
        self.scroll_bottom = rows;
        if self.cursor.col >= cols {
            self.cursor.col = cols - 1;
        }
        if self.cursor.row >= rows {
            self.cursor.row = rows - 1;
        }
        match &mut self.alt_grid {
            Some(g) => {
                g.resize(cols, rows);
            },
            None => {},
        }
        match &mut self.alt_cursor {
            Some(c) => {
                if c.col >= cols {
                    c.col = cols - 1;
                }
                if c.row >= rows {
                    c.row = rows - 1;
                }
            },
            None => {},
        }
        // A resize invalidates any saved scroll region: reset it to the
        // full new screen, as the live one is.
        match &self.alt_scroll_top {
            Some(_) => {
                self.alt_scroll_top = Some(0);
                self.alt_scroll_bottom = Some(rows);
            },
            None => {},
        }
        self.dirty = true;
    }

    /// Write one glyph of display width `w` at the cursor and advance.
    pub fn print(&mut self, c: char, w: u8)
        requires
            old(self).inv(),
            w <= 2,
        ensures
            final(self).inv(),
            final(self)@ =~~= ts_print(old(self)@, c, w as nat),
    {
        if w == 0 {
            return ;
        }
        let wide = w >= 2 && self.cursor.col + 1 < self.grid.cols;
        let cell = Cell {
            ch: c,
            fg: self.cursor.fg,
            bg: self.cursor.bg,
            attrs: self.cursor.attrs,
            width: if wide {
                2
            } else {
                1
            },
        };
        self.grid.set_cell(self.cursor.col, self.cursor.row, cell);
        if wide {
            let cont = Cell {
                ch: ' ',
                fg: self.cursor.fg,
                bg: self.cursor.bg,
                attrs: self.cursor.attrs,
                width: 0,
            };
            self.grid.set_cell(self.cursor.col + 1, self.cursor.row, cont);
            self.cursor.col = self.cursor.col + 1;
        }
        self.dirty = true;
        self.advance_cursor();
    }

    /// Move the cursor right one column, wrapping with a line feed at the
    /// right margin.
    fn advance_cursor(&mut self)
        requires
            old(self).inv(),
        ensures
            final(self).inv(),
            final(self)@ =~~= ts_advance_cursor(old(self)@),
    {
        if self.cursor.col + 1 >= self.grid.cols {
            self.cursor.col = 0;
            self.line_feed();
        } else {
            self.cursor.col = self.cursor.col + 1;
        }
    }

    /// Move the cursor down one line, scrolling the region at its bottom.
    fn line_feed(&mut self)
        requires
            old(self).inv(),
        ensures
            final(self).inv(),
            final(self)@ =~~= ts_line_feed(old(self)@),
    {
        if self.cursor.row + 1 >= self.scroll_bottom {
            self.grid.scroll_up(self.scroll_top, self.scroll_bottom);
        } else {
            self.cursor.row = self.cursor.row + 1;
        }
    }

    /// Handle a C0 control byte.
    pub fn execute(&mut self, b: u8)
        requires
            old(self).inv(),
        ensures
            final(self).inv(),
            final(self)@ =~~= ts_execute(old(self)@, b),
    {
        if b == 0x08 {
            if self.cursor.col > 0 {
                self.cursor.col = self.cursor.col - 1;
            }
        } else if b == 0x09 {
            let next_tab: u32 = ((self.cursor.col as u32 / 8) + 1) * 8;
            let limit: u32 = (self.grid.cols - 1) as u32;
            self.cursor.col = if next_tab < limit {
                next_tab as u16
            } else {
                limit as u16
            };
        } else if b == 0x0A || b == 0x0B || b == 0x0C {
            self.line_feed();
            self.dirty = true;
        } else if b == 0x0D {
            self.cursor.col = 0;
        }
    }

    /// Apply an SGR parameter list to the cursor's attributes and colors.
    /// Apply an SGR parameter list to the cursor's attributes and colors.
    #[verifier::rlimit(100)]
    #[verifier::spinoff_prover]
    fn apply_sgr(&mut self, params: &Vec<u16>)
        requires
            old(self).inv(),
        ensures
            final(self).inv(),
            final(self)@ =~~= ts_sgr(old(self)@, params@),
    {
        if params.len() == 0 {
            self.cursor.attrs = Attrs::default();
            self.cursor.fg = Color::Default;
            self.cursor.bg = Color::Default;
            self.dirty = true;
            return ;
        }
        let ghost st0 = SgrState {
            attrs: self.cursor.attrs,
            fg: self.cursor.fg,
            bg: self.cursor.bg,
        };
        let mut cattrs: Attrs = self.cursor.attrs;
        let mut cfg: Color = self.cursor.fg;
        let mut cbg: Color = self.cursor.bg;
        let n = params.len();
        let mut i: usize = 0;
        while i < n
            invariant
                n == params@.len(),
                i <= n,
                sgr_run(SgrState { attrs: cattrs, fg: cfg, bg: cbg }, params@, i as int)
                    == sgr_run(st0, params@, 0),
            decreases n - i,
        {
            let ghost st_pre = SgrState { attrs: cattrs, fg: cfg, bg: cbg };
            let code = params[i];
            if code == 38 || code == 48 {
                let is_fg = code == 38;
                let mut color: Option<Color> = None;
                let mut ni: usize = i + 1;
                if n - i > 1 {
                    if params[i + 1] == 2 {
                        if n - i > 4 {
                            color = Some(
                                Color::Rgb(
                                    params[i + 2] as u8,
                                    params[i + 3] as u8,
                                    params[i + 4] as u8,
                                ),
                            );
                            ni = i + 5;
                        } else {
                            ni = i + 2;
                        }
                    } else if params[i + 1] == 5 {
                        if n - i > 2 {
                            color = Some(Color::Indexed(params[i + 2] as u8));
                            ni = i + 3;
                        } else {
                            ni = i + 2;
                        }
                    }
                }
                proof {
                    assert((color, ni as int) == parse_ext_color(params@, i + 1));
                }
                match color {
                    Some(c) => {
                        if is_fg {
                            cfg = c;
                        } else {
                            cbg = c;
                        }
                    },
                    None => {},
                }
                i = ni;
            } else {
                if code == 0 {
                    cattrs = Attrs::default();
                    cfg = Color::Default;
                    cbg = Color::Default;
                } else if code == 1 {
                    cattrs.bold = true;
                } else if code == 3 {
                    cattrs.italic = true;
                } else if code == 4 {
                    cattrs.underline = true;
                } else if code == 5 {
                    cattrs.blink = true;
                } else if code == 7 {
                    cattrs.reverse = true;
                } else if code == 8 {
                    cattrs.hidden = true;
                } else if code == 9 {
                    cattrs.strikethrough = true;
                } else if code == 22 {
                    cattrs.bold = false;
                } else if code == 23 {
                    cattrs.italic = false;
                } else if code == 24 {
                    cattrs.underline = false;
                } else if code == 25 {
                    cattrs.blink = false;
                } else if code == 27 {
                    cattrs.reverse = false;
                } else if code == 28 {
                    cattrs.hidden = false;
                } else if code == 29 {
                    cattrs.strikethrough = false;
                } else if 30 <= code && code <= 37 {
                    cfg = Color::Indexed((code - 30) as u8);
                } else if code == 39 {
                    cfg = Color::Default;
                } else if 40 <= code && code <= 47 {
                    cbg = Color::Indexed((code - 40) as u8);
                } else if code == 49 {
                    cbg = Color::Default;
                } else if 90 <= code && code <= 97 {
                    cfg = Color::Indexed((code - 90 + 8) as u8);
                } else if 100 <= code && code <= 107 {
                    cbg = Color::Indexed((code - 100 + 8) as u8);
                }
                proof {
                    assert(SgrState { attrs: cattrs, fg: cfg, bg: cbg } == sgr_apply_code(
                        st_pre,
                        code,
                    ));
                }
                i = i + 1;
            }
        }
        self.cursor.attrs = cattrs;
        self.cursor.fg = cfg;
        self.cursor.bg = cbg;
        self.dirty = true;
    }

    /// Apply the private set/reset modes of `CSI ? ... h/l`.
    #[verifier::rlimit(100)]
    #[verifier::spinoff_prover]
    fn apply_modes(&mut self, params: &Vec<u16>, set: bool)
        requires
            old(self).inv(),
        ensures
            final(self).inv(),
            final(self)@ =~~= ts_modes(old(self)@, params@, 0, set),
    {
        let n = params.len();
        let mut i: usize = 0;
        while i < n
            invariant
                self.inv(),
                n == params@.len(),
                i <= n,
                ts_modes(self@, params@, i as int, set) =~~= ts_modes(old(self)@, params@, 0, set),
            decreases n - i,
        {
            let ghost pre = self@;
            let p = params[i];
            if p == 25 {
                self.cursor.visible = set;
            } else if p == 1049 {
                if set {
                    self.enter_alt_screen();
                } else {
                    self.exit_alt_screen();
                }
            }
            proof {
                assert(self@ =~~= if p == 25 {
                    TsView { cursor: Cursor { visible: set, ..pre.cursor }, ..pre }
                } else if p == 1049 {
                    if set {
                        ts_enter_alt(pre)
                    } else {
                        ts_exit_alt(pre)
                    }
                } else {
                    pre
                });
            }
            i += 1;
        }
    }

    /// Cursor-movement CSI actions.
    #[verifier::rlimit(100)]
    #[verifier::spinoff_prover]
    fn csi_cursor(&mut self, params: &Vec<u16>, intermediates: &Vec<u8>, action: char)
        requires
            old(self).inv(),
            action == 'A' || action == 'B' || action == 'C' || action == 'D' || action == 'E'
                || action == 'F' || action == 'G' || action == 'H' || action == 'f',
        ensures
            final(self).inv(),
            final(self)@ =~~= ts_csi(old(self)@, params@, intermediates@, action),
    {
        let rows = self.grid.rows;
        let cols = self.grid.cols;
        if action == 'A' {
            let n = csi_param(params, 0, 1);
            self.cursor.row = if self.cursor.row > n {
                self.cursor.row - n
            } else {
                0
            };
            self.dirty = true;
        } else if action == 'B' {
            let n = csi_param(params, 0, 1);
            let sum = self.cursor.row as u32 + n as u32;
            self.cursor.row = if sum < (rows - 1) as u32 {
                sum as u16
            } else {
                rows - 1
            };
            self.dirty = true;
        } else if action == 'C' {
            let n = csi_param(params, 0, 1);
            let sum = self.cursor.col as u32 + n as u32;
            self.cursor.col = if sum < (cols - 1) as u32 {
                sum as u16
            } else {
                cols - 1
            };
            self.dirty = true;
        } else if action == 'D' {
            let n = csi_param(params, 0, 1);
            self.cursor.col = if self.cursor.col > n {
                self.cursor.col - n
            } else {
                0
            };
            self.dirty = true;
        } else if action == 'E' {
            let n = csi_param(params, 0, 1);
            let sum = self.cursor.row as u32 + n as u32;
            self.cursor.row = if sum < (rows - 1) as u32 {
                sum as u16
            } else {
                rows - 1
            };
            self.cursor.col = 0;
            self.dirty = true;
        } else if action == 'F' {
            let n = csi_param(params, 0, 1);
            self.cursor.row = if self.cursor.row > n {
                self.cursor.row - n
            } else {
                0
            };
            self.cursor.col = 0;
            self.dirty = true;
        } else if action == 'G' {
            let c = csi_param(params, 0, 1) - 1;
            self.cursor.col = if c < cols - 1 {
                c
            } else {
                cols - 1
            };
            self.dirty = true;
        } else {
            let r = csi_param(params, 0, 1) - 1;
            let c = csi_param(params, 1, 1) - 1;
            self.cursor.row = if r < rows - 1 {
                r
            } else {
                rows - 1
            };
            self.cursor.col = if c < cols - 1 {
                c
            } else {
                cols - 1
            };
            self.dirty = true;
        }
    }

    /// Erase CSI actions: in display, in line, by cell count.
    #[verifier::rlimit(100)]
    #[verifier::spinoff_prover]
    fn csi_erase(&mut self, params: &Vec<u16>, intermediates: &Vec<u8>, action: char)
        requires
            old(self).inv(),
            action == 'J' || action == 'K' || action == 'X',
        ensures
            final(self).inv(),
            final(self)@ =~~= ts_csi(old(self)@, params@, intermediates@, action),
    {
        let rows = self.grid.rows;
        let cols = self.grid.cols;
        if action == 'J' {
            let mode = csi_param(params, 0, 0);
            if mode == 0 {
                self.grid.clear_region(self.cursor.row, self.cursor.col, self.cursor.row, cols - 1);
                if self.cursor.row + 1 <= rows - 1 {
                    self.grid.clear_region(self.cursor.row + 1, 0, rows - 1, cols - 1);
                }
            } else if mode == 1 {
                self.grid.clear_region(self.cursor.row, 0, self.cursor.row, self.cursor.col);
                if self.cursor.row > 0 {
                    self.grid.clear_region(0, 0, self.cursor.row - 1, cols - 1);
                }
            } else if mode == 2 || mode == 3 {
                self.grid.clear_region(0, 0, rows - 1, cols - 1);
            }
            self.dirty = true;
            proof {
                assert(self@.grid =~~= ts_csi(old(self)@, params@, intermediates@, action).grid);
            }
        } else if action == 'K' {
            let mode = csi_param(params, 0, 0);
            if mode == 0 {
                self.grid.clear_region(self.cursor.row, self.cursor.col, self.cursor.row, cols - 1);
            } else if mode == 1 {
                self.grid.clear_region(self.cursor.row, 0, self.cursor.row, self.cursor.col);
            } else if mode == 2 {
                self.grid.clear_region(self.cursor.row, 0, self.cursor.row, cols - 1);
            }
            self.dirty = true;
            proof {
                assert(self@.grid =~~= ts_csi(old(self)@, params@, intermediates@, action).grid);
            }
        } else {
            let n = csi_param(params, 0, 1);
            let hi: u32 = self.cursor.col as u32 + n as u32 - 1;
            let right: u16 = if hi < (cols - 1) as u32 {
                hi as u16
            } else {
                cols - 1
            };
            self.grid.clear_region(self.cursor.row, self.cursor.col, self.cursor.row, right);
            self.dirty = true;
            proof {
                assert(self@.grid =~~= ts_csi(old(self)@, params@, intermediates@, action).grid);
            }
        }
    }

    /// Line insertion, deletion and region scrolls.
    #[verifier::rlimit(100)]
    #[verifier::spinoff_prover]
    fn csi_lines(&mut self, params: &Vec<u16>, intermediates: &Vec<u8>, action: char)
        requires
            old(self).inv(),
            action == 'L' || action == 'M' || action == 'S' || action == 'T' || action == 'P'
                || action == '@',
        ensures
            final(self).inv(),
            final(self)@ =~~= ts_csi(old(self)@, params@, intermediates@, action),
    {
        if action == 'L' {
            let n = csi_param(params, 0, 1);
            self.grid.insert_lines(self.cursor.row, n, self.scroll_bottom);
            self.dirty = true;
        } else if action == 'M' {
            let n = csi_param(params, 0, 1);
            self.grid.delete_lines(self.cursor.row, n, self.scroll_bottom);
            self.dirty = true;
        } else if action == 'S' {
            let n = csi_param(params, 0, 1);
            self.grid.delete_lines(self.scroll_top, n, self.scroll_bottom);
            self.dirty = true;
        } else if action == 'T' {
            let n = csi_param(params, 0, 1);
            self.grid.insert_lines(self.scroll_top, n, self.scroll_bottom);
            self.dirty = true;
        } else if action == 'P' {
            let n = csi_param(params, 0, 1);
            let row = self.cursor.row;
            let col = self.cursor.col;
            let new_row = shifted_row_delete(self.grid.row(row), col, n);
            let r = self.grid.row_mut(row);
            *r = new_row;
            self.dirty = true;
            proof {
                assert(self@.grid =~~= ts_csi(old(self)@, params@, intermediates@, action).grid);
            }
        } else {
            let n = csi_param(params, 0, 1);
            let row = self.cursor.row;
            let col = self.cursor.col;
            let new_row = shifted_row_insert(self.grid.row(row), col, n);
            let r = self.grid.row_mut(row);
            *r = new_row;
            self.dirty = true;
            proof {
                assert(self@.grid =~~= ts_csi(old(self)@, params@, intermediates@, action).grid);
            }
        }
    }

    /// Apply one complete CSI control sequence.
    #[verifier::rlimit(100)]
    #[verifier::spinoff_prover]
    pub fn csi_dispatch(&mut self, params: &Vec<u16>, intermediates: &Vec<u8>, action: char)
        requires
            old(self).inv(),
        ensures
            final(self).inv(),
            final(self)@ =~~= ts_csi(old(self)@, params@, intermediates@, action),
    {
        let rows = self.grid.rows;
        let cols = self.grid.cols;
        if action == 'A' || action == 'B' || action == 'C' || action == 'D' || action == 'E'
            || action == 'F' || action == 'G' || action == 'H' || action == 'f' {
            self.csi_cursor(params, intermediates, action);
        } else if action == 'J' || action == 'K' || action == 'X' {
            self.csi_erase(params, intermediates, action);
        } else if action == 'L' || action == 'M' || action == 'S' || action == 'T' || action == 'P'
            || action == '@' {
            self.csi_lines(params, intermediates, action);
        } else if action == 'm' {
            self.apply_sgr(params);
        } else if action == 'r' {
            let top = csi_param(params, 0, 1) - 1;
            let bottom = csi_param(params, 1, rows);
            if top < bottom && bottom <= rows {
                self.scroll_top = top;
                self.scroll_bottom = bottom;
            }
            self.cursor.col = 0;
            self.cursor.row = 0;
            self.dirty = true;
        } else if action == 's' {
            self.saved_cursor = Some(
                (self.cursor.col, self.cursor.row, self.cursor.attrs, self.cursor.fg,
                self.cursor.bg),
            );
        } else if action == 'u' {
            match self.saved_cursor {
                Some((col, row, attrs, fg, bg)) => {
                    self.cursor.col = if col < cols {
                        col
                    } else {
                        cols - 1
                    };
                    self.cursor.row = if row < rows {
                        row
                    } else {
                        rows - 1
                    };
                    self.cursor.attrs = attrs;
                    self.cursor.fg = fg;
                    self.cursor.bg = bg;
                },
                None => {},
            }
            self.dirty = true;
        } else if action == 'h' || action == 'l' {
            if intermediates.len() == 1 && intermediates[0] == 0x3F {
                proof {
                    assert(intermediates@ =~= seq![0x3Fu8]);
                }
                self.apply_modes(params, action == 'h');
                self.dirty = true;
            } else {
                proof {
                    assert(intermediates@ != seq![0x3Fu8]);
                }
            }
        }
    }

    /// Apply an ESC-dispatched control function.
    pub fn esc_dispatch(&mut self, b: u8)
        requires
            old(self).inv(),
        ensures
            final(self).inv(),
            final(self)@ =~~= ts_esc(old(self)@, b),
    {
        let rows = self.grid.rows;
        let cols = self.grid.cols;
        if b == 0x37 {
            self.saved_cursor = Some(
                (self.cursor.col, self.cursor.row, self.cursor.attrs, self.cursor.fg,
                self.cursor.bg),
            );
        } else if b == 0x38 {
            match self.saved_cursor {
                Some((col, row, attrs, fg, bg)) => {
                    self.cursor.col = if col < cols {
                        col
                    } else {
                        cols - 1
                    };
                    self.cursor.row = if row < rows {
                        row
                    } else {
                        rows - 1
                    };
                    self.cursor.attrs = attrs;
                    self.cursor.fg = fg;
                    self.cursor.bg = bg;
                    self.dirty = true;
                },
                None => {},
            }
        } else if b == 0x4D {
            if self.cursor.row == self.scroll_top {
                self.grid.scroll_down(self.scroll_top, self.scroll_bottom);
            } else if self.cursor.row > 0 {
                self.cursor.row = self.cursor.row - 1;
            }
            self.dirty = true;
        } else if b == 0x44 {
            self.line_feed();
            self.dirty = true;
        } else if b == 0x45 {
            self.cursor.col = 0;
            self.line_feed();
            self.dirty = true;
        }
    }

    /// Apply a complete OSC string: codes 0 and 2 set the window title.
    pub fn osc_dispatch(&mut self, osc: &Vec<u8>)
        requires
            old(self).inv(),
        ensures
            final(self).inv(),
            final(self)@ =~~= ts_osc(old(self)@, osc@),
    {
        if osc.len() >= 2 && (osc[0] == 0x30 || osc[0] == 0x32) && osc[1] == 0x3B {
            let mut title = String::new();
            let mut i: usize = 2;
            while i < osc.len()
                invariant
                    2 <= i <= osc@.len(),
                    title@ =~= ascii_chars(osc@.subrange(2, i as int)),
                decreases osc@.len() - i,
            {
                proof {
                    let pre = osc@.subrange(2, i + 1 as int);
                    assert(pre.drop_last() =~= osc@.subrange(2, i as int));
                    assert(pre.last() == osc@[i as int]);
                }
                let b = osc[i];
                if b < 0x80 {
                    crate::chars::push_char(&mut title, b as char);
                }
                i += 1;
            }
            proof {
                assert(osc@.subrange(2, osc@.len() as int) =~= osc@.subrange(
                    2,
                    osc@.len() as int,
                ));
            }
            self.title = title;
            proof {
                assert(self@ =~~= ts_osc(old(self)@, osc@));
            }
        }
    }

    /// Enter the alternate screen (a no-op when already there).
    fn enter_alt_screen(&mut self)
        requires
            old(self).inv(),
        ensures
            final(self).inv(),
            final(self)@ =~~= ts_enter_alt(old(self)@),
    {
        if !self.using_alt_screen {
            let cols = self.grid.cols;
            let rows = self.grid.rows;
            let mut fresh = Grid::new(cols, rows);
            core::mem::swap(&mut self.grid, &mut fresh);
            self.alt_grid = Some(fresh);
            self.alt_cursor = Some(self.cursor);
            self.alt_scroll_top = Some(self.scroll_top);
            self.alt_scroll_bottom = Some(self.scroll_bottom);
            self.alt_saved_cursor = Some(self.saved_cursor);
            self.cursor = Cursor::default();
            self.scroll_top = 0;
            self.scroll_bottom = rows;
            self.saved_cursor = None;
            self.using_alt_screen = true;
        }
    }

    /// Leave the alternate screen (a no-op when not in it).
    fn exit_alt_screen(&mut self)
        requires
            old(self).inv(),
        ensures
            final(self).inv(),
            final(self)@ =~~= ts_exit_alt(old(self)@),
    {
        if self.using_alt_screen {
            let mut taken: Option<Grid> = None;
            core::mem::swap(&mut self.alt_grid, &mut taken);
            match taken {
                Some(g) => {
                    self.grid = g;
                },
                None => {},
            }
            let mut taken_c: Option<Cursor> = None;
            core::mem::swap(&mut self.alt_cursor, &mut taken_c);
            match taken_c {
                Some(c) => {
                    self.cursor = c;
                },
                None => {},
            }
            let mut taken_t: Option<u16> = None;
            core::mem::swap(&mut self.alt_scroll_top, &mut taken_t);
            match taken_t {
                Some(t) => {
                    self.scroll_top = t;
                },
                None => {},
            }
            let mut taken_b: Option<u16> = None;
            core::mem::swap(&mut self.alt_scroll_bottom, &mut taken_b);
            match taken_b {
                Some(b) => {
                    self.scroll_bottom = b;
                },
                None => {},
            }
            let mut taken_s: Option<Option<SavedCursor>> = None;
            core::mem::swap(&mut self.alt_saved_cursor, &mut taken_s);
            match taken_s {
                Some(sc) => {
                    self.saved_cursor = sc;
                },
                None => {},
            }
            self.using_alt_screen = false;
        }
    }
}


/// Recognizer states of the control-sequence parser.
#[derive(Debug, Clone, Copy, PartialEq, Eq, Structural)]
pub enum PState {
    Ground,
    Escape,
    Csi,
    Osc,
    Utf8,
}

/// Mathematical model of the byte parser.
#[verifier::ext_equal]
pub struct ParserView {
    pub state: PState,
    pub params: Seq<u16>,
    pub cur: u16,
    pub cur_set: bool,
    pub intermediates: Seq<u8>,
    pub osc: Seq<u8>,
    pub utf8_cp: u32,
    pub utf8_left: u8,
}

impl ParserView {
    /// A parser at rest in the ground state.
    pub open spec fn init() -> ParserView {
        ParserView {
            state: PState::Ground,
            params: Seq::empty(),
            cur: 0,
            cur_set: false,
            intermediates: Seq::empty(),
            osc: Seq::empty(),
            utf8_cp: 0,
            utf8_left: 0,
        }
    }
}

/// The byte parser: collects escape and control sequences and multi-byte
/// characters before they are applied to the screen.
pub struct Parser {
    pub state: PState,
    pub params: Vec<u16>,
    pub cur: u16,
    pub cur_set: bool,
    pub intermediates: Vec<u8>,
    pub osc: Vec<u8>,
    pub utf8_cp: u32,
    pub utf8_left: u8,
}

impl View for Parser {
    type V = ParserView;

    open spec fn view(&self) -> ParserView {
        ParserView {
            state: self.state,
            params: self.params@,
            cur: self.cur,
            cur_set: self.cur_set,
            intermediates: self.intermediates@,
            osc: self.osc@,
            utf8_cp: self.utf8_cp,
            utf8_left: self.utf8_left,
        }
    }
}

/// Mathematical model of a whole terminal: screen plus parser.
#[verifier::ext_equal]
pub struct TermV {
    pub ts: TsView,
    pub p: ParserView,
}

/// The display width of a character, if any: the result of the Unicode
/// East Asian Width lookup.
pub uninterp spec fn wcwidth_of(c: char) -> Option<usize>;

/// Relies on unicode_width::UnicodeWidthChar::width: the width depends on
/// the character alone; it is at most 3, control characters have none, and
/// printable ASCII is single width.
#[verifier::external_body]
fn char_display_width(c: char) -> (r: Option<usize>)
    ensures
        r == wcwidth_of(c),
        r matches Some(w) ==> w <= 3,
        (0x20 <= (c as u32) && (c as u32) < 0x7F) ==> r == Some(1usize),
{
    unicode_width::UnicodeWidthChar::width(c)
}

/// The display width of one character as the terminal draws it, so
/// callers can reason about what printing writes: printable ASCII always
/// takes one column.
pub fn glyph_width_of(c: char) -> (w: u8)
    ensures
        w as nat == glyph_width(c),
        w <= 2,
        (0x20 <= (c as u32) && (c as u32) < 0x7F) ==> w == 1,
{
    match char_display_width(c) {
        Some(x) => if x >= 2 {
            2u8
        } else {
            x as u8
        },
        None => 1u8,
    }
}

/// The width a printed glyph occupies on the grid: widths above two are
/// drawn as wide glyphs, control characters default to one column.
pub open spec fn glyph_width(c: char) -> nat {
    match wcwidth_of(c) {
        Some(w) => if w >= 2 {
            2nat
        } else {
            w as nat
        },
        None => 1nat,
    }
}

/// Saturating decimal accumulation of one CSI parameter digit.
pub open spec fn push_digit(cur: u16, d: u8) -> u16 {
    if cur as int * 10 + d as int <= 65535 {
        (cur * 10 + d) as u16
    } else {
        65535u16
    }
}

/// One byte fed to the terminal: the recognizer consumes it and applies
/// any completed control function or glyph to the screen.
pub open spec fn term_step(t: TermV, b: u8) -> TermV {
    let ts = t.ts;
    let p = t.p;
    match p.state {
        PState::Ground => {
            if b == 0x1B {
                TermV { ts, p: ParserView { state: PState::Escape, ..ParserView::init() } }
            } else if b < 0x20 {
                TermV { ts: ts_execute(ts, b), p }
            } else if b < 0x80 {
                TermV { ts: ts_print(ts, b as char, glyph_width(b as char)), p }
            } else if b < 0xC0 {
                t
            } else if b < 0xE0 {
                TermV {
                    ts,
                    p: ParserView {
                        state: PState::Utf8,
                        utf8_cp: (b & 0x1F) as u32,
                        utf8_left: 1,
                        ..ParserView::init()
                    },
                }
            } else if b < 0xF0 {
                TermV {
                    ts,
                    p: ParserView {
                        state: PState::Utf8,
                        utf8_cp: (b & 0x0F) as u32,
                        utf8_left: 2,
                        ..ParserView::init()
                    },
                }
            } else if b < 0xF8 {
                TermV {
                    ts,
                    p: ParserView {
                        state: PState::Utf8,
                        utf8_cp: (b & 0x07) as u32,
                        utf8_left: 3,
                        ..ParserView::init()
                    },
                }
            } else {
                t
            }
        },
        PState::Utf8 => {
            if 0x80 <= b && b < 0xC0 && p.utf8_left >= 1 && p.utf8_cp < 0x200000 {
                let cp = (p.utf8_cp * 64 + (b & 0x3F) as u32) as u32;
                if p.utf8_left == 1 {
                    let ts2 = if valid_scalar(cp) {
                        ts_print(ts, cp as char, glyph_width(cp as char))
                    } else {
                        ts
                    };
                    TermV { ts: ts2, p: ParserView { ..ParserView::init() } }
                } else {
                    TermV {
                        ts,
                        p: ParserView {
                            utf8_cp: cp,
                            utf8_left: (p.utf8_left - 1) as u8,
                            ..p
                        },
                    }
                }
            } else {
                TermV { ts, p: ParserView { ..ParserView::init() } }
            }
        },
        PState::Escape => {
            if b == 0x5B {
                TermV { ts, p: ParserView { state: PState::Csi, ..ParserView::init() } }
            } else if b == 0x5D {
                TermV { ts, p: ParserView { state: PState::Osc, ..ParserView::init() } }
            } else if b == 0x1B {
                t
            } else {
                TermV { ts: ts_esc(ts, b), p: ParserView { ..ParserView::init() } }
            }
        },
        PState::Csi => {
            if 0x30 <= b && b <= 0x39 {
                TermV {
                    ts,
                    p: ParserView {
                        cur: push_digit(p.cur, (b - 0x30) as u8),
                        cur_set: true,
                        ..p
                    },
                }
            } else if b == 0x3B {
                TermV {
                    ts,
                    p: ParserView { params: p.params.push(p.cur), cur: 0, cur_set: false, ..p },
                }
            } else if (0x20 <= b && b <= 0x2F) || (0x3C <= b && b <= 0x3F) {
                TermV { ts, p: ParserView { intermediates: p.intermediates.push(b), ..p } }
            } else if 0x40 <= b && b <= 0x7E {
                let full = if p.cur_set || p.params.len() > 0 {
                    p.params.push(p.cur)
                } else {
                    p.params
                };
                TermV {
                    ts: ts_csi(ts, full, p.intermediates, b as char),
                    p: ParserView { ..ParserView::init() },
                }
            } else if b == 0x1B {
                TermV { ts, p: ParserView { state: PState::Escape, ..ParserView::init() } }
            } else if b < 0x20 {
                TermV { ts: ts_execute(ts, b), p }
            } else {
                t
            }
        },
        PState::Osc => {
            if b == 0x07 {
                TermV { ts: ts_osc(ts, p.osc), p: ParserView { ..ParserView::init() } }
            } else if b == 0x1B {
                TermV {
                    ts: ts_osc(ts, p.osc),
                    p: ParserView { state: PState::Escape, ..ParserView::init() },
                }
            } else {
                TermV { ts, p: ParserView { osc: p.osc.push(b), ..p } }
            }
        },
    }
}

/// A whole byte sequence fed to the terminal, byte by byte.
pub open spec fn term_fold(t: TermV, bytes: Seq<u8>) -> TermV
    decreases bytes.len(),
{
    if bytes.len() == 0 {
        t
    } else {
        term_fold(term_step(t, bytes[0]), bytes.drop_first())
    }
}

/// Feeding a byte stream in two pieces gives the same terminal as feeding
/// it whole: processing is chunking-independent, so any split of a stream
/// into chunks yields the same final state.
pub proof fn lemma_term_fold_concat(t: TermV, a: Seq<u8>, b: Seq<u8>)
    ensures
        term_fold(t, a + b) == term_fold(term_fold(t, a), b),
    decreases a.len(),
{
    if a.len() == 0 {
        assert(a + b =~= b);
    } else {
        assert((a + b)[0] == a[0]);
        assert((a + b).drop_first() =~= a.drop_first() + b);
        lemma_term_fold_concat(term_step(t, a[0]), a.drop_first(), b);
    }
}

/// A complete terminal: the screen state plus the byte parser feeding it.
pub struct Terminal {
    pub state: TerminalState,
    pub parser: Parser,
}

impl View for Terminal {
    type V = TermV;

    open spec fn view(&self) -> TermV {
        TermV { ts: self.state@, p: self.parser@ }
    }
}

impl Terminal {
    /// Invariant: the screen state is well-formed.
    pub open spec fn inv(&self) -> bool {
        self.state.inv()
    }

    pub fn new(cols: u16, rows: u16) -> (r: Terminal)
        requires
            cols >= 1,
            rows >= 1,
        ensures
            r.inv(),
            r@.ts =~~= TsView::init(cols, rows),
            r@.p == ParserView::init(),
    {
        Terminal {
            state: TerminalState::new(cols, rows),
            parser: Parser {
                state: PState::Ground,
                params: Vec::new(),
                cur: 0,
                cur_set: false,
                intermediates: Vec::new(),
                osc: Vec::new(),
                utf8_cp: 0,
                utf8_left: 0,
            },
        }
    }

    /// Feed one byte to the terminal.
    #[verifier::rlimit(100)]
    #[verifier::spinoff_prover]
    pub fn advance(&mut self, b: u8)
        requires
            old(self).inv(),
        ensures
            final(self).inv(),
            final(self)@ =~~= term_step(old(self)@, b),
    {
        match self.parser.state {
            PState::Ground => {
                if b == 0x1B {
                    self.reset_parser(PState::Escape);
                } else if b < 0x20 {
                    self.state.execute(b);
                } else if b < 0x80 {
                    let c = b as char;
                    let w = match char_display_width(c) {
                        Some(x) => if x >= 2 {
                            2u8
                        } else {
                            x as u8
                        },
                        None => 1u8,
                    };
                    self.state.print(c, w);
                } else if b < 0xC0 {
                } else if b < 0xE0 {
                    self.reset_parser(PState::Utf8);
                    self.parser.utf8_cp = (b & 0x1F) as u32;
                    self.parser.utf8_left = 1;
                } else if b < 0xF0 {
                    self.reset_parser(PState::Utf8);
                    self.parser.utf8_cp = (b & 0x0F) as u32;
                    self.parser.utf8_left = 2;
                } else if b < 0xF8 {
                    self.reset_parser(PState::Utf8);
                    self.parser.utf8_cp = (b & 0x07) as u32;
                    self.parser.utf8_left = 3;
                }
            },
            PState::Utf8 => {
                if 0x80 <= b && b < 0xC0 && self.parser.utf8_left >= 1 && self.parser.utf8_cp
                    < 0x200000 {
                    let cp: u32 = self.parser.utf8_cp * 64 + (b & 0x3F) as u32;
                    if self.parser.utf8_left == 1 {
                        match char_from_u32(cp) {
                            Some(c) => {
                                let w = match char_display_width(c) {
                                    Some(x) => if x >= 2 {
                                        2u8
                                    } else {
                                        x as u8
                                    },
                                    None => 1u8,
                                };
                                self.state.print(c, w);
                            },
                            None => {},
                        }
                        self.reset_parser(PState::Ground);
                    } else {
                        self.parser.utf8_cp = cp;
                        self.parser.utf8_left = self.parser.utf8_left - 1;
                    }
                } else {
                    self.reset_parser(PState::Ground);
                }
            },
            PState::Escape => {
                if b == 0x5B {
                    self.reset_parser(PState::Csi);
                } else if b == 0x5D {
                    self.reset_parser(PState::Osc);
                } else if b == 0x1B {
                } else {
                    self.state.esc_dispatch(b);
                    self.reset_parser(PState::Ground);
                }
            },
            PState::Csi => {
                if 0x30 <= b && b <= 0x39 {
                    let d: u16 = (b - 0x30) as u16;
                    let wide: u32 = self.parser.cur as u32 * 10 + d as u32;
                    self.parser.cur = if wide <= 65535 {
                        wide as u16
                    } else {
                        65535
                    };
                    self.parser.cur_set = true;
                } else if b == 0x3B {
                    let cur = self.parser.cur;
                    self.parser.params.push(cur);
                    self.parser.cur = 0;
                    self.parser.cur_set = false;
                } else if (0x20 <= b && b <= 0x2F) || (0x3C <= b && b <= 0x3F) {
                    self.parser.intermediates.push(b);
                } else if 0x40 <= b && b <= 0x7E {
                    if self.parser.cur_set || self.parser.params.len() > 0 {
                        let cur = self.parser.cur;
                        self.parser.params.push(cur);
                    }
                    let mut params: Vec<u16> = Vec::new();
                    core::mem::swap(&mut self.parser.params, &mut params);
                    let mut inter: Vec<u8> = Vec::new();
                    core::mem::swap(&mut self.parser.intermediates, &mut inter);
                    self.state.csi_dispatch(&params, &inter, b as char);
                    self.reset_parser(PState::Ground);
                } else if b == 0x1B {
                    self.reset_parser(PState::Escape);
                } else if b < 0x20 {
                    self.state.execute(b);
                }
            },
            PState::Osc => {
                if b == 0x07 {
                    let mut osc: Vec<u8> = Vec::new();
                    core::mem::swap(&mut self.parser.osc, &mut osc);
                    self.state.osc_dispatch(&osc);
                    self.reset_parser(PState::Ground);
                } else if b == 0x1B {
                    let mut osc: Vec<u8> = Vec::new();
                    core::mem::swap(&mut self.parser.osc, &mut osc);
                    self.state.osc_dispatch(&osc);
                    self.reset_parser(PState::Escape);
                } else {
                    self.parser.osc.push(b);
                }
            },
        }
    }

    /// Reset the parser's collected data and move to the given state.
    fn reset_parser(&mut self, st: PState)
        ensures
            final(self).parser@ == (ParserView { state: st, ..ParserView::init() }),
            final(self).state == old(self).state,
    {
        self.parser.state = st;
        self.parser.params = Vec::new();
        self.parser.cur = 0;
        self.parser.cur_set = false;
        self.parser.intermediates = Vec::new();
        self.parser.osc = Vec::new();
        self.parser.utf8_cp = 0;
        self.parser.utf8_left = 0;
        proof {
            assert(self.parser@ =~~= (ParserView { state: st, ..ParserView::init() }));
        }
    }

    /// Feed a chunk of PTY output to the terminal, byte by byte. Feeding a
    /// stream in chunks, however it is split, leaves the terminal exactly
    /// as feeding it whole (see `lemma_term_fold_concat`).
    pub fn process_bytes(&mut self, bytes: &[u8])
        requires
            old(self).inv(),
        ensures
            final(self).inv(),
            final(self)@ =~~= term_fold(old(self)@, bytes@),
    {
        let n = bytes.len();
        let mut i: usize = 0;
        while i < n
            invariant
                self.inv(),
                n == bytes@.len(),
                i <= n,
                self@ =~~= term_fold(old(self)@, bytes@.subrange(0, i as int)),
            decreases n - i,
        {
            let ghost pre = self@;
            let b = bytes[i];
            self.advance(b);
            proof {
                let prefix = bytes@.subrange(0, i as int);
                let prefix1 = bytes@.subrange(0, i + 1 as int);
                assert(prefix1 =~= prefix + seq![bytes@[i as int]]);
                lemma_term_fold_concat(old(self)@, prefix, seq![bytes@[i as int]]);
                assert(term_fold(pre, seq![bytes@[i as int]]) == term_step(
                    pre,
                    bytes@[i as int],
                )) by {
                    let single = seq![bytes@[i as int]];
                    assert(single[0] == bytes@[i as int]);
                    assert(single.drop_first() =~= Seq::<u8>::empty());
                    assert(term_fold(term_step(pre, bytes@[i as int]), Seq::<u8>::empty())
                        == term_step(pre, bytes@[i as int]));
                }
            }
            i += 1;
        }
        proof {
            assert(bytes@.subrange(0, n as int) =~= bytes@);
        }
    }

    /// Resize the terminal, preserving the top-left of the grid.
    pub fn resize(&mut self, cols: u16, rows: u16)
        requires
            old(self).inv(),
            cols >= 1,
            rows >= 1,
        ensures
            final(self).inv(),
            final(self)@.ts.cols == cols,
            final(self)@.ts.rows == rows,
    {
        self.state.resize(cols, rows);
    }

    /// The cursor's `(column, row)` position.
    pub fn cursor_pos(&self) -> (r: (u16, u16))
        ensures
            r.0 == self@.ts.cursor.col,
            r.1 == self@.ts.cursor.row,
    {
        (self.state.cursor.col, self.state.cursor.row)
    }

    /// Whether the screen changed since the last render.
    pub fn is_dirty(&self) -> (r: bool)
        ensures
            r == self@.ts.dirty,
    {
        self.state.dirty
    }

    /// Mark the screen as rendered.
    pub fn mark_clean(&mut self)
        ensures
            final(self)@.ts == (TsView { dirty: false, ..old(self)@.ts }),
            final(self)@.p == old(self)@.p,
            old(self).inv() ==> final(self).inv(),
    {
        self.state.dirty = false;
    }
}

} // verus!
