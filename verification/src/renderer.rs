//! Composing panes, borders and the status bar into the ANSI byte stream
//! a client terminal draws.

use vstd::prelude::*;

use crate::cell::{Attrs, Cell, Color};
use crate::geometry::Rect;
use crate::session::Session;
use crate::statusbar::{StatusBar, StatusBarContext, WindowStatus};
use crate::terminal::TerminalState;

verus! {

/// The SGR fragment one color contributes (`;3x`/`;4x` for the basic
/// palette, `;9x`/`;10x` for the bright one, `38;5`/`48;5` indexed,
/// `38;2`/`48;2` direct).
pub open spec fn color_frag(c: Color, is_fg: bool) -> Seq<u8>
    decreases c,
{
    match c {
        Color::Default => Seq::empty(),
        Color::Indexed(n) => if n < 8 {
            seq![0x3Bu8] + dec_bytes(
                (if is_fg {
                    30int
                } else {
                    40int
                }) + n as int,
            )
        } else if n < 16 {
            seq![0x3Bu8] + dec_bytes(
                (if is_fg {
                    90int
                } else {
                    100int
                }) + (n - 8) as int,
            )
        } else {
            seq![0x3Bu8] + dec_bytes(
                if is_fg {
                    38int
                } else {
                    48int
                },
            ) + seq![0x3Bu8, 0x35u8, 0x3Bu8] + dec_bytes(n as int)
        },
        Color::Rgb(rr, gg, bb) => seq![0x3Bu8] + dec_bytes(
            if is_fg {
                38int
            } else {
                48int
            },
        ) + seq![0x3Bu8, 0x32u8, 0x3Bu8] + dec_bytes(rr as int) + seq![0x3Bu8] + dec_bytes(
            gg as int,
        ) + seq![0x3Bu8] + dec_bytes(bb as int),
    }
}

/// A nonnegative number's decimal digits as bytes.
pub open spec fn dec_bytes(n: int) -> Seq<u8>
    decreases n,
{
    if n < 0 {
        Seq::empty()
    } else if n < 10 {
        seq![(0x30 + n) as u8]
    } else {
        dec_bytes(n / 10) + seq![(0x30 + n % 10) as u8]
    }
}

/// Append a number's decimal digits.
pub fn push_dec(out: &mut Vec<u8>, n: u64)
    ensures
        final(out)@ == old(out)@ + dec_bytes(n as int),
    decreases n,
{
    if n >= 10 {
        push_dec(out, n / 10);
        out.push((0x30 + (n % 10) as u8) as u8);
        proof {
            assert(out@ =~= old(out)@ + dec_bytes(n as int));
        }
    } else {
        out.push((0x30 + n as u8) as u8);
        proof {
            assert(out@ =~= old(out)@ + dec_bytes(n as int));
        }
    }
}

/// Append a color's SGR fragment.
pub fn write_color(out: &mut Vec<u8>, color: Color, is_fg: bool)
    ensures
        final(out)@ == old(out)@ + color_frag(color, is_fg),
{
    match color {
        Color::Default => {
            proof {
                assert(out@ =~= old(out)@ + color_frag(color, is_fg));
            }
        },
        Color::Indexed(n) => {
            if n < 8 {
                out.push(0x3B);
                let base: u64 = if is_fg {
                    30
                } else {
                    40
                };
                push_dec(out, base + n as u64);
                proof {
                    assert(out@ =~= old(out)@ + color_frag(color, is_fg));
                }
            } else if n < 16 {
                out.push(0x3B);
                let base: u64 = if is_fg {
                    90
                } else {
                    100
                };
                push_dec(out, base + (n - 8) as u64);
                proof {
                    assert(out@ =~= old(out)@ + color_frag(color, is_fg));
                }
            } else {
                out.push(0x3B);
                push_dec(
                    out,
                    if is_fg {
                        38
                    } else {
                        48
                    },
                );
                out.push(0x3B);
                out.push(0x35);
                out.push(0x3B);
                push_dec(out, n as u64);
                proof {
                    assert(out@ =~= old(out)@ + color_frag(color, is_fg));
                }
            }
        },
        Color::Rgb(rr, gg, bb) => {
            out.push(0x3B);
            push_dec(
                out,
                if is_fg {
                    38
                } else {
                    48
                },
            );
            out.push(0x3B);
            out.push(0x32);
            out.push(0x3B);
            push_dec(out, rr as u64);
            out.push(0x3B);
            push_dec(out, gg as u64);
            out.push(0x3B);
            push_dec(out, bb as u64);
            proof {
                assert(out@ =~= old(out)@ + color_frag(color, is_fg));
            }
        },
    }
}

/// The SGR fragment a set of attributes contributes: one `;n` per set
/// attribute, in the fixed order bold, italic, underline, blink, reverse,
/// hidden, strikethrough.
pub open spec fn attrs_frag(a: Attrs) -> Seq<u8> {
    (if a.bold {
        seq![0x3Bu8, 0x31u8]
    } else {
        Seq::<u8>::empty()
    }) + (if a.italic {
        seq![0x3Bu8, 0x33u8]
    } else {
        Seq::<u8>::empty()
    }) + (if a.underline {
        seq![0x3Bu8, 0x34u8]
    } else {
        Seq::<u8>::empty()
    }) + (if a.blink {
        seq![0x3Bu8, 0x35u8]
    } else {
        Seq::<u8>::empty()
    }) + (if a.reverse {
        seq![0x3Bu8, 0x37u8]
    } else {
        Seq::<u8>::empty()
    }) + (if a.hidden {
        seq![0x3Bu8, 0x38u8]
    } else {
        Seq::<u8>::empty()
    }) + (if a.strikethrough {
        seq![0x3Bu8, 0x39u8]
    } else {
        Seq::<u8>::empty()
    })
}

/// Append the attributes' SGR fragment.
#[verifier::rlimit(100)]
#[verifier::spinoff_prover]
pub fn write_attrs(out: &mut Vec<u8>, attrs: Attrs)
    ensures
        final(out)@ == old(out)@ + attrs_frag(attrs),
{
    if attrs.bold {
        out.push(0x3B);
        out.push(0x31);
    }
    if attrs.italic {
        out.push(0x3B);
        out.push(0x33);
    }
    if attrs.underline {
        out.push(0x3B);
        out.push(0x34);
    }
    if attrs.blink {
        out.push(0x3B);
        out.push(0x35);
    }
    if attrs.reverse {
        out.push(0x3B);
        out.push(0x37);
    }
    if attrs.hidden {
        out.push(0x3B);
        out.push(0x38);
    }
    if attrs.strikethrough {
        out.push(0x3B);
        out.push(0x39);
    }
    proof {
        assert(out@ =~= old(out)@ + attrs_frag(attrs));
    }
}

/// Append the absolute cursor-position sequence `ESC [ row ; col H` for
/// one-based coordinates.
pub fn push_goto(out: &mut Vec<u8>, row1: u64, col1: u64)
    ensures
        final(out)@ == old(out)@ + seq![0x1Bu8, 0x5Bu8] + dec_bytes(row1 as int) + seq![0x3Bu8]
            + dec_bytes(col1 as int) + seq![0x48u8],
{
    out.push(0x1B);
    out.push(0x5B);
    push_dec(out, row1);
    out.push(0x3B);
    push_dec(out, col1);
    out.push(0x48);
    proof {
        assert(out@ =~= old(out)@ + seq![0x1Bu8, 0x5Bu8] + dec_bytes(row1 as int) + seq![0x3Bu8]
            + dec_bytes(col1 as int) + seq![0x48u8]);
    }
}

/// Append one glyph's UTF-8 and, when its style differs from the running
/// style, the SGR sequence that resets and re-establishes it first.
fn write_cell(out: &mut Vec<u8>, cell: &Cell, prev: &mut (Color, Color, Attrs))
    ensures
        final(out)@.len() > old(out)@.len(),
        final(out)@.subrange(0, old(out)@.len() as int) == old(out)@,
        *final(prev) == (cell.fg, cell.bg, cell.attrs),
{
    let changed = !(cell.fg == prev.0) || !(cell.bg == prev.1) || !(cell.attrs == prev.2);
    if changed {
        out.push(0x1B);
        out.push(0x5B);
        out.push(0x30);
        write_color(out, cell.fg, true);
        write_color(out, cell.bg, false);
        write_attrs(out, cell.attrs);
        out.push(0x6D);
    }
    crate::keys::push_char_utf8(out, cell.ch);
    prev.0 = cell.fg;
    prev.1 = cell.bg;
    prev.2 = cell.attrs;
    proof {
        assert(out@.subrange(0, old(out)@.len() as int) =~= old(out)@);
    }
}

impl TerminalState {
    /// The whole grid as ANSI bytes: hide the cursor, go home, draw every
    /// row with only the needed SGR changes, reset, restore the cursor
    /// position, and show the cursor again when it is visible. The output
    /// begins with the hide-cursor and home sequences.
    pub fn render(&self) -> (r: Vec<u8>)
        requires
            self.inv(),
        ensures
            r@.len() >= 9,
            r@.subrange(0, 9) == seq![
                0x1Bu8, 0x5Bu8, 0x3Fu8, 0x32u8, 0x35u8, 0x6Cu8, 0x1Bu8, 0x5Bu8, 0x48u8,
            ],
    {
        let mut out: Vec<u8> = Vec::new();
        out.push(0x1B);
        out.push(0x5B);
        out.push(0x3F);
        out.push(0x32);
        out.push(0x35);
        out.push(0x6C);
        out.push(0x1B);
        out.push(0x5B);
        out.push(0x48);
        let ghost header = out@;
        proof {
            assert(header =~= seq![
                0x1Bu8, 0x5Bu8, 0x3Fu8, 0x32u8, 0x35u8, 0x6Cu8, 0x1Bu8, 0x5Bu8, 0x48u8,
            ]);
        }
        let mut prev: (Color, Color, Attrs) = (Color::Default, Color::Default, Attrs::default());
        let rows = self.grid.rows;
        let cols = self.grid.cols;
        let mut row: u16 = 0;
        while row < rows
            invariant
                self.inv(),
                rows == self.grid.rows,
                cols == self.grid.cols,
                row <= rows,
                out@.len() >= 9,
                out@.subrange(0, 9) == header,
            decreases rows - row,
        {
            if row > 0 {
                out.push(0x0D);
                out.push(0x0A);
            }
            let mut col: u16 = 0;
            while col < cols
                invariant
                    self.inv(),
                    rows == self.grid.rows,
                    cols == self.grid.cols,
                    row < rows,
                    col <= cols,
                    out@.len() >= 9,
                    out@.subrange(0, 9) == header,
                decreases cols - col,
            {
                let cell = self.grid.cell(col, row);
                if cell.width > 0 {
                    write_cell(&mut out, cell, &mut prev);
                }
                col += 1;
            }
            row += 1;
        }
        out.push(0x1B);
        out.push(0x5B);
        out.push(0x30);
        out.push(0x6D);
        push_goto(&mut out, self.cursor.row as u64 + 1, self.cursor.col as u64 + 1);
        if self.cursor.visible {
            out.push(0x1B);
            out.push(0x5B);
            out.push(0x3F);
            out.push(0x32);
            out.push(0x35);
            out.push(0x68);
        }
        proof {
            assert(out@.subrange(0, 9) == header);
        }
        out
    }

    /// A rectangular sub-region of the grid as ANSI bytes, drawn at the
    /// destination position row by row.
    pub fn render_region(
        &self,
        x: u16,
        y: u16,
        width: u16,
        height: u16,
        dest_x: u16,
        dest_y: u16,
    ) -> (r: Vec<u8>)
        requires
            self.inv(),
            dest_y as int + height as int <= u16::MAX,
            dest_x as int <= u16::MAX,
    {
        let mut out: Vec<u8> = Vec::new();
        let mut prev: (Color, Color, Attrs) = (Color::Default, Color::Default, Attrs::default());
        let mut row_off: u16 = 0;
        while row_off < height
            invariant
                self.inv(),
                row_off <= height,
                dest_y as int + height as int <= u16::MAX,
            decreases height - row_off,
        {
            let src_row_i: u32 = y as u32 + row_off as u32;
            if src_row_i >= self.grid.rows as u32 {
                break ;
            }
            let src_row = src_row_i as u16;
            let dst_row = dest_y + row_off;
            push_goto(&mut out, dst_row as u64 + 1, dest_x as u64 + 1);
            let mut col_off: u16 = 0;
            while col_off < width
                invariant
                    self.inv(),
                    src_row < self.grid.rows,
                    col_off <= width,
                decreases width - col_off,
            {
                let src_col_i: u32 = x as u32 + col_off as u32;
                if src_col_i >= self.grid.cols as u32 {
                    break ;
                }
                let src_col = src_col_i as u16;
                let cell = self.grid.cell(src_col, src_row);
                if cell.width > 0 {
                    write_cell(&mut out, cell, &mut prev);
                }
                col_off += 1;
            }
            row_off += 1;
        }
        out.push(0x1B);
        out.push(0x5B);
        out.push(0x30);
        out.push(0x6D);
        out
    }
}

/// Composes panes, borders and the status bar into one frame for a
/// client of a given size.
pub struct Renderer {
    pub cols: u16,
    pub rows: u16,
    pub status_bar: StatusBar,
}

impl Renderer {
    pub fn new(cols: u16, rows: u16) -> (r: Renderer)
        ensures
            r.cols == cols,
            r.rows == rows,
    {
        Renderer { cols, rows, status_bar: StatusBar::new_default() }
    }

    pub fn resize(&mut self, cols: u16, rows: u16)
        ensures
            final(self).cols == cols,
            final(self).rows == rows,
            final(self).status_bar == old(self).status_bar,
    {
        self.cols = cols;
        self.rows = rows;
    }

    /// One full frame for the session: hide the cursor, draw every pane
    /// in its rectangle, overlay borders when several panes share the
    /// area unzoomed, draw the status bar on the last row, park the
    /// cursor on the active pane and show it again. The frame begins with
    /// the hide-cursor sequence.
    pub fn render(&self, session: &Session, now_secs: u64) -> (r: Vec<u8>)
        requires
            session.inv(),
        ensures
            r@.len() >= 6,
            r@.subrange(0, 6) == seq![0x1Bu8, 0x5Bu8, 0x3Fu8, 0x32u8, 0x35u8, 0x6Cu8],
    {
        let mut out: Vec<u8> = Vec::new();
        out.push(0x1B);
        out.push(0x5B);
        out.push(0x3F);
        out.push(0x32);
        out.push(0x35);
        out.push(0x6C);
        let ghost header = out@;
        proof {
            assert(header =~= seq![0x1Bu8, 0x5Bu8, 0x3Fu8, 0x32u8, 0x35u8, 0x6Cu8]);
        }
        let window = session.active_window();
        let geos = window.pane_geometries();
        let n = geos.len();
        let mut i: usize = 0;
        while i < n
            invariant
                session.inv(),
                n == geos@.len(),
                i <= n,
                out@.len() >= 6,
                out@.subrange(0, 6) == header,
            decreases n - i,
        {
            let pane_id = geos[i].0;
            let rect = geos[i].1;
            let window2 = session.active_window();
            let mut pi: usize = 0;
            let np = window2.panes.len();
            while pi < np
                invariant
                    session.inv(),
                    np == window2.panes@.len(),
                    pi <= np,
                    out@.len() >= 6,
                    out@.subrange(0, 6) == header,
                    window2 == session.windows@[session.active_window_idx as int],
                decreases np - pi,
            {
                if window2.panes[pi].id == pane_id {
                    if rect.y as u32 + rect.height as u32 <= u16::MAX as u32 {
                        let bytes = window2.panes[pi].terminal.state.render_region(
                            0,
                            0,
                            rect.width,
                            rect.height,
                            rect.x,
                            rect.y,
                        );
                        append_bytes(&mut out, &bytes);
                    }
                    break ;
                }
                pi += 1;
            }
            i += 1;
        }
        // Borders when several panes are visible.
        let window3 = session.active_window();
        if window3.panes.len() > 1 && matches!(window3.zoomed_pane, Option::None) {
            let border = self.render_borders(&geos, window3.active_pane);
            append_bytes(&mut out, &border);
        }
        // Status bar on the last row.
        let status = self.render_status_bar(session, now_secs);
        append_bytes(&mut out, &status);
        out.push(0x1B);
        out.push(0x5B);
        out.push(0x3F);
        out.push(0x32);
        out.push(0x35);
        out.push(0x68);
        proof {
            assert(out@.subrange(0, 6) == header);
        }
        out
    }

    /// Box-drawing borders on the interior right and bottom edges of each
    /// pane, green for the active pane and grey for the rest.
    pub fn render_borders(&self, geos: &Vec<(crate::PaneId, Rect)>, active: crate::PaneId) -> (r:
        Vec<u8>)
    {
        let mut out: Vec<u8> = Vec::new();
        let n = geos.len();
        let mut i: usize = 0;
        while i < n
            invariant
                n == geos@.len(),
                i <= n,
            decreases n - i,
        {
            let pane_id = geos[i].0;
            let rect = geos[i].1;
            let color: u8 = if pane_id == active {
                0x32
            } else {
                0x37
            };
            let right = rect.x as u32 + rect.width as u32;
            let bottom = rect.y as u32 + rect.height as u32;
            if right < self.cols as u32 {
                out.push(0x1B);
                out.push(0x5B);
                out.push(0x33);
                out.push(color);
                out.push(0x6D);
                let mut row = rect.y as u32;
                while row < bottom && row <= u16::MAX as u32
                    invariant
                        right < self.cols as u32,
                        right <= u16::MAX as u32,
                    decreases bottom - row,
                {
                    push_goto(&mut out, row as u64 + 1, right as u64 + 1);
                    crate::keys::push_char_utf8(&mut out, '\u{2502}');
                    row += 1;
                }
            }
            if self.rows >= 1 && bottom < (self.rows - 1) as u32 {
                out.push(0x1B);
                out.push(0x5B);
                out.push(0x33);
                out.push(color);
                out.push(0x6D);
                let mut col = rect.x as u32;
                while col < right && col <= u16::MAX as u32
                    invariant
                        bottom <= u16::MAX as u32,
                    decreases right - col,
                {
                    push_goto(&mut out, bottom as u64 + 1, col as u64 + 1);
                    crate::keys::push_char_utf8(&mut out, '\u{2500}');
                    col += 1;
                }
            }
            i += 1;
        }
        out.push(0x1B);
        out.push(0x5B);
        out.push(0x30);
        out.push(0x6D);
        out
    }

    /// The status bar row as positioned ANSI bytes.
    pub fn render_status_bar(&self, session: &Session, now_secs: u64) -> (r: Vec<u8>)
        requires
            session.inv(),
    {
        let mut windows: Vec<WindowStatus> = Vec::new();
        let n = session.windows.len();
        let mut i: usize = 0;
        while i < n
            invariant
                session.inv(),
                n == session.windows@.len(),
                i <= n,
            decreases n - i,
        {
            windows.push(
                WindowStatus {
                    index: session.windows[i].index,
                    name: session.windows[i].name.clone(),
                    active: i == session.active_window_idx,
                },
            );
            i += 1;
        }
        let ctx = StatusBarContext {
            session_name: session.name.clone(),
            windows,
            cols: self.cols,
        };
        let cells = self.status_bar.render(&ctx, now_secs);
        let mut out: Vec<u8> = Vec::new();
        push_goto(&mut out, self.rows as u64, 1);
        let mut prev: (Color, Color, Attrs) = (Color::Default, Color::Default, Attrs::default());
        let m = cells.len();
        let mut k: usize = 0;
        while k < m
            invariant
                m == cells@.len(),
                k <= m,
            decreases m - k,
        {
            write_cell(&mut out, &cells[k], &mut prev);
            k += 1;
        }
        out.push(0x1B);
        out.push(0x5B);
        out.push(0x30);
        out.push(0x6D);
        out
    }
}

/// Append one byte vector to another.
fn append_bytes(out: &mut Vec<u8>, more: &Vec<u8>)
    ensures
        final(out)@ == old(out)@ + more@,
{
    let n = more.len();
    let mut i: usize = 0;
    while i < n
        invariant
            n == more@.len(),
            i <= n,
            out@ =~= old(out)@ + more@.subrange(0, i as int),
        decreases n - i,
    {
        out.push(more[i]);
        proof {
            assert(out@ =~= old(out)@ + more@.subrange(0, i + 1 as int));
        }
        i += 1;
    }
    proof {
        assert(old(out)@ + more@.subrange(0, n as int) =~= old(out)@ + more@);
    }
}

} // verus!
