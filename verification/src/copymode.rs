//! Copy mode: a per-client cursor and selection over the active pane's
//! frozen grid, with search.

use vstd::prelude::*;

use crate::chars::string_from_chars;
use crate::protocol::CopyModeAction;
use crate::terminal::Terminal;

verus! {

/// Copy mode state for one client: a cursor in the pane, a scroll offset
/// into history, an optional selection anchor, and the last search.
pub struct CopyMode {
    pub active: bool,
    pub cursor_x: u16,
    pub cursor_y: u16,
    pub scroll_offset: usize,
    pub selection_start: Option<(u16, u16)>,
    pub selection_end: Option<(u16, u16)>,
    pub search_query: String,
    pub search_direction_forward: bool,
}

impl CopyMode {
    pub fn new(cursor_x: u16, cursor_y: u16) -> (r: CopyMode)
        ensures
            r.active,
            r.cursor_x == cursor_x,
            r.cursor_y == cursor_y,
            r.scroll_offset == 0,
            r.selection_start is None,
            r.selection_end is None,
            r.search_query@.len() == 0,
            r.search_direction_forward,
    {
        CopyMode {
            active: true,
            cursor_x,
            cursor_y,
            scroll_offset: 0,
            selection_start: None,
            selection_end: None,
            search_query: String::new(),
            search_direction_forward: true,
        }
    }

    /// The cursor lies inside a `cols x rows` pane.
    pub open spec fn in_bounds(&self, cols: u16, rows: u16) -> bool {
        self.cursor_x < cols && self.cursor_y < rows
    }

    /// Apply one copy-mode action over the pane's terminal. Movement keeps
    /// the cursor inside the grid; copying returns the selected text and
    /// leaves copy mode; searches jump the cursor to the next match.
    pub fn handle_action(&mut self, action: &CopyModeAction, terminal: &Terminal) -> (r: Option<
        String,
    >)
        requires
            terminal.inv(),
            old(self).in_bounds(terminal@.ts.cols, terminal@.ts.rows),
        ensures
            final(self).in_bounds(terminal@.ts.cols, terminal@.ts.rows),
            action is CopySelection && old(self).selection_start is Some ==> !final(self).active
                && r is Some,
            action is Exit ==> !final(self).active,
            !(action is CopySelection || action is Exit) ==> final(self).active == old(
                self,
            ).active && r is None,
            action is Up ==> (if old(self).cursor_y > 0 {
                final(self).cursor_y == old(self).cursor_y - 1
                    && final(self).scroll_offset == old(self).scroll_offset
            } else {
                final(self).cursor_y == 0 && (old(self).scroll_offset < usize::MAX
                    ==> final(self).scroll_offset == old(self).scroll_offset + 1)
            }),
            action is Down ==> (if old(self).cursor_y < terminal@.ts.rows - 1 {
                final(self).cursor_y == old(self).cursor_y + 1
                    && final(self).scroll_offset == old(self).scroll_offset
            } else {
                final(self).cursor_y == old(self).cursor_y && final(self).scroll_offset == (if old(
                    self,
                ).scroll_offset > 0 {
                    (old(self).scroll_offset - 1) as int
                } else {
                    0int
                })
            }),
            action is Left ==> final(self).cursor_x == (if old(self).cursor_x > 0 {
                (old(self).cursor_x - 1) as int
            } else {
                0int
            }) && final(self).cursor_y == old(self).cursor_y,
            action is Right ==> final(self).cursor_x == (if old(self).cursor_x
                < terminal@.ts.cols - 1 {
                old(self).cursor_x + 1 as int
            } else {
                old(self).cursor_x as int
            }) && final(self).cursor_y == old(self).cursor_y,
            action is PageUp && old(self).scroll_offset <= usize::MAX - terminal@.ts.rows
                ==> final(self).scroll_offset == old(self).scroll_offset + terminal@.ts.rows,
            action is PageDown ==> final(self).scroll_offset == (if old(self).scroll_offset
                >= terminal@.ts.rows {
                old(self).scroll_offset - terminal@.ts.rows
            } else {
                0int
            }),
            action is HalfPageUp && old(self).scroll_offset <= usize::MAX - terminal@.ts.rows / 2
                ==> final(self).scroll_offset == old(self).scroll_offset + terminal@.ts.rows / 2,
            action is HalfPageDown ==> final(self).scroll_offset == (if old(self).scroll_offset
                >= terminal@.ts.rows / 2 {
                old(self).scroll_offset - terminal@.ts.rows / 2
            } else {
                0int
            }),
            action is Top ==> final(self).cursor_y == 0,
            action is Bottom ==> final(self).cursor_y == terminal@.ts.rows - 1
                && final(self).scroll_offset == 0,
            action is StartOfLine ==> final(self).cursor_x == 0,
            action is EndOfLine ==> final(self).cursor_x == terminal@.ts.cols - 1,
            action is StartSelection ==> final(self).selection_start == Some(
                (old(self).cursor_x, old(self).cursor_y),
            ) && final(self).selection_end is None,
            action is CancelSelection ==> final(self).selection_start is None
                && final(self).selection_end is None,
            action matches CopyModeAction::SearchForward(q) ==> final(self).search_query@ == q@
                && final(self).search_direction_forward,
            action matches CopyModeAction::SearchBackward(q) ==> final(self).search_query@ == q@
                && !final(self).search_direction_forward,
    {
        let cols = terminal.state.grid.cols;
        let rows = terminal.state.grid.rows;
        match action {
            CopyModeAction::Up => {
                if self.cursor_y > 0 {
                    self.cursor_y = self.cursor_y - 1;
                } else if self.scroll_offset < usize::MAX {
                    self.scroll_offset = self.scroll_offset + 1;
                }
                None
            },
            CopyModeAction::Down => {
                if self.cursor_y < rows - 1 {
                    self.cursor_y = self.cursor_y + 1;
                } else if self.scroll_offset > 0 {
                    self.scroll_offset = self.scroll_offset - 1;
                }
                None
            },
            CopyModeAction::Left => {
                if self.cursor_x > 0 {
                    self.cursor_x = self.cursor_x - 1;
                }
                None
            },
            CopyModeAction::Right => {
                if self.cursor_x < cols - 1 {
                    self.cursor_x = self.cursor_x + 1;
                }
                None
            },
            CopyModeAction::PageUp => {
                if self.scroll_offset <= usize::MAX - rows as usize {
                    self.scroll_offset = self.scroll_offset + rows as usize;
                }
                None
            },
            CopyModeAction::PageDown => {
                if self.scroll_offset >= rows as usize {
                    self.scroll_offset = self.scroll_offset - rows as usize;
                } else {
                    self.scroll_offset = 0;
                }
                None
            },
            CopyModeAction::HalfPageUp => {
                let half = (rows / 2) as usize;
                if self.scroll_offset <= usize::MAX - half {
                    self.scroll_offset = self.scroll_offset + half;
                }
                None
            },
            CopyModeAction::HalfPageDown => {
                let half = (rows / 2) as usize;
                if self.scroll_offset >= half {
                    self.scroll_offset = self.scroll_offset - half;
                } else {
                    self.scroll_offset = 0;
                }
                None
            },
            CopyModeAction::Top => {
                self.cursor_y = 0;
                None
            },
            CopyModeAction::Bottom => {
                self.cursor_y = rows - 1;
                self.scroll_offset = 0;
                None
            },
            CopyModeAction::StartOfLine => {
                self.cursor_x = 0;
                None
            },
            CopyModeAction::EndOfLine => {
                self.cursor_x = cols - 1;
                None
            },
            CopyModeAction::StartSelection => {
                self.selection_start = Some((self.cursor_x, self.cursor_y));
                self.selection_end = None;
                None
            },
            CopyModeAction::CopySelection => {
                match self.selection_start {
                    Some(start) => {
                        self.selection_end = Some((self.cursor_x, self.cursor_y));
                        let text = extract_selection(
                            terminal,
                            start,
                            (self.cursor_x, self.cursor_y),
                        );
                        self.active = false;
                        Some(text)
                    },
                    None => None,
                }
            },
            CopyModeAction::CancelSelection => {
                self.selection_start = None;
                self.selection_end = None;
                None
            },
            CopyModeAction::SearchForward(query) => {
                self.search_query = query.clone();
                self.search_direction_forward = true;
                self.do_search(terminal);
                None
            },
            CopyModeAction::SearchBackward(query) => {
                self.search_query = query.clone();
                self.search_direction_forward = false;
                self.do_search(terminal);
                None
            },
            CopyModeAction::SearchNext => {
                self.do_search(terminal);
                None
            },
            CopyModeAction::SearchPrev => {
                self.search_direction_forward = !self.search_direction_forward;
                self.do_search(terminal);
                self.search_direction_forward = !self.search_direction_forward;
                None
            },
            CopyModeAction::Exit => {
                self.active = false;
                None
            },
        }
    }

    /// Jump the cursor to the next match of the stored query, if any: the
    /// hit that `Grid::search` returns from the current cursor, in the
    /// stored direction.
    fn do_search(&mut self, terminal: &Terminal)
        requires
            terminal.inv(),
            old(self).in_bounds(terminal@.ts.cols, terminal@.ts.rows),
        ensures
            final(self).in_bounds(terminal@.ts.cols, terminal@.ts.rows),
            final(self).active == old(self).active,
            final(self).search_query == old(self).search_query,
            final(self).search_direction_forward == old(self).search_direction_forward,
            final(self).selection_start == old(self).selection_start,
            final(self).selection_end == old(self).selection_end,
            final(self).cursor_x != old(self).cursor_x || final(self).cursor_y != old(
                self,
            ).cursor_y ==> crate::grid::is_match_at(
                crate::grid::row_search_text(terminal@.ts.grid, final(self).cursor_y as int),
                crate::chars::lower_of(old(self).search_query@),
                final(self).cursor_x as int,
            ),
    {
        if self.search_query.as_str().unicode_len() == 0 {
            return ;
        }
        let found = terminal.state.grid.search(
            self.search_query.as_str(),
            self.cursor_x,
            self.cursor_y,
            self.search_direction_forward,
        );
        match found {
            Some((col, row)) => {
                if col < terminal.state.grid.cols && row < terminal.state.grid.rows {
                    self.cursor_x = col;
                    self.cursor_y = row;
                }
            },
            None => {},
        }
    }
}

impl CopyMode {
    /// The overlay banner shown while copy mode is active, as ANSI bytes:
    /// the indicator text at the top-left in inverse yellow.
    pub fn render_indicator(&self) -> (r: Vec<u8>)
        ensures
            r@ == ascii_bytes("\x1b[1;1H\x1b[43;30m"@) + ascii_bytes(
                if self.selection_start is Some {
                    "[Copy mode - selecting]"@
                } else {
                    "[Copy mode]"@
                },
            ) + ascii_bytes("\x1b[0m"@),
    {
        let mut out: Vec<u8> = Vec::new();
        push_ascii(&mut out, "\x1b[1;1H\x1b[43;30m");
        if self.selection_start.is_some() {
            push_ascii(&mut out, "[Copy mode - selecting]");
        } else {
            push_ascii(&mut out, "[Copy mode]");
        }
        push_ascii(&mut out, "\x1b[0m");
        out
    }
}

/// A string's characters as bytes, keeping only the ASCII ones.
pub open spec fn ascii_bytes(s: Seq<char>) -> Seq<u8>
    decreases s.len(),
{
    if s.len() == 0 {
        Seq::empty()
    } else if (s.last() as u32) < 0x80 {
        ascii_bytes(s.drop_last()).push(s.last() as u8)
    } else {
        ascii_bytes(s.drop_last())
    }
}

/// Append a string's ASCII bytes.
fn push_ascii(out: &mut Vec<u8>, s: &str)
    ensures
        final(out)@ == old(out)@ + ascii_bytes(s@),
{
    let n = s.unicode_len();
    let mut i: usize = 0;
    while i < n
        invariant
            n == s@.len(),
            i <= n,
            out@ =~= old(out)@ + ascii_bytes(s@.subrange(0, i as int)),
        decreases n - i,
    {
        proof {
            let pre = s@.subrange(0, i + 1 as int);
            assert(pre.drop_last() =~= s@.subrange(0, i as int));
            assert(pre.last() == s@[i as int]);
        }
        let c = s.get_char(i);
        let u = c as u32;
        if u < 0x80 {
            out.push(u as u8);
        }
        i += 1;
    }
    proof {
        assert(s@.subrange(0, n as int) =~= s@);
        assert(old(out)@ + ascii_bytes(s@.subrange(0, 0)) =~= old(out)@);
    }
}


/// The visible characters of one row between columns `a` and `b`
/// inclusive, in order; zero-width continuation cells contribute nothing.
pub open spec fn seg_chars(row: Seq<crate::cell::Cell>, a: int, b: int) -> Seq<char>
    decreases b + 1 - a,
{
    if a > b || a < 0 || a >= row.len() {
        Seq::empty()
    } else if row[a].width > 0 {
        seq![row[a].ch] + seg_chars(row, a + 1, b)
    } else {
        seg_chars(row, a + 1, b)
    }
}

/// A copy of `s` with its trailing spaces removed.
pub open spec fn trim_spaces(s: Seq<char>) -> Seq<char>
    decreases s.len(),
{
    if s.len() > 0 && s.last() == ' ' {
        trim_spaces(s.drop_last())
    } else {
        s
    }
}

/// The selected text from `row` down to `er`: every row but the last is
/// right-trimmed and followed by a line feed.
pub open spec fn selection_text(
    g: Seq<Seq<crate::cell::Cell>>,
    sr: int,
    sc: int,
    er: int,
    ec: int,
    cols: int,
    rows: int,
    row: int,
) -> Seq<char>
    decreases er + 1 - row,
{
    if row > er || row >= rows {
        Seq::empty()
    } else {
        let a = if row == sr {
            sc
        } else {
            0int
        };
        let b = if row == er {
            ec
        } else {
            cols - 1
        };
        let seg = seg_chars(g[row], a, b);
        if row != er {
            trim_spaces(seg) + seq!['\n'] + selection_text(g, sr, sc, er, ec, cols, rows, row + 1)
        } else {
            seg
        }
    }
}

/// Extending the column range by one visible cell appends its character.
proof fn lemma_seg_snoc(row: Seq<crate::cell::Cell>, a: int, b: int)
    requires
        0 <= a <= b,
        b < row.len(),
    ensures
        seg_chars(row, a, b) == seg_chars(row, a, b - 1) + (if row[b].width > 0 {
            seq![row[b].ch]
        } else {
            Seq::<char>::empty()
        }),
    decreases b - a,
{
    if a == b {
        assert(seg_chars(row, a, a - 1) == Seq::<char>::empty());
        assert(seg_chars(row, a + 1, b) == Seq::<char>::empty());
        if row[b].width > 0 {
            assert(seg_chars(row, a, b) =~= Seq::<char>::empty() + seq![row[b].ch]);
        } else {
            assert(seg_chars(row, a, b) =~= Seq::<char>::empty() + Seq::<char>::empty());
        }
    } else {
        lemma_seg_snoc(row, a + 1, b);
        if row[a].width > 0 {
            assert(seg_chars(row, a, b) == seq![row[a].ch] + seg_chars(row, a + 1, b));
            assert(seg_chars(row, a, b - 1) == seq![row[a].ch] + seg_chars(row, a + 1, b - 1));
            assert(seq![row[a].ch] + (seg_chars(row, a + 1, b - 1) + (if row[b].width > 0 {
                seq![row[b].ch]
            } else {
                Seq::<char>::empty()
            })) =~= (seq![row[a].ch] + seg_chars(row, a + 1, b - 1)) + (if row[b].width > 0 {
                seq![row[b].ch]
            } else {
                Seq::<char>::empty()
            }));
        }
    }
}

/// The column range only matters up to the end of the row.
proof fn lemma_seg_clip(row: Seq<crate::cell::Cell>, a: int, b1: int, b2: int)
    requires
        row.len() - 1 <= b1,
        row.len() - 1 <= b2,
    ensures
        seg_chars(row, a, b1) == seg_chars(row, a, b2),
    decreases row.len() - a,
{
    if a < 0 || a >= row.len() {
        assert(seg_chars(row, a, b1) == Seq::<char>::empty());
        assert(seg_chars(row, a, b2) == Seq::<char>::empty());
    } else {
        lemma_seg_clip(row, a + 1, b1, b2);
    }
}

/// Trimming spaces from text that starts with a closed prefix (empty or
/// ending in a line feed) never eats into the prefix.
proof fn lemma_trim_concat(prefix: Seq<char>, seg: Seq<char>)
    requires
        prefix.len() == 0 || prefix.last() == '\n',
    ensures
        trim_spaces(prefix + seg) == prefix + trim_spaces(seg),
    decreases seg.len(),
{
    if seg.len() == 0 {
        assert(prefix + seg =~= prefix);
        assert(trim_spaces(prefix) == prefix);
    } else if seg.last() == ' ' {
        assert((prefix + seg).last() == ' ');
        assert((prefix + seg).drop_last() =~= prefix + seg.drop_last());
        lemma_trim_concat(prefix, seg.drop_last());
    } else {
        assert((prefix + seg).last() == seg.last());
        assert(trim_spaces(prefix + seg) == prefix + seg);
        assert(trim_spaces(seg) == seg);
    }
}

/// The text of the inclusive rectangle between two cursor positions in
/// reading order: visible characters, rows right-trimmed and joined with
/// a line feed.
#[verifier::rlimit(100)]
#[verifier::spinoff_prover]
#[verifier::loop_isolation(false)]
pub fn extract_selection(terminal: &Terminal, start: (u16, u16), end: (u16, u16)) -> (r: String)
    requires
        terminal.inv(),
    ensures
        ({
            let (sr, sc, er, ec) = if start.1 < end.1 || (start.1 == end.1 && start.0 <= end.0) {
                (start.1 as int, start.0 as int, end.1 as int, end.0 as int)
            } else {
                (end.1 as int, end.0 as int, start.1 as int, start.0 as int)
            };
            r@ == selection_text(
                terminal@.ts.grid,
                sr,
                sc,
                er,
                ec,
                terminal@.ts.cols as int,
                terminal@.ts.rows as int,
                sr,
            )
        }),
{
    let ghost g = terminal@.ts.grid;
    let cols = terminal.state.grid.cols;
    let rows = terminal.state.grid.rows;
    let (start_row, start_col, end_row, end_col) = if start.1 < end.1 || (start.1 == end.1
        && start.0 <= end.0) {
        (start.1, start.0, end.1, end.0)
    } else {
        (end.1, end.0, start.1, start.0)
    };
    let mut text: Vec<char> = Vec::new();
    let mut row = start_row;
    while row <= end_row && row < rows
        invariant
            terminal.inv(),
            g == terminal@.ts.grid,
            cols == terminal@.ts.cols,
            rows == terminal@.ts.rows,
            start_row <= row,
            text@.len() == 0 || text@.last() == '\n',
            text@ + selection_text(
                g,
                start_row as int,
                start_col as int,
                end_row as int,
                end_col as int,
                cols as int,
                rows as int,
                row as int,
            ) == selection_text(
                g,
                start_row as int,
                start_col as int,
                end_row as int,
                end_col as int,
                cols as int,
                rows as int,
                start_row as int,
            ),
        decreases end_row + 1 - row,
    {
        let ghost row_base = text@;
        let col_start = if row == start_row {
            start_col
        } else {
            0
        };
        let col_end = if row == end_row {
            end_col
        } else {
            cols - 1
        };
        let ghost a = col_start as int;
        let ghost b = col_end as int;
        let mut col = col_start;
        proof {
            assert(seg_chars(g[row as int], a, a - 1) == Seq::<char>::empty());
            assert(row_base + Seq::<char>::empty() =~= row_base);
        }
        while col <= col_end && col < cols
            invariant
                terminal.inv(),
                g == terminal@.ts.grid,
                cols == terminal@.ts.cols,
                rows == terminal@.ts.rows,
                row < rows,
                col_start <= col,
                col == col_start || col as int <= col_end as int + 1,
                text@ == row_base + seg_chars(g[row as int], a, col - 1),
            decreases col_end + 1 - col,
        {
            let cell = terminal.state.grid.cell(col, row);
            if cell.width > 0 {
                text.push(cell.ch);
            }
            proof {
                lemma_seg_snoc(g[row as int], a, col as int);
                if cell.width > 0 {
                    assert(text@ =~= row_base + seg_chars(g[row as int], a, col as int));
                } else {
                    assert(text@ =~= row_base + seg_chars(g[row as int], a, col as int));
                }
            }
            if col == u16::MAX {
                break ;
            }
            col += 1;
        }
        proof {
            assert(g[row as int].len() == cols);
            if col > col_end {
                if col == col_start {
                    assert(seg_chars(g[row as int], a, col - 1) == Seq::<char>::empty());
                    assert(seg_chars(g[row as int], a, b) == Seq::<char>::empty());
                } else {
                    assert(col - 1 == b);
                }
            } else {
                lemma_seg_clip(g[row as int], a, b, col - 1);
            }
            assert(text@ == row_base + seg_chars(g[row as int], a, b));
        }
        let ghost seg = seg_chars(g[row as int], a, b);
        if row != end_row {
            while text.len() > 0 && text[text.len() - 1] == ' '
                invariant
                    trim_spaces(text@) == trim_spaces(row_base + seg),
                decreases text@.len(),
            {
                text.pop();
            }
            proof {
                assert(trim_spaces(text@) == text@);
                lemma_trim_concat(row_base, seg);
                assert(text@ == row_base + trim_spaces(seg));
            }
            text.push('\n');
            proof {
                assert(text@ =~= row_base + (trim_spaces(seg) + seq!['\n']));
            }
        }
        if row == u16::MAX {
            break ;
        }
        proof {
            if row != end_row {
                assert(selection_text(
                    g,
                    start_row as int,
                    start_col as int,
                    end_row as int,
                    end_col as int,
                    cols as int,
                    rows as int,
                    row as int,
                ) == (trim_spaces(seg) + seq!['\n']) + selection_text(
                    g,
                    start_row as int,
                    start_col as int,
                    end_row as int,
                    end_col as int,
                    cols as int,
                    rows as int,
                    row + 1 as int,
                ));
                assert((row_base + (trim_spaces(seg) + seq!['\n'])) + selection_text(
                    g,
                    start_row as int,
                    start_col as int,
                    end_row as int,
                    end_col as int,
                    cols as int,
                    rows as int,
                    row + 1 as int,
                ) =~= row_base + ((trim_spaces(seg) + seq!['\n']) + selection_text(
                    g,
                    start_row as int,
                    start_col as int,
                    end_row as int,
                    end_col as int,
                    cols as int,
                    rows as int,
                    row + 1 as int,
                )));
            } else {
                assert(selection_text(
                    g,
                    start_row as int,
                    start_col as int,
                    end_row as int,
                    end_col as int,
                    cols as int,
                    rows as int,
                    row as int,
                ) == seg);
            }
        }
        row += 1;
        if row > end_row {
            break ;
        }
    }
    string_from_chars(&text)
}

} // verus!
