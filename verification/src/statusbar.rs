//! The status bar: one row of cells showing the session name, the window
//! list and a clock, built from plain values (the current time arrives as
//! epoch seconds).

use vstd::prelude::*;

use crate::cell::{Cell, Color};
use crate::chars::{chars_of_str, push_char, string_from_chars};

verus! {

/// Status bar styling and format strings.
pub struct StatusBar {
    pub left_format: String,
    pub right_format: String,
    pub style_fg: Color,
    pub style_bg: Color,
    pub active_window_fg: Color,
    pub active_window_bg: Color,
}

/// What the bar shows: the session, its windows, and the bar width.
pub struct StatusBarContext {
    pub session_name: String,
    pub windows: Vec<WindowStatus>,
    pub cols: u16,
}

/// One window's entry in the bar.
pub struct WindowStatus {
    pub index: usize,
    pub name: String,
    pub active: bool,
}

impl StatusBar {
    /// The stock bar: black on green, the session name left, the clock
    /// right, the active window in yellow.
    pub fn new_default() -> (r: StatusBar)
        ensures
            r.style_fg == Color::Indexed(0),
            r.style_bg == Color::Indexed(2),
            r.active_window_fg == Color::Indexed(0),
            r.active_window_bg == Color::Indexed(3),
    {
        StatusBar {
            left_format: string_from_chars(&chars_of_str("[#{session_name}] ")),
            right_format: string_from_chars(&chars_of_str(" %H:%M %Y-%m-%d")),
            style_fg: Color::Indexed(0),
            style_bg: Color::Indexed(2),
            active_window_fg: Color::Indexed(0),
            active_window_bg: Color::Indexed(3),
        }
    }

    /// The bar as one row of exactly `cols` cells: the expanded left
    /// format, then the window labels (`index:name`, `*` on the active
    /// one), then the expanded right format aligned to the right edge.
    #[verifier::loop_isolation(false)]
    pub fn render(&self, ctx: &StatusBarContext, now_secs: u64) -> (r: Vec<Cell>)
        ensures
            r@.len() == ctx.cols,
            forall|i: int| 0 <= i < r@.len() ==> (#[trigger] r@[i]).bg == self.style_bg || r@[i].bg
                == self.active_window_bg,
    {
        let cols = ctx.cols as usize;
        let mut cells: Vec<Cell> = Vec::new();
        let mut k: usize = 0;
        while k < cols
            invariant
                k <= cols,
                cells@.len() == k,
                forall|i: int| 0 <= i < k ==> (#[trigger] cells@[i]).bg == self.style_bg,
            decreases cols - k,
        {
            cells.push(
                Cell {
                    ch: ' ',
                    fg: self.style_fg,
                    bg: self.style_bg,
                    attrs: crate::cell::Attrs::default(),
                    width: 1,
                },
            );
            k += 1;
        }
        let left = expand_format(&self.left_format, ctx, now_secs);
        let left_chars = chars_of_str(left.as_str());
        let mut pos: usize = 0;
        let mut i: usize = 0;
        while i < left_chars.len() && pos < cols
            invariant
                cells@.len() == cols,
                pos <= cols,
                i <= left_chars@.len(),
                forall|q: int| 0 <= q < cells@.len() ==> (#[trigger] cells@[q]).bg
                    == self.style_bg,
            decreases left_chars@.len() - i,
        {
            let c = &mut cells[pos];
            c.ch = left_chars[i];
            pos += 1;
            i += 1;
        }
        // Window labels.
        let nw = ctx.windows.len();
        let mut w: usize = 0;
        while w < nw
            invariant
                nw == ctx.windows@.len(),
                w <= nw,
                pos <= cols,
                cells@.len() == cols,
                forall|q: int| 0 <= q < cells@.len() ==> (#[trigger] cells@[q]).bg
                    == self.style_bg || cells@[q].bg == self.active_window_bg,
            decreases nw - w,
        {
            let win = &ctx.windows[w];
            let label = window_label(win);
            let label_chars = chars_of_str(label.as_str());
            let mut j: usize = 0;
            while j < label_chars.len() && pos < cols
                invariant
                    w < nw,
                    nw == ctx.windows@.len(),
                    pos <= cols,
                    j <= label_chars@.len(),
                    cells@.len() == cols,
                    forall|q: int| 0 <= q < cells@.len() ==> (#[trigger] cells@[q]).bg
                        == self.style_bg || cells@[q].bg == self.active_window_bg,
                decreases label_chars@.len() - j,
            {
                let active = ctx.windows[w].active;
                let c = &mut cells[pos];
                c.ch = label_chars[j];
                if active {
                    c.fg = self.active_window_fg;
                    c.bg = self.active_window_bg;
                }
                pos += 1;
                j += 1;
            }
            w += 1;
        }
        // Right section, right-aligned.
        let right = expand_format(&self.right_format, ctx, now_secs);
        let right_chars = chars_of_str(right.as_str());
        let rl = right_chars.len();
        let start = if rl <= cols {
            cols - rl
        } else {
            0
        };
        let mut rp: usize = start;
        let mut ri: usize = 0;
        while ri < rl && rp < cols
            invariant
                rl == right_chars@.len(),
                rp <= cols,
                ri <= rl,
                cells@.len() == cols,
                forall|q: int| 0 <= q < cells@.len() ==> (#[trigger] cells@[q]).bg
                    == self.style_bg || cells@[q].bg == self.active_window_bg,
            decreases rl - ri,
        {
            let c = &mut cells[rp];
            c.ch = right_chars[ri];
            rp += 1;
            ri += 1;
        }
        cells
    }
}

/// A window's bar label: `index:name`, with `* ` after the active one and
/// a plain blank otherwise.
fn window_label(win: &WindowStatus) -> (r: String) {
    let mut s = String::new();
    push_usize_dec(&mut s, win.index);
    push_char(&mut s, ':');
    let name_chars = chars_of_str(win.name.as_str());
    let mut i: usize = 0;
    while i < name_chars.len()
        invariant
            i <= name_chars@.len(),
        decreases name_chars@.len() - i,
    {
        push_char(&mut s, name_chars[i]);
        i += 1;
    }
    if win.active {
        push_char(&mut s, '*');
    }
    push_char(&mut s, ' ');
    s
}

/// Expand the format tokens: `#{session_name}` and the time fields
/// `%H`, `%M`, `%Y`, `%m`, `%d` computed from the epoch seconds (UTC).
fn expand_format(format: &String, ctx: &StatusBarContext, now_secs: u64) -> (r: String) {
    let hours = (now_secs % 86400) / 3600;
    let minutes = (now_secs % 3600) / 60;
    let days = now_secs / 86400;
    let (year, month, day) = days_to_ymd(days);
    let cs = chars_of_str(format.as_str());
    let n = cs.len();
    let mut out = String::new();
    let mut i: usize = 0;
    while i < n
        invariant
            n == cs@.len(),
            i <= n,
        decreases n - i,
    {
        let c = cs[i];
        if c == '#' && n - i >= 15 && matches_at(&cs, i, "#{session_name}") {
            let name_chars = chars_of_str(ctx.session_name.as_str());
            let mut j: usize = 0;
            while j < name_chars.len()
                invariant
                    j <= name_chars@.len(),
                decreases name_chars@.len() - j,
            {
                push_char(&mut out, name_chars[j]);
                j += 1;
            }
            i += 15;
        } else if c == '%' && n - i >= 2 {
            let f = cs[i + 1];
            if f == 'H' {
                push_two_digits(&mut out, (hours % 100) as u64);
                i += 2;
            } else if f == 'M' {
                push_two_digits(&mut out, (minutes % 100) as u64);
                i += 2;
            } else if f == 'Y' {
                push_u64_dec(&mut out, year);
                i += 2;
            } else if f == 'm' {
                push_two_digits(&mut out, month % 100);
                i += 2;
            } else if f == 'd' {
                push_two_digits(&mut out, day % 100);
                i += 2;
            } else {
                push_char(&mut out, c);
                i += 1;
            }
        } else {
            push_char(&mut out, c);
            i += 1;
        }
    }
    out
}

/// Whether the text at `i` starts with the given pattern.
fn matches_at(cs: &Vec<char>, i: usize, pat: &str) -> (r: bool)
    requires
        i <= cs@.len(),
{
    let ps = chars_of_str(pat);
    let m = ps.len();
    let total = cs.len();
    if total - i < m {
        return false;
    }
    let mut k: usize = 0;
    while k < m
        invariant
            m == ps@.len(),
            total == cs@.len(),
            i + m <= total,
            k <= m,
        decreases m - k,
    {
        if cs[i + k] != ps[k] {
            return false;
        }
        k += 1;
    }
    true
}

/// A number as two decimal digits (zero-padded).
fn push_two_digits(s: &mut String, n: u64)
    requires
        n < 100,
    ensures
        final(s)@.len() == old(s)@.len() + 2,
{
    push_char(s, digit_char((n / 10) as u8));
    push_char(s, digit_char((n % 10) as u8));
}

/// The character of one decimal digit.
fn digit_char(d: u8) -> (r: char)
    requires
        d < 10,
    ensures
        r as u32 == 0x30 + d,
{
    (0x30u8 + d) as char
}

/// A number in decimal.
pub fn push_u64_dec(s: &mut String, n: u64)
    ensures
        final(s)@.len() > old(s)@.len(),
    decreases n,
{
    if n >= 10 {
        push_u64_dec(s, n / 10);
    }
    push_char(s, digit_char((n % 10) as u8));
}

/// A machine word in decimal.
pub fn push_usize_dec(s: &mut String, n: usize)
    ensures
        final(s)@.len() > old(s)@.len(),
{
    push_u64_dec(s, n as u64);
}

/// The calendar date `days` days after the epoch (UTC, proleptic
/// Gregorian): a year from 1970 on, a month 1 to 12, and a day 1 to 31.
pub fn days_to_ymd(days: u64) -> (r: (u64, u64, u64))
    ensures
        r.0 >= 1970,
        1 <= r.1 <= 12,
        1 <= r.2 <= 31,
{
    let mut y: u64 = 1970;
    let mut remaining: u64 = days;
    let mut year_len: u64 = year_days(y);
    while remaining >= year_len && y < 1_000_000
        invariant
            y >= 1970,
            year_len >= 365,
        decreases u64::MAX - y,
    {
        remaining = remaining - year_len;
        y = y + 1;
        year_len = year_days(y);
    }
    let feb: u64 = if is_leap_year(y) {
        29
    } else {
        28
    };
    let mut m: u64 = 1;
    let mut left = remaining;
    let mut month_len = month_days(1, feb);
    while left >= month_len && m < 12
        invariant
            1 <= m <= 12,
            28 <= feb <= 29,
            28 <= month_len <= 31,
        decreases 12 - m,
    {
        left = left - month_len;
        m = m + 1;
        month_len = month_days(m, feb);
    }
    let day = if left < 31 {
        left + 1
    } else {
        31
    };
    (y, m, day)
}

/// The length of one month.
fn month_days(m: u64, feb: u64) -> (r: u64)
    requires
        1 <= m <= 12,
        28 <= feb <= 29,
    ensures
        28 <= r <= 31,
{
    if m == 1 {
        31
    } else if m == 2 {
        feb
    } else if m == 3 {
        31
    } else if m == 4 {
        30
    } else if m == 5 {
        31
    } else if m == 6 {
        30
    } else if m == 7 {
        31
    } else if m == 8 {
        31
    } else if m == 9 {
        30
    } else if m == 10 {
        31
    } else if m == 11 {
        30
    } else {
        31
    }
}

/// The length of one year in days.
fn year_days(y: u64) -> (r: u64)
    ensures
        r == 365 || r == 366,
{
    if is_leap_year(y) {
        366
    } else {
        365
    }
}

/// Whether a year is a leap year.
pub fn is_leap_year(y: u64) -> (r: bool)
    ensures
        r == ((y % 4 == 0 && y % 100 != 0) || y % 400 == 0),
{
    (y % 4 == 0 && y % 100 != 0) || y % 400 == 0
}

} // verus!
