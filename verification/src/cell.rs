//! A single character cell of the terminal grid: glyph, colors, attributes.

use vstd::prelude::*;

verus! {

/// Terminal color: the terminal default, one of the 256 indexed colors, or
/// a direct RGB value.
#[derive(Debug, Clone, Copy, PartialEq, Eq, Structural)]
pub enum Color {
    Default,
    Indexed(u8),
    Rgb(u8, u8, u8),
}

impl Default for Color {
    fn default() -> (r: Self)
        ensures
            r == Color::Default,
    {
        Color::Default
    }
}

/// Text attributes applied to a cell.
#[derive(Debug, Clone, Copy, PartialEq, Eq, Structural)]
pub struct Attrs {
    pub bold: bool,
    pub italic: bool,
    pub underline: bool,
    pub blink: bool,
    pub reverse: bool,
    pub hidden: bool,
    pub strikethrough: bool,
}

impl Attrs {
    /// All attributes off.
    pub open spec fn spec_default() -> Attrs {
        Attrs {
            bold: false,
            italic: false,
            underline: false,
            blink: false,
            reverse: false,
            hidden: false,
            strikethrough: false,
        }
    }
}

impl Default for Attrs {
    fn default() -> (r: Self)
        ensures
            r == Attrs::spec_default(),
    {
        Attrs {
            bold: false,
            italic: false,
            underline: false,
            blink: false,
            reverse: false,
            hidden: false,
            strikethrough: false,
        }
    }
}

/// One cell of the grid. `width` is 1 for ordinary glyphs, 2 for wide (CJK)
/// glyphs, and 0 for the continuation slot to the right of a wide glyph.
#[derive(Debug, Clone, Copy, PartialEq, Eq, Structural)]
pub struct Cell {
    pub ch: char,
    pub fg: Color,
    pub bg: Color,
    pub attrs: Attrs,
    pub width: u8,
}

impl Cell {
    /// The blank cell: a space with default colors and no attributes.
    pub open spec fn spec_default() -> Cell {
        Cell { ch: ' ', fg: Color::Default, bg: Color::Default, attrs: Attrs::spec_default(), width: 1 }
    }

    pub fn new(ch: char) -> (r: Cell)
        ensures
            r == (Cell { ch, ..Cell::spec_default() }),
    {
        Cell { ch, fg: Color::Default, bg: Color::Default, attrs: Attrs::default(), width: 1 }
    }

    pub fn with_fg(self, fg: Color) -> (r: Cell)
        ensures
            r == (Cell { fg, ..self }),
    {
        Cell { fg, ..self }
    }

    pub fn with_bg(self, bg: Color) -> (r: Cell)
        ensures
            r == (Cell { bg, ..self }),
    {
        Cell { bg, ..self }
    }

    pub fn with_attrs(self, attrs: Attrs) -> (r: Cell)
        ensures
            r == (Cell { attrs, ..self }),
    {
        Cell { attrs, ..self }
    }

    /// Whether this cell is a blank space with default colors and attributes.
    pub fn is_empty(&self) -> (r: bool)
        ensures
            r == (self.ch == ' ' && self.fg == Color::Default && self.bg == Color::Default
                && self.attrs == Attrs::spec_default()),
    {
        self.ch == ' ' && self.fg == Color::Default && self.bg == Color::Default && self.attrs
            == Attrs::default()
    }
}

impl Default for Cell {
    fn default() -> (r: Self)
        ensures
            r == Cell::spec_default(),
    {
        Cell {
            ch: ' ',
            fg: Color::Default,
            bg: Color::Default,
            attrs: Attrs::default(),
            width: 1,
        }
    }
}

} // verus!
