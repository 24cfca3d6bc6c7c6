//! A styled character cell.

use vstd::prelude::*;

verus! {

/// Foreground or background colour of a cell.
#[derive(Debug, Clone, Copy, PartialEq, Eq, Structural)]
pub enum Color {
    /// The terminal's configured default colour.
    Default,
    /// An entry of the 256-colour palette.
    Indexed(u8),
    /// A direct 24-bit colour.
    Rgb(u8, u8, u8),
}

impl Default for Color {
    fn default() -> (c: Self)
        ensures
            c == Color::Default,
    {
        Color::Default
    }
}

/// The rendition attributes that `SGR` sequences switch on and off.
#[derive(Debug, Clone, Copy, PartialEq, Eq, Structural)]
pub struct CellAttributes {
    pub fg: Color,
    pub bg: Color,
    pub bold: bool,
    pub italic: bool,
    pub underline: bool,
    pub strikethrough: bool,
    pub blink: bool,
    pub reverse: bool,
    pub invisible: bool,
    pub dim: bool,
}

impl CellAttributes {
    /// The attributes of unstyled text: default colours, every flag off.
    pub open spec fn plain() -> CellAttributes {
        CellAttributes {
            fg: Color::Default,
            bg: Color::Default,
            bold: false,
            italic: false,
            underline: false,
            strikethrough: false,
            blink: false,
            reverse: false,
            invisible: false,
            dim: false,
        }
    }

    /// Plain attributes that keep only the background colour `bg`.
    pub open spec fn with_background(bg: Color) -> CellAttributes {
        CellAttributes { bg, ..CellAttributes::plain() }
    }

    /// Plain attributes on the background `bg`: what an erased cell carries.
    pub fn erased(bg: Color) -> (a: CellAttributes)
        ensures
            a == CellAttributes::with_background(bg),
    {
        CellAttributes {
            fg: Color::Default,
            bg,
            bold: false,
            italic: false,
            underline: false,
            strikethrough: false,
            blink: false,
            reverse: false,
            invisible: false,
            dim: false,
        }
    }
}

impl Default for CellAttributes {
    fn default() -> (a: Self)
        ensures
            a == CellAttributes::plain(),
    {
        CellAttributes::erased(Color::Default)
    }
}

/// One character position of the grid: a code point and its attributes.
#[derive(Debug, Clone, Copy, PartialEq, Eq, Structural)]
pub struct Cell {
    pub ch: char,
    pub attrs: CellAttributes,
}

impl Cell {
    /// The cell of a freshly cleared position: NUL with plain attributes.
    pub open spec fn blank() -> Cell {
        Cell { ch: '\0', attrs: CellAttributes::plain() }
    }

    /// An empty cell on the background `bg`.
    pub open spec fn blank_on(bg: Color) -> Cell {
        Cell { ch: '\0', attrs: CellAttributes::with_background(bg) }
    }

    /// Whether the cell shows nothing: a space or NUL.
    pub open spec fn spec_is_empty(&self) -> bool {
        self.ch == ' ' || self.ch == '\0'
    }

    /// The cell that shows `ch` with `attrs`.
    pub fn new(ch: char, attrs: CellAttributes) -> (c: Self)
        ensures
            c == (Cell { ch, attrs }),
    {
        Cell { ch, attrs }
    }

    /// An empty cell on the background `bg`.
    pub fn empty_on(bg: Color) -> (c: Self)
        ensures
            c == Cell::blank_on(bg),
    {
        Cell { ch: '\0', attrs: CellAttributes::erased(bg) }
    }

    /// Whether the cell shows nothing: a space or NUL.
    #[verifier::when_used_as_spec(spec_is_empty)]
    pub fn is_empty(&self) -> (b: bool)
        ensures
            b == self.spec_is_empty(),
    {
        self.ch == ' ' || self.ch == '\0'
    }
}

impl Default for Cell {
    fn default() -> (c: Self)
        ensures
            c == Cell::blank(),
    {
        Cell { ch: '\0', attrs: CellAttributes::default() }
    }
}

} // verus!
