//! Cells: one grid position, its colours and its style flags.

use vstd::prelude::*;

verus! {

/// A colour as the terminal addresses it: the default colour, one of the
/// 256 indexed palette entries, or a direct RGB triple.
#[derive(Clone, Copy, PartialEq, Eq, Structural, Debug)]
pub enum Color {
    Default,
    Indexed(u8),
    Rgb(u8, u8, u8),
}

/// Style flags of one cell.
#[derive(Clone, Copy, PartialEq, Eq, Structural, Debug)]
pub struct Flags {
    pub bold: bool,
    pub italic: bool,
    pub underline: bool,
    pub inverse: bool,
    /// First cell of a glyph two columns wide.
    pub wide: bool,
    /// Second cell of a wide glyph: a spacer tied to the cell on its left.
    pub wide_spacer: bool,
}

impl Flags {
    /// All flags off.
    pub open spec fn clear_spec() -> Flags {
        Flags {
            bold: false,
            italic: false,
            underline: false,
            inverse: false,
            wide: false,
            wide_spacer: false,
        }
    }

    pub fn clear() -> (r: Flags)
        ensures
            r == Flags::clear_spec(),
    {
        Flags {
            bold: false,
            italic: false,
            underline: false,
            inverse: false,
            wide: false,
            wide_spacer: false,
        }
    }
}

/// The pen: the attributes applied to cells as they are written, mutated by
/// SGR sequences.
#[derive(Clone, Copy, PartialEq, Eq, Structural, Debug)]
pub struct Style {
    pub fg: Color,
    pub bg: Color,
    pub flags: Flags,
}

impl Style {
    /// The style a terminal starts with: default colours, no flags.
    pub open spec fn plain_spec() -> Style {
        Style { fg: Color::Default, bg: Color::Default, flags: Flags::clear_spec() }
    }

    pub fn plain() -> (r: Style)
        ensures
            r == Style::plain_spec(),
    {
        Style { fg: Color::Default, bg: Color::Default, flags: Flags::clear() }
    }
}

/// One grid position: a character, its colours and its flags.
#[derive(Clone, Copy, PartialEq, Eq, Structural, Debug)]
pub struct Cell {
    pub ch: char,
    pub fg: Color,
    pub bg: Color,
    pub flags: Flags,
}

/// A blank cell as erase operations write it: a space carrying the given
/// background colour (not the default one), the default foreground and no
/// flags.
pub open spec fn blank_cell_spec(bg: Color) -> Cell {
    Cell { ch: ' ', fg: Color::Default, bg, flags: Flags::clear_spec() }
}

pub fn blank_cell(bg: Color) -> (r: Cell)
    ensures
        r == blank_cell_spec(bg),
{
    Cell { ch: ' ', fg: Color::Default, bg, flags: Flags::clear() }
}

} // verus!
