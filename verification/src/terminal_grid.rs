//! The screen of a terminal under test: a grid of cells with their styles,
//! the cursor, and how the process exited.
use vstd::prelude::*;

use crate::small_string::SmallString;

verus! {

/// The size of a terminal screen.
#[derive(Debug, Copy, Clone, PartialEq, Eq, Structural)]
pub struct TerminalSize {
    pub columns: u16,
    pub rows: u16,
}

impl TerminalSize {
    /// The number of cells of a screen of this size.
    pub fn cell_count(&self) -> (r: u32)
        ensures
            r == self.columns * self.rows,
    {
        assert(self.columns * self.rows <= 65535 * 65535) by (nonlinear_arith)
            requires
                self.columns <= 65535,
                self.rows <= 65535,
        ;
        self.columns as u32 * self.rows as u32
    }
}

/// A color of the terminal.
#[derive(Debug, Clone, Copy, PartialEq, Eq, Structural)]
pub enum TerminalColor {
    /// No color set (`None` in the serialized form).
    Unset,
    Palette(u8),
    RGB { r: u8, g: u8, b: u8 },
}

/// A color of the ANSI palette.
#[derive(Debug, Clone, Copy, PartialEq, Eq, Structural)]
pub enum ANSIColor {
    Black,
    Red,
    Green,
    Yellow,
    Blue,
    Magenta,
    Cyan,
    White,
    Default,
    BrightBlack,
    BrightRed,
    BrightGreen,
    BrightYellow,
    BrightBlue,
    BrightMagenta,
    BrightCyan,
    BrightWhite,
}

/// The kind of underline of a cell.
#[derive(Debug, Clone, Copy, PartialEq, Eq, Structural)]
pub enum TerminalUnderline {
    /// No underline (`None` in the serialized form).
    Unset,
    Single,
    Double,
    Curly,
    Dotted,
    Dashed,
}

/// The text attributes of a cell, one bit each.
#[derive(Debug, Clone, Copy, PartialEq, Eq, Structural)]
pub struct TerminalAttributes(pub u8);

impl TerminalAttributes {
    pub const BOLD: u8 = 0b00000001;
    pub const ITALIC: u8 = 0b00000010;
    pub const BLINK: u8 = 0b00000100;
    pub const INVERSE: u8 = 0b00001000;
    pub const STRIKETHROUGH: u8 = 0b00010000;
    pub const DIM: u8 = 0b00100000;
    pub const INVISIBLE: u8 = 0b01000000;
    pub const OVERLINE: u8 = 0b10000000;

    /// No attribute at all.
    pub fn empty() -> (r: Self)
        ensures
            r.0 == 0,
    {
        TerminalAttributes(0)
    }

    /// The bits of the attributes.
    pub fn bits(&self) -> (r: u8)
        ensures
            r == self.0,
    {
        self.0
    }

    /// Whether every attribute of `flags` is set.
    pub fn contains(&self, flags: u8) -> (r: bool)
        ensures
            r == (self.0 & flags == flags),
    {
        self.0 & flags == flags
    }

    /// The attributes with those of `flags` set too.
    pub fn with(&self, flags: u8) -> (r: Self)
        ensures
            r.0 == self.0 | flags,
    {
        TerminalAttributes(self.0 | flags)
    }
}

/// The style of a cell.
#[derive(Debug, Clone, Copy, PartialEq, Eq, Structural)]
pub struct TerminalStyle {
    pub foreground_color: TerminalColor,
    pub background_color: TerminalColor,
    pub underline_color: TerminalColor,
    pub underline: TerminalUnderline,
    pub attributes: TerminalAttributes,
}

/// The style of a cell that nothing was set on: no colors, no underline,
/// no attributes.
pub open spec fn plain_style() -> TerminalStyle {
    TerminalStyle {
        foreground_color: TerminalColor::Unset,
        background_color: TerminalColor::Unset,
        underline_color: TerminalColor::Unset,
        underline: TerminalUnderline::Unset,
        attributes: TerminalAttributes(0),
    }
}

impl Default for TerminalStyle {
    fn default() -> (r: TerminalStyle)
        ensures
            r == plain_style(),
    {
        TerminalStyle {
            foreground_color: TerminalColor::Unset,
            background_color: TerminalColor::Unset,
            underline_color: TerminalColor::Unset,
            underline: TerminalUnderline::Unset,
            attributes: TerminalAttributes::empty(),
        }
    }
}

/// One cell of the screen.
#[derive(Debug, Clone, PartialEq, Eq)]
pub enum TerminalCell {
    /// A cell that holds a grapheme cluster; a wide one spans the next cell
    /// too.
    Occupied { contents: SmallString, wide: bool, style: TerminalStyle },
    /// A cell with nothing in it.
    Empty { style: TerminalStyle },
    /// The second cell of a wide grapheme cluster.
    Continuation { style: TerminalStyle },
}

/// The cells of a screen, row by row.
#[derive(Debug, Clone, PartialEq, Eq)]
pub struct TerminalGrid {
    cells: Vec<TerminalCell>,
    pub size: TerminalSize,
}

impl TerminalGrid {
    /// The cells, row by row.
    pub closed spec fn cells(self) -> Seq<TerminalCell> {
        self.cells@
    }

    /// The size of the screen.
    pub closed spec fn grid_size(self) -> TerminalSize {
        self.size
    }

    /// A grid holds one cell for each position of its size.
    pub closed spec fn well_formed(self) -> bool {
        self.cells().len() == self.size.columns * self.size.rows
    }

    /// A grid of empty, plainly styled cells.
    pub fn with_size(size: TerminalSize) -> (r: TerminalGrid)
        ensures
            r.grid_size() == size,
            r.well_formed(),
            r.cells().len() == size.columns * size.rows,
            forall|i: int| 0 <= i < r.cells().len() ==> #[trigger] r.cells()[i] == (TerminalCell::Empty { style: plain_style() }),
    {
        let count = size.cell_count();
        let mut cells: Vec<TerminalCell> = Vec::new();
        let mut i: u32 = 0;
        while i < count
            invariant
                i <= count,
                count == size.columns * size.rows,
                cells@.len() == i,
                forall|k: int| 0 <= k < i ==> #[trigger] cells@[k] == (TerminalCell::Empty { style: plain_style() }),
            decreases count - i,
        {
            cells.push(TerminalCell::Empty { style: TerminalStyle::default() });
            i = i + 1;
        }
        TerminalGrid { cells, size }
    }

    /// The grid of `size` with `cells`, row by row.
    pub fn from_cells(size: TerminalSize, cells: Vec<TerminalCell>) -> (r: TerminalGrid)
        requires
            cells@.len() == size.columns * size.rows,
        ensures
            r.grid_size() == size,
            r.cells() == cells@,
            r.cells().len() == size.columns * size.rows,
            r.well_formed(),
    {
        TerminalGrid { cells, size }
    }

    /// A grid is well formed exactly when it holds one cell for each
    /// position of its size.
    pub proof fn lemma_well_formed(self)
        ensures
            self.well_formed() <==> self.cells().len() == self.grid_size().columns * self.grid_size().rows,
    {
    }

    /// The position of the cell at `row` and `column` among the cells, as
    /// the grid computes it in 16 bits.
    pub closed spec fn offset(self, row: u16, column: u16) -> int {
        row * self.size.columns + column
    }

    /// The cells are laid out row by row.
    pub proof fn lemma_offset(self, row: u16, column: u16)
        ensures
            self.offset(row, column) == row * self.grid_size().columns + column,
    {
    }

    /// The cell at `row` and `column`.
    pub fn index(&self, position: (u16, u16)) -> (r: &TerminalCell)
        requires
            self.well_formed(),
            position.0 < self.grid_size().rows,
            position.1 < self.grid_size().columns,
            self.offset(position.0, position.1) <= u16::MAX,
        ensures
            *r == self.cells()[self.offset(position.0, position.1)],
    {
        let (row, column) = position;
        proof {
            lemma_offset_in_grid(row as int, column as int, self.size.rows as int, self.size.columns as int);
        }
        &self.cells[(row * self.size.columns + column) as usize]
    }

    /// The cell at `row` and `column`, to change.
    pub fn index_mut(&mut self, position: (u16, u16)) -> (r: &mut TerminalCell)
        requires
            old(self).well_formed(),
            position.0 < old(self).grid_size().rows,
            position.1 < old(self).grid_size().columns,
            old(self).offset(position.0, position.1) <= u16::MAX,
        ensures
            *r == old(self).cells()[old(self).offset(position.0, position.1)],
            final(self).grid_size() == old(self).grid_size(),
            final(self).cells() == old(self).cells().update(old(self).offset(position.0, position.1), *final(r)),
    {
        let (row, column) = position;
        proof {
            lemma_offset_in_grid(row as int, column as int, self.size.rows as int, self.size.columns as int);
        }
        let at = (row * self.size.columns + column) as usize;
        &mut self.cells[at]
    }

    /// The cells, row by row.
    pub fn into_cells(self) -> (r: Vec<TerminalCell>)
        ensures
            r@ == self.cells(),
    {
        self.cells
    }
}

proof fn lemma_offset_in_grid(row: int, column: int, rows: int, columns: int)
    requires
        0 <= row < rows,
        0 <= column < columns,
    ensures
        row * columns + column < rows * columns,
{
    assert(row * columns + column < rows * columns) by (nonlinear_arith)
        requires
            0 <= row < rows,
            0 <= column < columns,
    ;
}

/// The position of the cursor.
#[derive(Debug, Copy, Clone, PartialEq, Eq, Structural)]
pub struct TerminalCursorPosition {
    pub column: u16,
    pub row: u16,
}

/// How the cursor is drawn.
#[derive(Debug, Clone, Copy, PartialEq, Eq, Structural)]
pub enum TerminalCursorVisualStyle {
    Bar,
    Block,
    Underline,
    BlockHollow,
    Unknown,
}

/// The cursor of a terminal.
#[derive(Debug, Clone, Copy, PartialEq, Eq, Structural)]
pub struct TerminalCursor {
    pub position: TerminalCursorPosition,
    pub visible: bool,
    pub blinking: bool,
    pub visual_style: TerminalCursorVisualStyle,
    pub color: TerminalColor,
}

/// How a process exited: its code, and the signal that ended it, if any.
#[derive(Debug, Clone, PartialEq, Eq)]
pub struct ProcessExitStatus {
    pub signal: Option<String>,
    pub code: u32,
}

/// What is recorded of a terminal state.
#[derive(Debug, Clone, PartialEq, Eq)]
pub struct TerminalStateSummary {
    pub grid: TerminalGrid,
    pub scrollback: TerminalGrid,
    pub scroll_offset: u32,
    pub cursor: TerminalCursor,
    pub exit_status: Option<ProcessExitStatus>,
}

} // verus!
