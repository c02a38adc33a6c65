use bombadil::small_string::SmallString;
use bombadil::terminal_grid::{TerminalAttributes, TerminalCell, TerminalColor, TerminalGrid, TerminalSize, TerminalStyle, TerminalUnderline};

#[test]
fn cell_count_of_a_size() {
    assert_eq!(TerminalSize { columns: 80, rows: 24 }.cell_count(), 1920);
}

#[test]
fn a_new_grid_is_empty_and_plain() {
    let grid = TerminalGrid::with_size(TerminalSize { columns: 3, rows: 2 });
    let plain = TerminalStyle {
        foreground_color: TerminalColor::Unset,
        background_color: TerminalColor::Unset,
        underline_color: TerminalColor::Unset,
        underline: TerminalUnderline::Unset,
        attributes: TerminalAttributes::empty(),
    };
    assert_eq!(TerminalStyle::default(), plain);
    assert_eq!(grid.index((1, 2)), &TerminalCell::Empty { style: plain });
    assert_eq!(grid.into_cells().len(), 6);
}

#[test]
fn cells_are_row_by_row() {
    let size = TerminalSize { columns: 2, rows: 2 };
    let style = TerminalStyle::default();
    let cells = vec![
        TerminalCell::Occupied { contents: SmallString::from_str("a"), wide: false, style },
        TerminalCell::Empty { style },
        TerminalCell::Continuation { style },
        TerminalCell::Occupied { contents: SmallString::from_str("d"), wide: false, style },
    ];
    let mut grid = TerminalGrid::from_cells(size, cells);
    assert_eq!(grid.index((1, 0)), &TerminalCell::Continuation { style });
    *grid.index_mut((0, 1)) = TerminalCell::Occupied { contents: SmallString::from_str("b"), wide: false, style };
    assert_eq!(grid.index((0, 1)), &TerminalCell::Occupied { contents: SmallString::from_str("b"), wide: false, style });
}

#[test]
fn attribute_bits() {
    let bold_italic = TerminalAttributes::empty().with(TerminalAttributes::BOLD).with(TerminalAttributes::ITALIC);
    assert_eq!(bold_italic.bits(), 0b11);
    assert!(bold_italic.contains(TerminalAttributes::BOLD));
    assert!(!bold_italic.contains(TerminalAttributes::DIM));
}
