use tetris_core::Block;
use tetris_core::BlockColor;
use tetris_core::Grid;

fn cyan() -> Option<Block> {
    Some(Block { color: BlockColor::Cyan })
}

#[test]
fn set_then_at_returns_value() {
    let mut g = Grid::new(10, 16);
    g.set(3, 5, cyan());
    assert_eq!(g.at(3, 5), cyan());
    g.set(3, 5, None);
    assert_eq!(g.at(3, 5), None);
    g.set(0, 0, cyan());
    assert_eq!(g.at(0, 0), cyan());
    g.set(9, 15, cyan());
    assert_eq!(g.at(9, 15), cyan());
}

#[test]
fn out_of_bounds_reads_empty() {
    let mut g = Grid::new(10, 16);
    g.set(0, 0, cyan());
    assert_eq!(g.at(-1, 0), None);
    assert_eq!(g.at(0, -1), None);
    assert_eq!(g.at(10, 0), None);
    assert_eq!(g.at(0, 16), None);
    assert_eq!(g.at(i32::MIN, i32::MAX), None);
    assert!(!g.contains_pos(-1, 0));
    assert!(!g.contains_pos(0, -1));
    assert!(!g.contains_pos(10, 0));
    assert!(!g.contains_pos(0, 16));
    assert!(g.contains_pos(0, 0));
    assert!(g.contains_pos(9, 15));
}

#[test]
fn with_data_lays_cells_row_major() {
    let o: Option<Block> = None;
    let x = cyan();
    let g = Grid::with_data(2, 2, vec![o, x, x, o]);
    assert_eq!(g.at(0, 0), None);
    assert_eq!(g.at(1, 0), cyan());
    assert_eq!(g.at(0, 1), cyan());
    assert_eq!(g.at(1, 1), None);
    assert_eq!(g.width(), 2);
    assert_eq!(g.height(), 2);
}

#[test]
fn intersects_detects_overlap() {
    let mut a = Grid::new(10, 16);
    let mut b = Grid::new(4, 4);
    a.set(5, 5, cyan());
    b.set(1, 1, cyan());
    // b's (1, 1) lands on a's (5, 5) when offset by (4, 4).
    assert!(a.intersects(4, 4, &b));
    assert!(!a.intersects(5, 5, &b));
    assert!(!a.intersects(0, 0, &b));
}

#[test]
fn intersects_symmetric_under_negated_offset() {
    let mut a = Grid::new(10, 16);
    let mut b = Grid::new(4, 4);
    a.set(5, 5, cyan());
    a.set(2, 3, cyan());
    b.set(1, 1, cyan());
    b.set(0, 3, cyan());
    for (x, y) in [(4, 4), (5, 5), (0, 0), (2, 0), (-1, 2), (9, 15), (-3, -3)] {
        assert_eq!(a.intersects(x, y, &b), b.intersects(-x, -y, &a));
    }
}

#[test]
fn contains_iff_every_cell_lands_in_bounds() {
    let a = Grid::new(10, 16);
    let mut b = Grid::new(4, 4);
    b.set(1, 0, cyan());
    b.set(1, 1, cyan());
    assert!(a.contains(0, 0, &b));
    assert!(a.contains(8, 14, &b));
    // Occupied column is 1, so an offset of -1 still fits but -2 does not.
    assert!(a.contains(-1, 0, &b));
    assert!(!a.contains(-2, 0, &b));
    assert!(!a.contains(9, 0, &b));
    assert!(!a.contains(0, 15, &b));
    assert!(!a.contains(0, -1, &b));
    // An empty sub-grid fits at any offset.
    let empty = Grid::new(4, 4);
    assert!(a.contains(100, -100, &empty));
}

#[test]
fn overlay_merges_occupied_cells() {
    let mut a = Grid::new(10, 16);
    a.set(0, 0, cyan());
    let mut b = Grid::new(4, 4);
    b.set(0, 0, Some(Block { color: BlockColor::Red }));
    b.set(1, 2, Some(Block { color: BlockColor::Red }));
    a.overlay(3, 4, b);
    assert_eq!(a.at(0, 0), cyan());
    assert_eq!(a.at(3, 4), Some(Block { color: BlockColor::Red }));
    assert_eq!(a.at(4, 6), Some(Block { color: BlockColor::Red }));
    assert_eq!(a.at(4, 4), None);
}

#[test]
fn overlay_outside_bounds_is_dropped() {
    let mut a = Grid::new(10, 16);
    let mut b = Grid::new(4, 4);
    b.set(0, 0, cyan());
    b.set(3, 0, cyan());
    // Offset pushes (0, 0) off the left edge; (3, 0) lands at (0, 2).
    a.overlay(-3, 2, b);
    assert_eq!(a.at(0, 2), cyan());
    for x in 0..10 {
        for y in 0..16 {
            if (x, y) != (0, 2) {
                assert_eq!(a.at(x, y), None);
            }
        }
    }
}

#[test]
fn clear_line_shifts_rows_down() {
    let mut g = Grid::new(10, 16);
    let red = Some(Block { color: BlockColor::Red });
    g.set(0, 0, cyan());
    g.set(4, 3, red);
    for x in 0..10 {
        g.set(x, 5, cyan());
    }
    g.set(7, 9, red);
    g.clear_line(5);
    // Row 0 is now empty.
    for x in 0..10 {
        assert_eq!(g.at(x, 0), None);
    }
    // Rows 1..=5 hold what rows 0..=4 held.
    assert_eq!(g.at(0, 1), cyan());
    assert_eq!(g.at(4, 4), red);
    assert_eq!(g.at(4, 3), None);
    // The full row is gone.
    assert_eq!(g.at(0, 5), None);
    // Rows past the cleared one are untouched.
    assert_eq!(g.at(7, 9), red);
}

#[test]
fn clear_line_top_row_empties_it() {
    let mut g = Grid::new(10, 16);
    for x in 0..10 {
        g.set(x, 0, cyan());
    }
    g.set(2, 1, cyan());
    g.clear_line(0);
    for x in 0..10 {
        assert_eq!(g.at(x, 0), None);
    }
    assert_eq!(g.at(2, 1), cyan());
}

#[test]
fn is_row_full_checks_every_column() {
    let mut g = Grid::new(10, 16);
    for x in 0..9 {
        g.set(x, 7, cyan());
    }
    assert!(!g.is_row_full(7));
    g.set(9, 7, cyan());
    assert!(g.is_row_full(7));
    assert!(!g.is_row_full(6));
}
