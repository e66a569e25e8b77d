use tetris_core::Block;
use tetris_core::BlockColor;
use tetris_core::Grid;
use tetris_core::Piece;
use tetris_core::PieceKind;
use tetris_core::PieceRotation;

const KINDS: [PieceKind; 7] = [
    PieceKind::I,
    PieceKind::J,
    PieceKind::L,
    PieceKind::O,
    PieceKind::S,
    PieceKind::T,
    PieceKind::Z,
];

const ROTATIONS: [PieceRotation; 4] = [
    PieceRotation::Deg0,
    PieceRotation::Deg90,
    PieceRotation::Deg180,
    PieceRotation::Deg270,
];

#[test]
fn rotate_cw_cycles_in_four_steps() {
    for r in ROTATIONS {
        assert_eq!(r.rotate_cw().rotate_cw().rotate_cw().rotate_cw(), r);
        assert_ne!(r.rotate_cw(), r);
        assert_ne!(r.rotate_cw().rotate_cw(), r);
        assert_ne!(r.rotate_cw().rotate_cw().rotate_cw(), r);
    }
}

#[test]
fn rotate_ccw_inverts_rotate_cw() {
    for r in ROTATIONS {
        assert_eq!(r.rotate_cw().rotate_ccw(), r);
        assert_eq!(r.rotate_ccw().rotate_cw(), r);
    }
}

#[test]
fn every_pattern_has_exactly_four_cells() {
    for kind in KINDS {
        for rot in ROTATIONS {
            let g = kind.get_grid(rot);
            assert_eq!(g.width(), 4);
            assert_eq!(g.height(), 4);
            let mut count: usize = 0;
            for x in 0..4 {
                for y in 0..4 {
                    if g.at(x, y).is_some() {
                        count += 1;
                    }
                }
            }
            assert_eq!(count, 4);
        }
    }
}

#[test]
fn pattern_cells_match_the_authored_bitmaps() {
    // Spot-check a few of the hand-authored bitmaps cell by cell.
    let i0 = PieceKind::I.get_grid(PieceRotation::Deg0);
    for x in 0..4 {
        assert!(i0.at(x, 1).is_some());
        assert!(i0.at(x, 0).is_none());
        assert!(i0.at(x, 2).is_none());
        assert!(i0.at(x, 3).is_none());
    }
    let j90 = PieceKind::J.get_grid(PieceRotation::Deg90);
    let occupied = [(0, 0), (0, 1), (1, 1), (2, 1)];
    for x in 0..4 {
        for y in 0..4 {
            assert_eq!(j90.at(x, y).is_some(), occupied.contains(&(x, y)));
        }
    }
    let o = PieceKind::O.get_grid(PieceRotation::Deg270);
    let occupied = [(0, 0), (1, 0), (0, 1), (1, 1)];
    for x in 0..4 {
        for y in 0..4 {
            assert_eq!(o.at(x, y).is_some(), occupied.contains(&(x, y)));
        }
    }
}

#[test]
fn symmetric_kinds_collapse_opposite_rotations() {
    for kind in [PieceKind::I, PieceKind::S, PieceKind::Z] {
        for (a, b) in [
            (PieceRotation::Deg0, PieceRotation::Deg180),
            (PieceRotation::Deg90, PieceRotation::Deg270),
        ] {
            let ga = kind.get_grid(a);
            let gb = kind.get_grid(b);
            for x in 0..4 {
                for y in 0..4 {
                    assert_eq!(ga.at(x, y), gb.at(x, y));
                }
            }
        }
    }
}

#[test]
fn each_kind_has_its_own_color() {
    let expected = [
        (PieceKind::I, BlockColor::Cyan),
        (PieceKind::J, BlockColor::Blue),
        (PieceKind::L, BlockColor::Red),
        (PieceKind::O, BlockColor::Yellow),
        (PieceKind::S, BlockColor::Green),
        (PieceKind::T, BlockColor::Magenta),
        (PieceKind::Z, BlockColor::White),
    ];
    for (kind, color) in expected {
        assert_eq!(kind.color(), color);
        let g = kind.get_grid(PieceRotation::Deg0);
        for x in 0..4 {
            for y in 0..4 {
                if let Some(b) = g.at(x, y) {
                    assert_eq!(b, Block { color });
                }
            }
        }
    }
}

#[test]
fn from_index_names_each_kind_once() {
    let mut kinds = Vec::new();
    for n in 0..7u8 {
        kinds.push(PieceKind::from_index(n));
    }
    assert_eq!(kinds, KINDS.to_vec());
}

#[test]
fn random_yields_a_kind_drawn_from_the_table() {
    // The draw goes through the spawn-index table, so every outcome is one
    // of the seven kinds; run it a few times.
    for _ in 0..50 {
        let k = PieceKind::random();
        assert!(KINDS.contains(&k));
    }
}

#[test]
fn collides_with_reports_overlap_and_out_of_bounds() {
    let mut grid = Grid::new(10, 16);
    let piece = Piece { x: 3, y: 0, rotation: PieceRotation::Deg90, kind: PieceKind::J };
    assert!(!piece.collides_with(&grid));
    // A block under an occupied cell: J at 90 degrees covers (3, 0).
    grid.set(3, 0, Some(Block { color: BlockColor::Cyan }));
    assert!(piece.collides_with(&grid));
    grid.set(3, 0, None);
    // Out of bounds on the left: the occupied column 0 leaves the board.
    let off = Piece { x: -1, y: 0, rotation: PieceRotation::Deg90, kind: PieceKind::J };
    assert!(off.collides_with(&grid));
    // Below the floor.
    let low = Piece { x: 3, y: 15, rotation: PieceRotation::Deg90, kind: PieceKind::J };
    assert!(low.collides_with(&grid));
}
