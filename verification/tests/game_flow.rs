use tetris_core::Block;
use tetris_core::BlockColor;
use tetris_core::GameState;
use tetris_core::InputState;
use tetris_core::LineRange;
use tetris_core::Piece;
use tetris_core::PieceKind;
use tetris_core::PieceRotation;

fn no_keys() -> InputState {
    InputState {
        left_pressed: false,
        right_pressed: false,
        rotate_pressed: false,
        down_held: false,
        hard_drop_pressed: false,
    }
}

fn cyan() -> Option<Block> {
    Some(Block { color: BlockColor::Cyan })
}

#[test]
fn new_game_matches_the_fixed_start() {
    let gs = GameState::new();
    assert_eq!(gs.grid.width(), 10);
    assert_eq!(gs.grid.height(), 16);
    assert_eq!(gs.piece_falling.x, 3);
    assert_eq!(gs.piece_falling.y, 0);
    assert_eq!(gs.piece_falling.kind, PieceKind::J);
    assert_eq!(gs.piece_falling.rotation, PieceRotation::Deg90);
    assert!(gs.line_destroy_animation.is_none());
    for x in 0..10 {
        for y in 0..16 {
            assert_eq!(gs.grid.at(x, y), None);
        }
    }
}

#[test]
fn moving_left_stops_at_the_wall() {
    // The starting J piece at 90 degrees occupies columns 0..3 of its box,
    // so the leftmost legal offset is 0.
    let mut gs = GameState::new();
    let left = InputState { left_pressed: true, ..no_keys() };
    let fx = gs.update(left, 0);
    assert_eq!(gs.piece_falling.x, 2);
    assert!(fx.changed);
    for _ in 0..8 {
        gs.update(left, 0);
    }
    assert_eq!(gs.piece_falling.x, 0);
    let fx = gs.update(left, 0);
    assert_eq!(gs.piece_falling.x, 0);
    assert!(!fx.changed);
}

#[test]
fn moving_right_stops_at_the_wall() {
    // Occupied columns 0..3 of the box make 7 the rightmost legal offset.
    let mut gs = GameState::new();
    let right = InputState { right_pressed: true, ..no_keys() };
    for _ in 0..20 {
        gs.update(right, 0);
    }
    assert_eq!(gs.piece_falling.x, 7);
}

#[test]
fn rotation_is_undone_when_it_collides() {
    let mut gs = GameState::new();
    let rotate = InputState { rotate_pressed: true, ..no_keys() };
    let fx = gs.update(rotate, 0);
    assert_eq!(gs.piece_falling.rotation, PieceRotation::Deg180);
    assert!(fx.rotate_sound);
    // Block the cell that the next rotation would occupy: J at 270 degrees
    // covers (x + 0, y + 1) = (3, 1).
    gs.grid.set(3, 1, cyan());
    let fx = gs.update(rotate, 0);
    assert_eq!(gs.piece_falling.rotation, PieceRotation::Deg180);
    assert!(!fx.rotate_sound);
    assert!(!fx.changed);
}

#[test]
fn gravity_fires_only_after_its_interval() {
    let mut gs = GameState::new();
    let fx = gs.update(no_keys(), 500);
    assert_eq!(gs.piece_falling.y, 0);
    assert!(!fx.changed);
    let fx = gs.update(no_keys(), 1);
    assert_eq!(gs.piece_falling.y, 1);
    assert!(fx.changed);
    assert!(!fx.place_sound);
}

#[test]
fn soft_drop_shortens_the_interval() {
    let mut gs = GameState::new();
    let down = InputState { down_held: true, ..no_keys() };
    let fx = gs.update(down, 101);
    assert_eq!(gs.piece_falling.y, 1);
    assert!(fx.changed);
    // Without the key held the same delta is too short.
    let mut gs = GameState::new();
    let fx = gs.update(no_keys(), 101);
    assert_eq!(gs.piece_falling.y, 0);
    assert!(!fx.changed);
}

#[test]
fn hard_drop_locks_at_the_lowest_legal_row() {
    let mut gs = GameState::new();
    let space = InputState { hard_drop_pressed: true, ..no_keys() };
    let fx = gs.update(space, 0);
    assert!(fx.place_sound);
    assert!(!fx.clear_sound);
    assert!(fx.changed);
    // The J piece at 90 degrees falls from (3, 0) to rest on the floor:
    // its cells (0, 0), (0, 1), (1, 1), (2, 1) land at rows 14 and 15.
    assert_eq!(gs.grid.at(3, 14), Some(Block { color: BlockColor::Blue }));
    assert_eq!(gs.grid.at(3, 15), Some(Block { color: BlockColor::Blue }));
    assert_eq!(gs.grid.at(4, 15), Some(Block { color: BlockColor::Blue }));
    assert_eq!(gs.grid.at(5, 15), Some(Block { color: BlockColor::Blue }));
    assert_eq!(gs.grid.at(4, 14), None);
    // A fresh piece spawned at the fixed cell with rotation reset.
    assert_eq!(gs.piece_falling.x, 3);
    assert_eq!(gs.piece_falling.y, 0);
    assert_eq!(gs.piece_falling.rotation, PieceRotation::Deg0);
    assert!(gs.line_destroy_animation.is_none());
}

#[test]
fn completing_a_row_starts_and_finishes_the_clear() {
    let mut gs = GameState::new();
    // Fill row 5 except (9, 5); a marker sits at (9, 4) later shifted down.
    for x in 0..9 {
        gs.grid.set(x, 5, cyan());
    }
    // A vertical I piece in column 9, rows 2..=5, fills the gap.
    gs.piece_falling = Piece { x: 8, y: 2, rotation: PieceRotation::Deg90, kind: PieceKind::I };
    let cleared = gs.lock_piece(PieceKind::O);
    assert!(cleared);
    let anim = gs.line_destroy_animation.as_ref().expect("animation should start");
    assert_eq!(anim.lines_to_destroy, vec![LineRange { start: 5, end: 6 }]);
    assert_eq!(anim.progress_ms, 0);
    // While the animation runs, input and gravity are suppressed.
    let fx = gs.update(InputState { left_pressed: true, ..no_keys() }, 100);
    assert!(!fx.changed);
    assert_eq!(gs.piece_falling.x, 3);
    assert!(gs.line_destroy_animation.is_some());
    // Once progress passes the end, the row is removed and rows above
    // shift down by one; row 0 is empty.
    gs.update(no_keys(), 600);
    assert!(gs.line_destroy_animation.is_none());
    for x in 0..10 {
        assert_eq!(gs.grid.at(x, 0), None);
    }
    // The I piece's columns above the cleared row moved down one.
    let white = Some(Block { color: BlockColor::Cyan });
    assert_eq!(gs.grid.at(9, 5), white);
    assert_eq!(gs.grid.at(9, 4), white);
    assert_eq!(gs.grid.at(9, 3), white);
    assert_eq!(gs.grid.at(9, 2), None);
    // The rest of row 5 is whatever row 4 held: nothing.
    for x in 0..9 {
        assert_eq!(gs.grid.at(x, 5), None);
    }
}

#[test]
fn two_separate_full_rows_clear_in_one_pass() {
    let mut gs = GameState::new();
    for x in 0..10 {
        gs.grid.set(x, 2, cyan());
        gs.grid.set(x, 7, cyan());
    }
    gs.grid.set(0, 0, cyan());
    let cleared = gs.check_lines();
    assert!(cleared);
    let anim = gs.line_destroy_animation.as_ref().expect("animation should start");
    assert_eq!(
        anim.lines_to_destroy,
        vec![LineRange { start: 2, end: 3 }, LineRange { start: 7, end: 8 }]
    );
    gs.update(no_keys(), 600);
    assert!(gs.line_destroy_animation.is_none());
    // The marker at (0, 0) moved down once per cleared row.
    assert_eq!(gs.grid.at(0, 0), None);
    assert_eq!(gs.grid.at(0, 1), None);
    assert_eq!(gs.grid.at(0, 2), cyan());
    // Both full rows are gone.
    for x in 0..10 {
        for y in 3..16 {
            if (x, y) != (0, 2) {
                assert_eq!(gs.grid.at(x, y), None, "cell ({x}, {y})");
            }
        }
    }
}

#[test]
fn adjacent_full_rows_group_into_one_range() {
    let mut gs = GameState::new();
    for x in 0..10 {
        gs.grid.set(x, 14, cyan());
        gs.grid.set(x, 15, cyan());
    }
    let cleared = gs.check_lines();
    assert!(cleared);
    let anim = gs.line_destroy_animation.as_ref().expect("animation should start");
    assert_eq!(anim.lines_to_destroy, vec![LineRange { start: 14, end: 16 }]);
    gs.update(no_keys(), 600);
    for x in 0..10 {
        for y in 0..16 {
            assert_eq!(gs.grid.at(x, y), None);
        }
    }
}

#[test]
fn check_lines_finds_nothing_on_a_sparse_board() {
    let mut gs = GameState::new();
    for x in 0..9 {
        gs.grid.set(x, 15, cyan());
    }
    assert!(!gs.check_lines());
    assert!(gs.line_destroy_animation.is_none());
}

#[test]
fn visible_blocks_combine_board_and_falling_piece() {
    let mut gs = GameState::new();
    gs.grid.set(0, 15, cyan());
    // The starting J piece at 90 degrees covers (3, 0), (3, 1), (4, 1), (5, 1).
    let blue = Some(Block { color: BlockColor::Blue });
    assert_eq!(gs.visible_block_at(3, 0), blue);
    assert_eq!(gs.visible_block_at(4, 1), blue);
    assert_eq!(gs.visible_block_at(4, 0), None);
    assert_eq!(gs.visible_block_at(0, 15), cyan());
    assert_eq!(gs.visible_block_at(9, 15), None);
}
