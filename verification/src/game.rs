//! The game state machine: input handling, gravity timing, piece locking,
//! full-row detection and the timed line-destroy animation that gates all
//! other processing while it runs.

use vstd::prelude::*;

use crate::grid::Block;
use crate::grid::Grid;
use crate::piece::lemma_fits_bounds;
use crate::piece::lemma_overlay_is_piece_merge;
use crate::piece::pattern_at;
use crate::piece::piece_collides;
use crate::piece::piece_merged_cell;
use crate::piece::Piece;
use crate::piece::PieceKind;
use crate::piece::PieceRotation;

verus! {

/// Columns of the board.
pub const BOARD_WIDTH: usize = 10;

/// Rows of the board.
pub const BOARD_HEIGHT: usize = 16;

/// Spawn column of a fresh piece.
pub const SPAWN_X: i32 = 3;

/// Spawn row of a fresh piece.
pub const SPAWN_Y: i32 = 0;

/// Milliseconds between gravity steps.
pub const GRAVITY_MS: u32 = 500;

/// Milliseconds between gravity steps while the soft-drop key is held.
pub const SOFT_DROP_MS: u32 = 100;

/// Milliseconds the line-destroy animation takes to finish.
pub const DESTROY_ANIM_MS: u32 = 500;

/// A run of consecutive full rows `start..end` awaiting destruction.
#[derive(Clone, Copy, PartialEq, Eq, Structural, Debug)]
pub struct LineRange {
    pub start: u32,
    pub end: u32,
}

/// The transient line-destroy animation: the detected runs of full rows and
/// how many milliseconds of the animation have played.
pub struct LineDestroyAnimation {
    pub lines_to_destroy: Vec<LineRange>,
    pub progress_ms: u32,
}

impl LineDestroyAnimation {
    /// A live animation always has at least one pending run, every run is a
    /// non-empty row interval of the board, and it has not yet finished.
    pub open spec fn wf(self) -> bool {
        &&& self.progress_ms < DESTROY_ANIM_MS
        &&& self.lines_to_destroy@.len() > 0
        &&& forall|k: int|
            0 <= k < self.lines_to_destroy@.len()
                ==> (#[trigger] self.lines_to_destroy@[k]).start
                < self.lines_to_destroy@[k].end && self.lines_to_destroy@[k].end <= BOARD_HEIGHT
    }
}

/// Whether row y lies inside one of the ranges.
pub open spec fn in_ranges(rs: Seq<LineRange>, y: int) -> bool {
    exists|k: int| 0 <= k < rs.len() && (#[trigger] rs[k]).start <= y < rs[k].end
}

proof fn lemma_in_ranges_push(rs: Seq<LineRange>, r: LineRange, y: int)
    ensures
        in_ranges(rs.push(r), y) == (in_ranges(rs, y) || (r.start <= y < r.end)),
{
    let ext = rs.push(r);
    if in_ranges(ext, y) {
        let k = choose|k: int| 0 <= k < ext.len() && (#[trigger] ext[k]).start <= y < ext[k].end;
        if k < rs.len() {
            assert(ext[k] == rs[k]);
            assert(in_ranges(rs, y));
        } else {
            assert(ext[k] == r);
        }
    }
    if in_ranges(rs, y) {
        let k = choose|k: int| 0 <= k < rs.len() && (#[trigger] rs[k]).start <= y < rs[k].end;
        assert(ext[k] == rs[k]);
        assert(in_ranges(ext, y));
    }
    if r.start <= y < r.end {
        assert(ext[rs.len() as int] == r);
        assert(in_ranges(ext, y));
    }
}

/// The ranges are exactly the maximal runs of full rows of `g`, in order:
/// every listed row is full, every full row is listed, no run can be
/// extended, and the runs are sorted and separated.
pub open spec fn line_ranges_spec(g: Grid, rs: Seq<LineRange>) -> bool {
    &&& forall|k: int| 0 <= k < rs.len() ==> (#[trigger] rs[k]).start < rs[k].end && rs[k].end <= g.height
    &&& forall|y: int| #[trigger] in_ranges(rs, y) ==> g.row_full(y)
    &&& forall|y: int| 0 <= y < g.height && #[trigger] g.row_full(y) ==> in_ranges(rs, y)
    &&& forall|k: int|
        0 <= k < rs.len() ==> ((#[trigger] rs[k]).start == 0 || !g.row_full(rs[k].start - 1)) && (
        rs[k].end == g.height || !g.row_full(rs[k].end as int))
    &&& forall|k1: int, k2: int|
        0 <= k1 < k2 < rs.len() ==> (#[trigger] rs[k1]).end < (#[trigger] rs[k2]).start
}

/// The row model after clearing each line of `start..end` in ascending
/// order, each removal acting on the partially shifted rows.
pub open spec fn clear_range_rows(
    rs: Seq<Seq<Option<Block>>>,
    w: nat,
    start: int,
    end: int,
) -> Seq<Seq<Option<Block>>>
    decreases end - start,
{
    if start < end {
        clear_range_rows(Grid::clear_line_rows(rs, w, start), w, start + 1, end)
    } else {
        rs
    }
}

/// The row model after destroying the ranges listed from position k on, in
/// order.
pub open spec fn apply_destroys_from(
    rs: Seq<Seq<Option<Block>>>,
    w: nat,
    ranges: Seq<LineRange>,
    k: int,
) -> Seq<Seq<Option<Block>>>
    decreases ranges.len() - k,
{
    if 0 <= k < ranges.len() {
        apply_destroys_from(
            clear_range_rows(rs, w, ranges[k].start as int, ranges[k].end as int),
            w,
            ranges,
            k + 1,
        )
    } else {
        rs
    }
}

/// The row model after destroying all the listed ranges in order.
pub open spec fn apply_destroys(rs: Seq<Seq<Option<Block>>>, w: nat, ranges: Seq<LineRange>) -> Seq<
    Seq<Option<Block>>,
> {
    apply_destroys_from(rs, w, ranges, 0)
}

proof fn lemma_clear_range_snoc(rs: Seq<Seq<Option<Block>>>, w: nat, s: int, e: int)
    requires
        s <= e,
    ensures
        clear_range_rows(rs, w, s, e + 1) == Grid::clear_line_rows(
            clear_range_rows(rs, w, s, e),
            w,
            e,
        ),
    decreases e - s,
{
    if s == e {
        assert(clear_range_rows(rs, w, s, s + 1) == clear_range_rows(
            Grid::clear_line_rows(rs, w, s),
            w,
            s + 1,
            s + 1,
        ));
    } else {
        lemma_clear_range_snoc(Grid::clear_line_rows(rs, w, s), w, s + 1, e);
    }
}

/// The keys the core reads each frame: three edge-triggered actions and the
/// held soft-drop key.
#[derive(Clone, Copy, PartialEq, Eq, Structural, Debug)]
pub struct InputState {
    pub left_pressed: bool,
    pub right_pressed: bool,
    pub rotate_pressed: bool,
    pub down_held: bool,
    pub hard_drop_pressed: bool,
}

/// What a frame asks of the collaborators: which sound effects to fire and
/// whether the board view changed.
#[derive(Clone, Copy, PartialEq, Eq, Structural, Debug)]
pub struct FrameEffects {
    pub rotate_sound: bool,
    pub place_sound: bool,
    pub clear_sound: bool,
    pub changed: bool,
}

impl FrameEffects {
    pub open spec fn silent(self) -> bool {
        self == (FrameEffects {
            rotate_sound: false,
            place_sound: false,
            clear_sound: false,
            changed: false,
        })
    }
}

/// The whole game: the board of placed blocks, the falling piece, the
/// optional line-destroy animation (at most one at a time), and the
/// milliseconds since the piece last fell.
pub struct GameState {
    pub grid: Grid,
    pub piece_falling: Piece,
    pub line_destroy_animation: Option<LineDestroyAnimation>,
    pub since_fall_ms: u32,
}

impl GameState {
    /// The board has the fixed dimensions, any live animation is sound, and
    /// the gravity clock never runs past its trigger by more than a step.
    pub open spec fn board_wf(self) -> bool {
        &&& self.grid.wf()
        &&& self.grid.width == BOARD_WIDTH
        &&& self.grid.height == BOARD_HEIGHT
        &&& match self.line_destroy_animation {
            Some(a) => a.wf(),
            None => true,
        }
        &&& self.since_fall_ms <= GRAVITY_MS + 1
    }

    /// The falling piece's 4x4 box never strays more than its own size from
    /// the board.
    pub open spec fn piece_in_range(self) -> bool {
        &&& -4 <= self.piece_falling.x <= BOARD_WIDTH
        &&& -4 <= self.piece_falling.y <= BOARD_HEIGHT
    }

    pub open spec fn wf(self) -> bool {
        self.board_wf() && self.piece_in_range()
    }

    /// A fresh game: an empty board and the first piece at its fixed start.
    pub fn new() -> (s: GameState)
        ensures
            s.wf(),
            forall|x: int, y: int| s.grid.cell(x, y) is None,
            s.piece_falling == (Piece {
                x: SPAWN_X,
                y: SPAWN_Y,
                rotation: PieceRotation::Deg90,
                kind: PieceKind::J,
            }),
            s.line_destroy_animation is None,
            s.since_fall_ms == 0,
    {
        GameState {
            grid: Grid::new(BOARD_WIDTH, BOARD_HEIGHT),
            piece_falling: Piece {
                x: SPAWN_X,
                y: SPAWN_Y,
                rotation: PieceRotation::Deg90,
                kind: PieceKind::J,
            },
            line_destroy_animation: None,
            since_fall_ms: 0,
        }
    }

    /// Tentatively shifts the falling piece one column left or right; a
    /// shift into a colliding position is rolled back.
    pub fn try_shift(&mut self, dx: i32) -> (moved: bool)
        requires
            old(self).wf(),
            dx == 1 || dx == -1,
        ensures
            final(self).wf(),
            final(self).grid == old(self).grid,
            final(self).line_destroy_animation == old(self).line_destroy_animation,
            final(self).since_fall_ms == old(self).since_fall_ms,
            final(self).piece_falling.y == old(self).piece_falling.y,
            final(self).piece_falling.kind == old(self).piece_falling.kind,
            final(self).piece_falling.rotation == old(self).piece_falling.rotation,
            moved == !piece_collides(
                old(self).grid,
                old(self).piece_falling.x + dx,
                old(self).piece_falling.y as int,
                old(self).piece_falling.kind,
                old(self).piece_falling.rotation,
            ),
            final(self).piece_falling.x == if moved {
                old(self).piece_falling.x + dx
            } else {
                old(self).piece_falling.x as int
            },
    {
        self.piece_falling.x = self.piece_falling.x + dx;
        if self.piece_falling.collides_with(&self.grid) {
            self.piece_falling.x = self.piece_falling.x - dx;
            false
        } else {
            proof {
                lemma_fits_bounds(
                    self.grid,
                    self.piece_falling.x as int,
                    self.piece_falling.y as int,
                    self.piece_falling.kind,
                    self.piece_falling.rotation,
                );
            }
            true
        }
    }

    /// Tentatively rotates the falling piece clockwise; a rotation into a
    /// colliding position is undone by the inverse rotation.
    pub fn try_rotate_cw(&mut self) -> (rotated: bool)
        requires
            old(self).wf(),
        ensures
            final(self).wf(),
            final(self).grid == old(self).grid,
            final(self).line_destroy_animation == old(self).line_destroy_animation,
            final(self).since_fall_ms == old(self).since_fall_ms,
            final(self).piece_falling.x == old(self).piece_falling.x,
            final(self).piece_falling.y == old(self).piece_falling.y,
            final(self).piece_falling.kind == old(self).piece_falling.kind,
            rotated == !piece_collides(
                old(self).grid,
                old(self).piece_falling.x as int,
                old(self).piece_falling.y as int,
                old(self).piece_falling.kind,
                old(self).piece_falling.rotation.spec_rotate_cw(),
            ),
            final(self).piece_falling.rotation == if rotated {
                old(self).piece_falling.rotation.spec_rotate_cw()
            } else {
                old(self).piece_falling.rotation
            },
    {
        self.piece_falling.rotation = self.piece_falling.rotation.rotate_cw();
        if self.piece_falling.collides_with(&self.grid) {
            self.piece_falling.rotation = self.piece_falling.rotation.rotate_ccw();
            false
        } else {
            true
        }
    }

    /// Advances the falling piece downward until the next row would collide.
    /// From any non-colliding start this stops at the lowest legal row; the
    /// descent is bounded by the board height.
    pub fn drop_to_bottom(&mut self)
        requires
            old(self).wf(),
        ensures
            final(self).board_wf(),
            final(self).grid == old(self).grid,
            final(self).line_destroy_animation == old(self).line_destroy_animation,
            final(self).since_fall_ms == old(self).since_fall_ms,
            final(self).piece_falling.x == old(self).piece_falling.x,
            final(self).piece_falling.kind == old(self).piece_falling.kind,
            final(self).piece_falling.rotation == old(self).piece_falling.rotation,
            old(self).piece_falling.y - 1 <= final(self).piece_falling.y
                < old(self).grid.height,
            piece_collides(
                old(self).grid,
                old(self).piece_falling.x as int,
                final(self).piece_falling.y + 1,
                old(self).piece_falling.kind,
                old(self).piece_falling.rotation,
            ),
            forall|yy: int|
                old(self).piece_falling.y <= yy <= final(self).piece_falling.y
                    ==> !piece_collides(
                    old(self).grid,
                    old(self).piece_falling.x as int,
                    yy,
                    old(self).piece_falling.kind,
                    old(self).piece_falling.rotation,
                ),
    {
        let mut moving = !self.piece_falling.collides_with(&self.grid);
        while moving
            invariant
                self.grid == old(self).grid,
                self.line_destroy_animation == old(self).line_destroy_animation,
                self.since_fall_ms == old(self).since_fall_ms,
                self.piece_falling.x == old(self).piece_falling.x,
                self.piece_falling.kind == old(self).piece_falling.kind,
                self.piece_falling.rotation == old(self).piece_falling.rotation,
                old(self).board_wf(),
                old(self).piece_falling.y <= self.piece_falling.y <= self.grid.height,
                moving == !piece_collides(
                    self.grid,
                    self.piece_falling.x as int,
                    self.piece_falling.y as int,
                    self.piece_falling.kind,
                    self.piece_falling.rotation,
                ),
                forall|yy: int|
                    old(self).piece_falling.y <= yy < self.piece_falling.y
                        ==> !piece_collides(
                        self.grid,
                        self.piece_falling.x as int,
                        yy,
                        self.piece_falling.kind,
                        self.piece_falling.rotation,
                    ),
            decreases self.grid.height + 1 - self.piece_falling.y,
        {
            proof {
                lemma_fits_bounds(
                    self.grid,
                    self.piece_falling.x as int,
                    self.piece_falling.y as int,
                    self.piece_falling.kind,
                    self.piece_falling.rotation,
                );
            }
            self.piece_falling.y = self.piece_falling.y + 1;
            moving = !self.piece_falling.collides_with(&self.grid);
        }
        self.piece_falling.y = self.piece_falling.y - 1;
    }

    /// Scans the board for full rows, groups consecutive full rows into
    /// ranges, and starts the line-destroy animation when any were found.
    /// Returns whether the clear sound is owed.
    pub fn check_lines(&mut self) -> (cleared: bool)
        requires
            old(self).wf(),
            old(self).line_destroy_animation is None,
        ensures
            final(self).wf(),
            final(self).grid == old(self).grid,
            final(self).piece_falling == old(self).piece_falling,
            final(self).since_fall_ms == old(self).since_fall_ms,
            cleared == old(self).grid.has_full_row(),
            match final(self).line_destroy_animation {
                Some(a) => cleared && a.progress_ms == 0 && line_ranges_spec(
                    old(self).grid,
                    a.lines_to_destroy@,
                ),
                None => !cleared,
            },
    {
        let mut last_line_to_destroy: Option<u32> = None;
        let mut lines_to_destroy: Vec<LineRange> = Vec::new();
        let h: usize = self.grid.height();
        let mut y: usize = 0;
        while y < h
            invariant
                *self == *old(self),
                self.wf(),
                self.line_destroy_animation is None,
                h == self.grid.height,
                0 <= y <= h,
                forall|k: int|
                    0 <= k < lines_to_destroy@.len() ==> (#[trigger] lines_to_destroy@[k]).start
                        < lines_to_destroy@[k].end && lines_to_destroy@[k].end < y,
                forall|yy: int|
                    #[trigger] in_ranges(lines_to_destroy@, yy) ==> self.grid.row_full(yy),
                forall|yy: int|
                    0 <= yy < y && #[trigger] self.grid.row_full(yy) ==> (in_ranges(
                        lines_to_destroy@,
                        yy,
                    ) || (match last_line_to_destroy {
                        Some(s) => s <= yy,
                        None => false,
                    })),
                forall|k: int|
                    0 <= k < lines_to_destroy@.len() ==> ((#[trigger] lines_to_destroy@[k]).start
                        == 0 || !self.grid.row_full(lines_to_destroy@[k].start - 1))
                        && !self.grid.row_full(lines_to_destroy@[k].end as int),
                forall|k1: int, k2: int|
                    0 <= k1 < k2 < lines_to_destroy@.len() ==> (#[trigger] lines_to_destroy@[k1]).end
                        < (#[trigger] lines_to_destroy@[k2]).start,
                match last_line_to_destroy {
                    Some(s) => 0 <= s < y && (s == 0 || !self.grid.row_full(s - 1)) && (forall|
                        yy: int,
                    |
                        s <= yy < y ==> #[trigger] self.grid.row_full(yy)) && (forall|k: int|
                        0 <= k < lines_to_destroy@.len() ==> (#[trigger] lines_to_destroy@[k]).end
                            < s),
                    None => y == 0 || !self.grid.row_full(y - 1),
                },
            decreases h - y,
        {
            let full = self.grid.is_row_full(y as i32);
            if full {
                if last_line_to_destroy.is_none() {
                    last_line_to_destroy = Some(y as u32);
                }
            } else {
                if last_line_to_destroy.is_some() {
                    let l = last_line_to_destroy.unwrap();
                    let ghost lr0 = lines_to_destroy@;
                    lines_to_destroy.push(LineRange { start: l, end: y as u32 });
                    proof {
                        assert forall|yy: int|
                            #[trigger] in_ranges(lines_to_destroy@, yy) implies self.grid.row_full(
                            yy,
                        ) by {
                            lemma_in_ranges_push(
                                lr0,
                                LineRange { start: l, end: y as u32 },
                                yy,
                            );
                        }
                        assert forall|yy: int|
                            0 <= yy <= y as int && #[trigger] self.grid.row_full(
                                yy,
                            ) implies in_ranges(lines_to_destroy@, yy) by {
                            lemma_in_ranges_push(
                                lr0,
                                LineRange { start: l, end: y as u32 },
                                yy,
                            );
                        }
                    }
                    last_line_to_destroy = None;
                }
            }
            y = y + 1;
        }
        if last_line_to_destroy.is_some() {
            let l = last_line_to_destroy.unwrap();
            let ghost lr0 = lines_to_destroy@;
            lines_to_destroy.push(LineRange { start: l, end: h as u32 });
            proof {
                assert forall|yy: int|
                    #[trigger] in_ranges(lines_to_destroy@, yy) implies self.grid.row_full(yy) by {
                    lemma_in_ranges_push(lr0, LineRange { start: l, end: h as u32 }, yy);
                }
                assert forall|yy: int|
                    0 <= yy < h as int && #[trigger] self.grid.row_full(yy) implies in_ranges(
                    lines_to_destroy@,
                    yy,
                ) by {
                    lemma_in_ranges_push(lr0, LineRange { start: l, end: h as u32 }, yy);
                }
            }
        }
        if lines_to_destroy.len() > 0 {
            proof {
                let rs = lines_to_destroy@;
                assert(in_ranges(rs, rs[0].start as int));
                assert(self.grid.row_full(rs[0].start as int));
                assert(self.grid.has_full_row());
            }
            self.line_destroy_animation = Some(
                LineDestroyAnimation { lines_to_destroy, progress_ms: 0 },
            );
            true
        } else {
            proof {
                if self.grid.has_full_row() {
                    let yf = choose|yy: int| 0 <= yy < self.grid.height && self.grid.row_full(yy);
                    assert(in_ranges(lines_to_destroy@, yf));
                }
            }
            false
        }
    }

    /// The lock sequence: stamps the falling piece onto the board, spawns
    /// the next piece at the fixed start cell with rotation reset, and scans
    /// for full rows. Returns whether the clear sound is owed.
    pub fn lock_piece(&mut self, next_kind: PieceKind) -> (cleared: bool)
        requires
            old(self).board_wf(),
            old(self).line_destroy_animation is None,
        ensures
            final(self).wf(),
            final(self).grid.width == old(self).grid.width,
            final(self).grid.height == old(self).grid.height,
            forall|ix: int, iy: int|
                final(self).grid.cell(ix, iy) == piece_merged_cell(
                    old(self).grid,
                    old(self).piece_falling,
                    ix,
                    iy,
                ),
            final(self).piece_falling == (Piece {
                x: SPAWN_X,
                y: SPAWN_Y,
                rotation: PieceRotation::Deg0,
                kind: next_kind,
            }),
            final(self).since_fall_ms == old(self).since_fall_ms,
            cleared == final(self).grid.has_full_row(),
            match final(self).line_destroy_animation {
                Some(a) => cleared && a.progress_ms == 0 && line_ranges_spec(
                    final(self).grid,
                    a.lines_to_destroy@,
                ),
                None => !cleared,
            },
    {
        let piece_grid = self.piece_falling.kind.get_grid(self.piece_falling.rotation);
        proof {
            lemma_overlay_is_piece_merge(self.grid, self.piece_falling, piece_grid);
        }
        self.grid.overlay(self.piece_falling.x, self.piece_falling.y, piece_grid);
        self.piece_falling = Piece {
            x: SPAWN_X,
            y: SPAWN_Y,
            rotation: PieceRotation::Deg0,
            kind: next_kind,
        };
        self.check_lines()
    }

    /// Locks the falling piece and spawns a new piece of a random kind; the
    /// drawn kind is not pinned down. Returns whether the clear sound is
    /// owed.
    pub fn place_current_piece(&mut self) -> (cleared: bool)
        requires
            old(self).board_wf(),
            old(self).line_destroy_animation is None,
        ensures
            final(self).wf(),
            final(self).grid.width == old(self).grid.width,
            final(self).grid.height == old(self).grid.height,
            forall|ix: int, iy: int|
                final(self).grid.cell(ix, iy) == piece_merged_cell(
                    old(self).grid,
                    old(self).piece_falling,
                    ix,
                    iy,
                ),
            final(self).piece_falling.x == SPAWN_X,
            final(self).piece_falling.y == SPAWN_Y,
            final(self).piece_falling.rotation == PieceRotation::Deg0,
            final(self).since_fall_ms == old(self).since_fall_ms,
            cleared == final(self).grid.has_full_row(),
            match final(self).line_destroy_animation {
                Some(a) => cleared && a.progress_ms == 0 && line_ranges_spec(
                    final(self).grid,
                    a.lines_to_destroy@,
                ),
                None => !cleared,
            },
    {
        let next_kind = PieceKind::random();
        self.lock_piece(next_kind)
    }

    /// The block the renderer shows at board cell (x, y): the placed block
    /// when there is one, else the falling piece's block when its pattern
    /// covers the cell.
    pub open spec fn visible_block_spec(self, x: int, y: int) -> Option<Block> {
        if self.grid.cell(x, y) is Some {
            self.grid.cell(x, y)
        } else if pattern_at(
            self.piece_falling.kind,
            self.piece_falling.rotation,
            x - self.piece_falling.x,
            y - self.piece_falling.y,
        ) {
            Some(Block { color: self.piece_falling.kind.color_spec() })
        } else {
            None
        }
    }

    /// What to draw at board cell (x, y): placed blocks win over the
    /// falling piece.
    pub fn visible_block_at(&self, x: i32, y: i32) -> (r: Option<Block>)
        requires
            self.wf(),
            0 <= x < self.grid.width,
            0 <= y < self.grid.height,
        ensures
            r == self.visible_block_spec(x as int, y as int),
    {
        let b = self.grid.at(x, y);
        if b.is_some() {
            return b;
        }
        let pg = self.piece_falling.kind.get_grid(self.piece_falling.rotation);
        let r = pg.at(x - self.piece_falling.x, y - self.piece_falling.y);
        proof {
            let dx = x - self.piece_falling.x as int;
            let dy = y - self.piece_falling.y as int;
            if pg.in_bounds(dx, dy) {
                assert((pg.cell(dx, dy) is Some) == pattern_at(
                    self.piece_falling.kind,
                    self.piece_falling.rotation,
                    dx,
                    dy,
                ));
            } else {
                assert(pg.cell(dx, dy) is None);
                assert(!pattern_at(self.piece_falling.kind, self.piece_falling.rotation, dx, dy));
            }
        }
        r
    }

    /// One frame of the state machine, fed the keys read this frame and the
    /// elapsed milliseconds. While the line-destroy animation runs it alone
    /// advances, suppressing every input; otherwise the inputs act, then
    /// gravity. Returns the side effects the frame asks of the
    /// collaborators.
    pub fn update(&mut self, input: InputState, dt_ms: u32) -> (fx: FrameEffects)
        requires
            old(self).wf(),
        ensures
            final(self).wf(),
            final(self).grid.width == old(self).grid.width,
            final(self).grid.height == old(self).grid.height,
            match old(self).line_destroy_animation {
                Some(a) => ({
                    let inc = if dt_ms > DESTROY_ANIM_MS {
                        DESTROY_ANIM_MS as int
                    } else {
                        dt_ms as int
                    };
                    &&& fx.silent()
                    &&& final(self).piece_falling == old(self).piece_falling
                    &&& final(self).since_fall_ms == old(self).since_fall_ms
                    &&& if a.progress_ms + inc < DESTROY_ANIM_MS {
                        &&& final(self).grid == old(self).grid
                        &&& match final(self).line_destroy_animation {
                            Some(b) => b.lines_to_destroy@ == a.lines_to_destroy@
                                && b.progress_ms == a.progress_ms + inc,
                            None => false,
                        }
                    } else {
                        &&& final(self).line_destroy_animation is None
                        &&& final(self).grid.rows() == apply_destroys(
                            old(self).grid.rows(),
                            old(self).grid.width as nat,
                            a.lines_to_destroy@,
                        )
                    }
                }),
                None => ({
                    let inc = if dt_ms > GRAVITY_MS + 1 {
                        (GRAVITY_MS + 1) as int
                    } else {
                        dt_ms as int
                    };
                    let tpf = if input.down_held {
                        SOFT_DROP_MS as int
                    } else {
                        GRAVITY_MS as int
                    };
                    let idle = !input.left_pressed && !input.right_pressed
                        && !input.rotate_pressed && !input.hard_drop_pressed;
                    &&& (fx.clear_sound ==> fx.place_sound)
                    &&& (input.hard_drop_pressed ==> fx.place_sound && fx.changed)
                    &&& (fx.place_sound ==> final(self).since_fall_ms == 0)
                    &&& (!input.hard_drop_pressed && old(self).since_fall_ms + inc <= tpf
                        ==> !fx.place_sound)
                    &&& (fx.place_sound ==> final(self).piece_falling.x == SPAWN_X
                        && final(self).piece_falling.y == SPAWN_Y
                        && final(self).piece_falling.rotation == PieceRotation::Deg0)
                    &&& (!fx.place_sound ==> final(self).grid == old(self).grid
                        && final(self).piece_falling.kind == old(self).piece_falling.kind
                        && final(self).line_destroy_animation is None)
                    &&& fx.clear_sound == (final(self).line_destroy_animation is Some)
                    &&& match final(self).line_destroy_animation {
                        Some(b) => b.progress_ms == 0 && line_ranges_spec(
                            final(self).grid,
                            b.lines_to_destroy@,
                        ) && final(self).grid.has_full_row(),
                        None => true,
                    }
                    &&& (idle && old(self).since_fall_ms + inc <= tpf ==> final(self).piece_falling == old(self).piece_falling && fx.silent() && final(self).since_fall_ms == old(self).since_fall_ms + inc)
                    &&& (input.left_pressed && !input.right_pressed && !input.rotate_pressed
                        && !input.hard_drop_pressed && old(self).since_fall_ms + inc <= tpf ==> ({
                        let moved = !piece_collides(
                            old(self).grid,
                            old(self).piece_falling.x - 1,
                            old(self).piece_falling.y as int,
                            old(self).piece_falling.kind,
                            old(self).piece_falling.rotation,
                        );
                        &&& final(self).piece_falling.x == if moved {
                            old(self).piece_falling.x - 1
                        } else {
                            old(self).piece_falling.x as int
                        }
                        &&& final(self).piece_falling.y == old(self).piece_falling.y
                        &&& final(self).piece_falling.rotation
                            == old(self).piece_falling.rotation
                        &&& fx == (FrameEffects {
                            rotate_sound: false,
                            place_sound: false,
                            clear_sound: false,
                            changed: moved,
                        })
                    }))
                    &&& (input.right_pressed && !input.left_pressed && !input.rotate_pressed
                        && !input.hard_drop_pressed && old(self).since_fall_ms + inc <= tpf ==> ({
                        let moved = !piece_collides(
                            old(self).grid,
                            old(self).piece_falling.x + 1,
                            old(self).piece_falling.y as int,
                            old(self).piece_falling.kind,
                            old(self).piece_falling.rotation,
                        );
                        &&& final(self).piece_falling.x == if moved {
                            old(self).piece_falling.x + 1
                        } else {
                            old(self).piece_falling.x as int
                        }
                        &&& final(self).piece_falling.y == old(self).piece_falling.y
                        &&& final(self).piece_falling.rotation
                            == old(self).piece_falling.rotation
                        &&& fx == (FrameEffects {
                            rotate_sound: false,
                            place_sound: false,
                            clear_sound: false,
                            changed: moved,
                        })
                    }))
                    &&& (input.rotate_pressed && !input.left_pressed && !input.right_pressed
                        && !input.hard_drop_pressed && old(self).since_fall_ms + inc <= tpf ==> ({
                        let turned = !piece_collides(
                            old(self).grid,
                            old(self).piece_falling.x as int,
                            old(self).piece_falling.y as int,
                            old(self).piece_falling.kind,
                            old(self).piece_falling.rotation.spec_rotate_cw(),
                        );
                        &&& final(self).piece_falling.rotation == if turned {
                            old(self).piece_falling.rotation.spec_rotate_cw()
                        } else {
                            old(self).piece_falling.rotation
                        }
                        &&& final(self).piece_falling.x == old(self).piece_falling.x
                        &&& final(self).piece_falling.y == old(self).piece_falling.y
                        &&& fx == (FrameEffects {
                            rotate_sound: turned,
                            place_sound: false,
                            clear_sound: false,
                            changed: turned,
                        })
                    }))
                    &&& (idle && old(self).since_fall_ms + inc > tpf && !piece_collides(
                        old(self).grid,
                        old(self).piece_falling.x as int,
                        old(self).piece_falling.y + 1,
                        old(self).piece_falling.kind,
                        old(self).piece_falling.rotation,
                    ) ==> final(self).piece_falling.y == old(self).piece_falling.y + 1 && final(self).piece_falling.x == old(self).piece_falling.x && final(self).piece_falling.rotation == old(self).piece_falling.rotation && final(self).since_fall_ms == 0 && fx == (FrameEffects {
                        rotate_sound: false,
                        place_sound: false,
                        clear_sound: false,
                        changed: true,
                    }))
                }),
            },
    {
        if self.line_destroy_animation.is_some() {
            let inc: u32 = if dt_ms > DESTROY_ANIM_MS {
                DESTROY_ANIM_MS
            } else {
                dt_ms
            };
            let progress: u32 = match &self.line_destroy_animation {
                Some(a) => a.progress_ms,
                None => 0,
            };
            let newp: u32 = progress + inc;
            if newp >= DESTROY_ANIM_MS {
                let ghost rows0 = self.grid.rows();
                let ghost w = self.grid.width as nat;
                let ghost ranges = self.line_destroy_animation.unwrap().lines_to_destroy@;
                let n: usize = match &self.line_destroy_animation {
                    Some(a) => a.lines_to_destroy.len(),
                    None => 0,
                };
                let mut k: usize = 0;
                while k < n
                    invariant
                        self.line_destroy_animation == old(self).line_destroy_animation,
                        self.piece_falling == old(self).piece_falling,
                        self.since_fall_ms == old(self).since_fall_ms,
                        old(self).wf(),
                        self.grid.wf(),
                        self.grid.width == old(self).grid.width,
                        self.grid.height == old(self).grid.height,
                        w == self.grid.width as nat,
                        match self.line_destroy_animation {
                            Some(a) => a.lines_to_destroy@ == ranges && a.wf(),
                            None => false,
                        },
                        n == ranges.len(),
                        0 <= k <= n,
                        apply_destroys_from(rows0, w, ranges, 0) == apply_destroys_from(
                            self.grid.rows(),
                            w,
                            ranges,
                            k as int,
                        ),
                    decreases n - k,
                {
                    let r: LineRange = match &self.line_destroy_animation {
                        Some(a) => a.lines_to_destroy[k],
                        None => LineRange { start: 0, end: 0 },
                    };
                    let ghost rows_r = self.grid.rows();
                    let mut line: u32 = r.start;
                    while line < r.end
                        invariant
                            self.line_destroy_animation == old(self).line_destroy_animation,
                            self.piece_falling == old(self).piece_falling,
                            self.since_fall_ms == old(self).since_fall_ms,
                            self.grid.wf(),
                            self.grid.width == old(self).grid.width,
                            self.grid.height == old(self).grid.height,
                            w == self.grid.width as nat,
                            r.start <= line <= r.end,
                            r.end <= self.grid.height,
                            self.grid.rows() == clear_range_rows(
                                rows_r,
                                w,
                                r.start as int,
                                line as int,
                            ),
                        decreases r.end - line,
                    {
                        self.grid.clear_line(line as i32);
                        proof {
                            lemma_clear_range_snoc(rows_r, w, r.start as int, line as int);
                        }
                        line = line + 1;
                    }
                    proof {
                        assert(self.grid.rows() == clear_range_rows(
                            rows_r,
                            w,
                            r.start as int,
                            r.end as int,
                        ));
                        assert(apply_destroys_from(rows_r, w, ranges, k as int)
                            == apply_destroys_from(self.grid.rows(), w, ranges, k as int + 1));
                    }
                    k = k + 1;
                }
                self.line_destroy_animation = None;
            } else {
                match &mut self.line_destroy_animation {
                    Some(a) => {
                        a.progress_ms = newp;
                    },
                    None => {},
                }
            }
            return FrameEffects {
                rotate_sound: false,
                place_sound: false,
                clear_sound: false,
                changed: false,
            };
        }
        let mut fx = FrameEffects {
            rotate_sound: false,
            place_sound: false,
            clear_sound: false,
            changed: false,
        };
        if input.left_pressed {
            let moved = self.try_shift(-1);
            if moved {
                fx.changed = true;
            }
        }
        if input.right_pressed {
            let moved = self.try_shift(1);
            if moved {
                fx.changed = true;
            }
        }
        if input.rotate_pressed {
            let turned = self.try_rotate_cw();
            if turned {
                fx.rotate_sound = true;
                fx.changed = true;
            }
        }
        let time_per_fall: u32 = if input.down_held {
            SOFT_DROP_MS
        } else {
            GRAVITY_MS
        };
        let inc: u32 = if dt_ms > GRAVITY_MS + 1 {
            GRAVITY_MS + 1
        } else {
            dt_ms
        };
        let mut t: u32 = self.since_fall_ms + inc;
        if t > GRAVITY_MS + 1 {
            t = GRAVITY_MS + 1;
        }
        self.since_fall_ms = t;
        if input.hard_drop_pressed {
            self.since_fall_ms = 0;
            self.drop_to_bottom();
            let cleared = self.place_current_piece();
            fx.place_sound = true;
            if cleared {
                fx.clear_sound = true;
            }
            fx.changed = true;
        }
        if self.since_fall_ms > time_per_fall {
            self.since_fall_ms = 0;
            self.piece_falling.y = self.piece_falling.y + 1;
            if self.piece_falling.collides_with(&self.grid) {
                self.piece_falling.y = self.piece_falling.y - 1;
                let cleared = self.place_current_piece();
                fx.place_sound = true;
                if cleared {
                    fx.clear_sound = true;
                }
            } else {
                proof {
                    lemma_fits_bounds(
                        self.grid,
                        self.piece_falling.x as int,
                        self.piece_falling.y as int,
                        self.piece_falling.kind,
                        self.piece_falling.rotation,
                    );
                }
            }
            fx.changed = true;
        }
        fx
    }
}

} // verus!
