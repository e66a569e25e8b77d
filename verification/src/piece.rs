//! Piece geometry: the seven tetromino kinds, their four orientations, the
//! 4x4 occupancy pattern of every (kind, rotation) pair, and the falling
//! piece with its collision test.

use vstd::prelude::*;

use crate::grid::Block;
use crate::grid::BlockColor;
use crate::grid::Grid;

use PieceKind::I;
use PieceKind::J;
use PieceKind::L;
use PieceKind::O;
use PieceKind::S;
use PieceKind::T;
use PieceKind::Z;
use PieceRotation::Deg0;
use PieceRotation::Deg180;
use PieceRotation::Deg270;
use PieceRotation::Deg90;

verus! {

/// One of the four orientations of a piece; a cyclic state under
/// `rotate_cw` / `rotate_ccw`.
#[derive(Clone, Copy, PartialEq, Eq, Structural, Debug)]
pub enum PieceRotation {
    Deg0,
    Deg90,
    Deg180,
    Deg270,
}

impl PieceRotation {
    pub open spec fn spec_rotate_cw(self) -> PieceRotation {
        match self {
            Deg0 => Deg90,
            Deg90 => Deg180,
            Deg180 => Deg270,
            Deg270 => Deg0,
        }
    }

    pub open spec fn spec_rotate_ccw(self) -> PieceRotation {
        match self {
            Deg0 => Deg270,
            Deg90 => Deg0,
            Deg180 => Deg90,
            Deg270 => Deg180,
        }
    }

    pub fn rotate_cw(self) -> (r: PieceRotation)
        ensures
            r == self.spec_rotate_cw(),
    {
        match self {
            Deg0 => Deg90,
            Deg90 => Deg180,
            Deg180 => Deg270,
            Deg270 => Deg0,
        }
    }

    pub fn rotate_ccw(self) -> (r: PieceRotation)
        ensures
            r == self.spec_rotate_ccw(),
    {
        match self {
            Deg0 => Deg270,
            Deg90 => Deg0,
            Deg180 => Deg90,
            Deg270 => Deg180,
        }
    }
}

/// The rotations form a cycle of order four: turning clockwise four times is
/// the identity, and the two turning directions are exact inverses.
pub proof fn lemma_rotation_cycle(r: PieceRotation)
    ensures
        r.spec_rotate_cw().spec_rotate_cw().spec_rotate_cw().spec_rotate_cw() == r,
        r.spec_rotate_cw().spec_rotate_ccw() == r,
        r.spec_rotate_ccw().spec_rotate_cw() == r,
{
}

/// One of the seven tetromino shapes.
#[derive(Clone, Copy, PartialEq, Eq, Structural, Debug)]
pub enum PieceKind {
    I,
    J,
    L,
    O,
    S,
    T,
    Z,
}

/// The kind a spawn index in 0..7 selects; indices past the table fall back
/// to the last kind.
pub open spec fn kind_of_index(n: u8) -> PieceKind {
    if n == 0 {
        I
    } else if n == 1 {
        J
    } else if n == 2 {
        L
    } else if n == 3 {
        O
    } else if n == 4 {
        S
    } else if n == 5 {
        T
    } else {
        Z
    }
}

/// The 4x4 occupancy bitmap of a (kind, rotation) pair, row-major: entry
/// `j * 4 + i` is cell (i, j) of the piece's bounding box.
pub open spec fn pattern(kind: PieceKind, rot: PieceRotation) -> Seq<bool> {
    let o = false;
    let x = true;
    match (kind, rot) {
        (I, Deg0) | (I, Deg180) => seq![
            o, o, o, o,
            x, x, x, x,
            o, o, o, o,
            o, o, o, o,
        ],
        (I, Deg90) | (I, Deg270) => seq![
            o, x, o, o,
            o, x, o, o,
            o, x, o, o,
            o, x, o, o,
        ],
        (J, Deg0) => seq![
            o, x, o, o,
            o, x, o, o,
            x, x, o, o,
            o, o, o, o,
        ],
        (J, Deg90) => seq![
            x, o, o, o,
            x, x, x, o,
            o, o, o, o,
            o, o, o, o,
        ],
        (J, Deg180) => seq![
            o, x, x, o,
            o, x, o, o,
            o, x, o, o,
            o, o, o, o,
        ],
        (J, Deg270) => seq![
            o, o, o, o,
            x, x, x, o,
            o, o, x, o,
            o, o, o, o,
        ],
        (L, Deg0) => seq![
            o, x, o, o,
            o, x, o, o,
            o, x, x, o,
            o, o, o, o,
        ],
        (L, Deg90) => seq![
            o, o, o, o,
            x, x, x, o,
            x, o, o, o,
            o, o, o, o,
        ],
        (L, Deg180) => seq![
            x, x, o, o,
            o, x, o, o,
            o, x, o, o,
            o, o, o, o,
        ],
        (L, Deg270) => seq![
            o, o, x, o,
            x, x, x, o,
            o, o, o, o,
            o, o, o, o,
        ],
        (O, _) => seq![
            x, x, o, o,
            x, x, o, o,
            o, o, o, o,
            o, o, o, o,
        ],
        (S, Deg0) | (S, Deg180) => seq![
            o, x, x, o,
            x, x, o, o,
            o, o, o, o,
            o, o, o, o,
        ],
        (S, Deg90) | (S, Deg270) => seq![
            x, o, o, o,
            x, x, o, o,
            o, x, o, o,
            o, o, o, o,
        ],
        (T, Deg0) => seq![
            o, x, o, o,
            x, x, x, o,
            o, o, o, o,
            o, o, o, o,
        ],
        (T, Deg90) => seq![
            o, x, o, o,
            o, x, x, o,
            o, x, o, o,
            o, o, o, o,
        ],
        (T, Deg180) => seq![
            o, o, o, o,
            x, x, x, o,
            o, x, o, o,
            o, o, o, o,
        ],
        (T, Deg270) => seq![
            o, x, o, o,
            x, x, o, o,
            o, x, o, o,
            o, o, o, o,
        ],
        (Z, Deg0) | (Z, Deg180) => seq![
            x, x, o, o,
            o, x, x, o,
            o, o, o, o,
            o, o, o, o,
        ],
        (Z, Deg90) | (Z, Deg270) => seq![
            o, x, o, o,
            x, x, o, o,
            x, o, o, o,
            o, o, o, o,
        ],
    }
}

/// The number of occupied entries of `s` at or after position `k`.
pub open spec fn occ_count_from(s: Seq<bool>, k: int) -> nat
    decreases s.len() - k,
{
    if 0 <= k < s.len() {
        (if s[k] {
            1nat
        } else {
            0nat
        }) + occ_count_from(s, k + 1)
    } else {
        0
    }
}

/// The number of occupied entries of an occupancy bitmap.
pub open spec fn occ_count(s: Seq<bool>) -> nat {
    occ_count_from(s, 0)
}

impl PieceKind {
    /// The fixed display colour of this kind.
    pub open spec fn color_spec(self) -> BlockColor {
        match self {
            I => BlockColor::Cyan,
            J => BlockColor::Blue,
            L => BlockColor::Red,
            O => BlockColor::Yellow,
            S => BlockColor::Green,
            T => BlockColor::Magenta,
            Z => BlockColor::White,
        }
    }

    pub fn color(&self) -> (c: BlockColor)
        ensures
            c == self.color_spec(),
    {
        match self {
            I => BlockColor::Cyan,
            J => BlockColor::Blue,
            L => BlockColor::Red,
            O => BlockColor::Yellow,
            S => BlockColor::Green,
            T => BlockColor::Magenta,
            Z => BlockColor::White,
        }
    }

    /// The kind selected by a spawn index; indices 0..7 each name one kind.
    pub fn from_index(n: u8) -> (k: PieceKind)
        ensures
            k == kind_of_index(n),
    {
        match n {
            0 => I,
            1 => J,
            2 => L,
            3 => O,
            4 => S,
            5 => T,
            _ => Z,
        }
    }

    /// Draws a fresh kind for the next spawned piece. The draw is random, so
    /// nothing is promised about which kind comes back.
    pub fn random() -> (k: PieceKind) {
        PieceKind::from_index(random_piece_index())
    }

    /// The 4x4 grid of this kind at the given rotation: occupied exactly at
    /// the cells of `pattern`, every block in this kind's colour.
    pub fn get_grid(&self, rotation: PieceRotation) -> (g: Grid)
        ensures
            g.wf(),
            g.width == 4,
            g.height == 4,
            forall|i: int, j: int|
                0 <= i < 4 && 0 <= j < 4 ==> ((g.cell(i, j) is Some) == pattern(
                    *self,
                    rotation,
                )[j * 4 + i]),
            forall|i: int, j: int|
                g.cell(i, j) is Some ==> g.cell(i, j) == Some(
                    Block { color: self.color_spec() },
                ),
    {
        let o: Option<Block> = None;
        let x: Option<Block> = Some(Block { color: self.color() });
        let blocks: Vec<Option<Block>> = match (self, rotation) {
            (I, Deg0) | (I, Deg180) => vec![
                o, o, o, o,
                x, x, x, x,
                o, o, o, o,
                o, o, o, o,
            ],
            (I, Deg90) | (I, Deg270) => vec![
                o, x, o, o,
                o, x, o, o,
                o, x, o, o,
                o, x, o, o,
            ],
            (J, Deg0) => vec![
                o, x, o, o,
                o, x, o, o,
                x, x, o, o,
                o, o, o, o,
            ],
            (J, Deg90) => vec![
                x, o, o, o,
                x, x, x, o,
                o, o, o, o,
                o, o, o, o,
            ],
            (J, Deg180) => vec![
                o, x, x, o,
                o, x, o, o,
                o, x, o, o,
                o, o, o, o,
            ],
            (J, Deg270) => vec![
                o, o, o, o,
                x, x, x, o,
                o, o, x, o,
                o, o, o, o,
            ],
            (L, Deg0) => vec![
                o, x, o, o,
                o, x, o, o,
                o, x, x, o,
                o, o, o, o,
            ],
            (L, Deg90) => vec![
                o, o, o, o,
                x, x, x, o,
                x, o, o, o,
                o, o, o, o,
            ],
            (L, Deg180) => vec![
                x, x, o, o,
                o, x, o, o,
                o, x, o, o,
                o, o, o, o,
            ],
            (L, Deg270) => vec![
                o, o, x, o,
                x, x, x, o,
                o, o, o, o,
                o, o, o, o,
            ],
            (O, _) => vec![
                x, x, o, o,
                x, x, o, o,
                o, o, o, o,
                o, o, o, o,
            ],
            (S, Deg0) | (S, Deg180) => vec![
                o, x, x, o,
                x, x, o, o,
                o, o, o, o,
                o, o, o, o,
            ],
            (S, Deg90) | (S, Deg270) => vec![
                x, o, o, o,
                x, x, o, o,
                o, x, o, o,
                o, o, o, o,
            ],
            (T, Deg0) => vec![
                o, x, o, o,
                x, x, x, o,
                o, o, o, o,
                o, o, o, o,
            ],
            (T, Deg90) => vec![
                o, x, o, o,
                o, x, x, o,
                o, x, o, o,
                o, o, o, o,
            ],
            (T, Deg180) => vec![
                o, o, o, o,
                x, x, x, o,
                o, x, o, o,
                o, o, o, o,
            ],
            (T, Deg270) => vec![
                o, x, o, o,
                x, x, o, o,
                o, x, o, o,
                o, o, o, o,
            ],
            (Z, Deg0) | (Z, Deg180) => vec![
                x, x, o, o,
                o, x, x, o,
                o, o, o, o,
                o, o, o, o,
            ],
            (Z, Deg90) | (Z, Deg270) => vec![
                o, x, o, o,
                x, x, o, o,
                x, o, o, o,
                o, o, o, o,
            ],
        };
        let g = Grid::with_data(4, 4, blocks);
        g
    }
}

/// Relies on `rand::Rng::gen_range` called on the range `0..7`: the result
/// always lies within that range.
#[verifier::external_body]
fn random_piece_index() -> (r: u8)
    ensures
        r < 7,
{
    rand::Rng::gen_range(&mut rand::thread_rng(), 0u8..7u8)
}

/// Every tetromino pattern occupies exactly four cells.
#[verifier::rlimit(100)]
pub proof fn lemma_pattern_four_cells(kind: PieceKind, rot: PieceRotation)
    ensures
        occ_count(pattern(kind, rot)) == 4,
{
    reveal_with_fuel(occ_count_from, 17);
}

proof fn lemma_occ_nonzero(s: Seq<bool>, k: int)
    requires
        0 <= k <= s.len(),
        occ_count_from(s, k) > 0,
    ensures
        exists|i: int| k <= i < s.len() && s[i],
    decreases s.len() - k,
{
    if s[k] {
        assert(k <= k < s.len() && s[k]);
    } else {
        lemma_occ_nonzero(s, k + 1);
    }
}

/// Every tetromino pattern has at least one occupied cell, and that cell's
/// row and column both lie in 0..4.
pub proof fn lemma_pattern_has_cell(kind: PieceKind, rot: PieceRotation)
    ensures
        exists|i: int, j: int| pattern_at(kind, rot, i, j),
{
    lemma_pattern_four_cells(kind, rot);
    assert(pattern(kind, rot).len() == 16) by {
        reveal_with_fuel(occ_count_from, 17);
        lemma_pattern_len(kind, rot);
    }
    lemma_occ_nonzero(pattern(kind, rot), 0);
    let k = choose|k: int| 0 <= k < pattern(kind, rot).len() && pattern(kind, rot)[k];
    let i = k % 4;
    let j = k / 4;
    assert(k == j * 4 + i);
    assert(pattern_at(kind, rot, i, j));
}

/// Every pattern bitmap has exactly the sixteen entries of a 4x4 box.
pub proof fn lemma_pattern_len(kind: PieceKind, rot: PieceRotation)
    ensures
        pattern(kind, rot).len() == 16,
{
}

/// Whether cell (i, j) of the 4x4 bounding box of a (kind, rotation) pair
/// is occupied.
pub open spec fn pattern_at(kind: PieceKind, rot: PieceRotation, i: int, j: int) -> bool {
    0 <= i < 4 && 0 <= j < 4 && pattern(kind, rot)[j * 4 + i]
}

/// True iff some occupied cell of the pattern, placed at offset (x, y),
/// coincides with an occupied cell of `grid`.
pub open spec fn piece_hits(grid: Grid, x: int, y: int, kind: PieceKind, rot: PieceRotation) -> bool {
    exists|i: int, j: int| pattern_at(kind, rot, i, j) && grid.cell(x + i, y + j) is Some
}

/// True iff every occupied cell of the pattern, placed at offset (x, y),
/// lands within the bounds of `grid`.
pub open spec fn piece_fits(grid: Grid, x: int, y: int, kind: PieceKind, rot: PieceRotation) -> bool {
    forall|i: int, j: int| pattern_at(kind, rot, i, j) ==> grid.in_bounds(x + i, y + j)
}

/// The grid built by `get_grid` hits and fits exactly as the pattern does.
proof fn lemma_piece_grid_semantics(grid: Grid, x: int, y: int, kind: PieceKind, rot: PieceRotation, pg: Grid)
    requires
        pg.width == 4,
        pg.height == 4,
        forall|i: int, j: int|
            0 <= i < 4 && 0 <= j < 4 ==> ((pg.cell(i, j) is Some) == pattern(kind, rot)[j * 4 + i]),
    ensures
        grid.overlaps(x, y, pg) == piece_hits(grid, x, y, kind, rot),
        grid.encloses(x, y, pg) == piece_fits(grid, x, y, kind, rot),
{
    if grid.overlaps(x, y, pg) {
        let (ix, iy): (int, int) = choose|ix: int, iy: int|
            grid.cell(ix, iy) is Some && pg.cell(ix - x, iy - y) is Some;
        assert(pg.in_bounds(ix - x, iy - y));
        let i = ix - x;
        let j = iy - y;
        assert(pattern_at(kind, rot, i, j) && grid.cell(x + i, y + j) is Some);
        assert(piece_hits(grid, x, y, kind, rot));
    }
    if piece_hits(grid, x, y, kind, rot) {
        let (i, j): (int, int) = choose|i: int, j: int|
            pattern_at(kind, rot, i, j) && grid.cell(x + i, y + j) is Some;
        assert(grid.cell(x + i, y + j) is Some && pg.cell((x + i) - x, (y + j) - y) is Some);
        assert(grid.overlaps(x, y, pg));
    }
    if grid.encloses(x, y, pg) {
        assert forall|i: int, j: int| pattern_at(kind, rot, i, j) implies grid.in_bounds(
            x + i,
            y + j,
        ) by {
            assert(pg.cell(i, j) is Some);
            assert(grid.in_bounds(i + x, j + y));
        }
    }
    if piece_fits(grid, x, y, kind, rot) {
        assert forall|ix: int, iy: int| pg.cell(ix, iy) is Some implies grid.in_bounds(
            ix + x,
            iy + y,
        ) by {
            assert(pg.in_bounds(ix, iy));
            assert(pattern_at(kind, rot, ix, iy));
            assert(grid.in_bounds(x + ix, y + iy));
        }
    }
}

/// Collision of a pattern placed at (x, y): it overlaps a placed block or
/// some occupied cell of it leaves the board.
pub open spec fn piece_collides(grid: Grid, x: int, y: int, kind: PieceKind, rot: PieceRotation) -> bool {
    piece_hits(grid, x, y, kind, rot) || !piece_fits(grid, x, y, kind, rot)
}

/// A piece whose occupied cells all lie on the grid keeps its offset within
/// three cells of the board on every side.
pub proof fn lemma_fits_bounds(grid: Grid, x: int, y: int, kind: PieceKind, rot: PieceRotation)
    requires
        piece_fits(grid, x, y, kind, rot),
    ensures
        -3 <= x < grid.width,
        -3 <= y < grid.height,
{
    lemma_pattern_has_cell(kind, rot);
    let (i, j): (int, int) = choose|i: int, j: int| pattern_at(kind, rot, i, j);
    assert(grid.in_bounds(x + i, y + j));
}

/// The cell (ix, iy) after stamping piece `p` onto `base` at its position:
/// cells under an occupied pattern cell take the piece's colour, every other
/// cell keeps its old content.
pub open spec fn piece_merged_cell(base: Grid, p: Piece, ix: int, iy: int) -> Option<Block> {
    if base.in_bounds(ix, iy) && pattern_at(p.kind, p.rotation, ix - p.x, iy - p.y) {
        Some(Block { color: p.kind.color_spec() })
    } else {
        base.cell(ix, iy)
    }
}

/// Overlaying the grid that `get_grid` returns is exactly stamping the
/// piece's pattern.
pub proof fn lemma_overlay_is_piece_merge(base: Grid, p: Piece, pg: Grid)
    requires
        pg.width == 4,
        pg.height == 4,
        forall|i: int, j: int|
            0 <= i < 4 && 0 <= j < 4 ==> ((pg.cell(i, j) is Some) == pattern(
                p.kind,
                p.rotation,
            )[j * 4 + i]),
        forall|i: int, j: int|
            pg.cell(i, j) is Some ==> pg.cell(i, j) == Some(
                Block { color: p.kind.color_spec() },
            ),
    ensures
        forall|ix: int, iy: int|
            Grid::merged_cell(base, p.x as int, p.y as int, pg, ix, iy) == piece_merged_cell(
                base,
                p,
                ix,
                iy,
            ),
{
    assert forall|ix: int, iy: int|
        Grid::merged_cell(base, p.x as int, p.y as int, pg, ix, iy) == piece_merged_cell(
            base,
            p,
            ix,
            iy,
        ) by {
        let i = ix - p.x;
        let j = iy - p.y;
        if pg.in_bounds(i, j) {
            assert((pg.cell(i, j) is Some) == pattern_at(p.kind, p.rotation, i, j));
        } else {
            assert(pg.cell(i, j) is None);
            assert(!pattern_at(p.kind, p.rotation, i, j));
        }
    }
}

/// The falling piece: a kind fixed at spawn, a rotation, and the integer
/// offset of its 4x4 pattern within the board grid.
pub struct Piece {
    pub x: i32,
    pub y: i32,
    pub rotation: PieceRotation,
    pub kind: PieceKind,
}

impl Piece {
    /// Collision: the piece overlaps a placed block, or some occupied cell
    /// of it leaves the board.
    pub open spec fn collides_spec(self, grid: Grid) -> bool {
        piece_collides(grid, self.x as int, self.y as int, self.kind, self.rotation)
    }

    pub fn collides_with(&self, grid: &Grid) -> (r: bool)
        requires
            grid.wf(),
        ensures
            r == self.collides_spec(*grid),
    {
        let piece_grid = self.kind.get_grid(self.rotation);
        proof {
            lemma_piece_grid_semantics(
                *grid,
                self.x as int,
                self.y as int,
                self.kind,
                self.rotation,
                piece_grid,
            );
        }
        grid.intersects(self.x, self.y, &piece_grid) || !grid.contains(
            self.x,
            self.y,
            &piece_grid,
        )
    }
}

} // verus!
