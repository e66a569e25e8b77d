//! The board: a fixed-size two-dimensional grid of optional coloured blocks.

use vstd::prelude::*;

verus! {

broadcast use vstd::std_specs::vec::axiom_spec_len;

/// The display colour of a placed block; one colour per piece kind.
#[derive(Clone, Copy, PartialEq, Eq, Structural, Debug)]
pub enum BlockColor {
    Cyan,
    Blue,
    Red,
    Yellow,
    Green,
    Magenta,
    White,
}

/// One occupied cell: an immutable colour tag.
#[derive(Clone, Copy, PartialEq, Eq, Structural, Debug)]
pub struct Block {
    pub color: BlockColor,
}

/// A `width` x `height` grid stored row-major; cell (x, y) lives at
/// index `y * width + x`.
pub struct Grid {
    pub blocks: Vec<Option<Block>>,
    pub width: usize,
    pub height: usize,
}

proof fn lemma_index_bound(w: int, h: int, x: int, y: int)
    requires
        0 <= x < w,
        0 <= y < h,
    ensures
        0 <= y * w + x < w * h,
{
    assert(y * w + x < w * h) by (nonlinear_arith)
        requires
            0 <= x < w,
            0 <= y < h,
    ;
    assert(0 <= y * w + x) by (nonlinear_arith)
        requires
            0 <= x,
            0 <= y,
            0 < w,
    ;
}

proof fn lemma_index_injective(w: int, x1: int, y1: int, x2: int, y2: int)
    requires
        0 <= x1 < w,
        0 <= x2 < w,
        0 <= y1,
        0 <= y2,
        x1 != x2 || y1 != y2,
    ensures
        y1 * w + x1 != y2 * w + x2,
{
    assert(y1 * w + x1 != y2 * w + x2) by (nonlinear_arith)
        requires
            0 <= x1 < w,
            0 <= x2 < w,
            0 <= y1,
            0 <= y2,
            x1 != x2 || y1 != y2,
    ;
}

impl Grid {
    /// The structural invariant: the backing storage holds exactly one slot
    /// per cell, and both dimensions fit an `i32` coordinate.
    pub open spec fn wf(self) -> bool {
        &&& self.blocks@.len() == self.width * self.height
        &&& self.width <= i32::MAX
        &&& self.height <= i32::MAX
    }

    /// Whether (x, y) is a cell of this grid.
    pub open spec fn in_bounds(self, x: int, y: int) -> bool {
        0 <= x < self.width && 0 <= y < self.height
    }

    /// The content of cell (x, y); empty everywhere outside the grid.
    pub open spec fn cell(self, x: int, y: int) -> Option<Block> {
        if self.in_bounds(x, y) {
            self.blocks@[y * self.width + x]
        } else {
            None
        }
    }

    /// True iff some occupied cell of `self` at absolute (ix, iy) lines up
    /// with an occupied cell of `other` at relative (ix - x, iy - y).
    pub open spec fn overlaps(self, x: int, y: int, other: Grid) -> bool {
        exists|ix: int, iy: int|
            self.cell(ix, iy) is Some && other.cell(ix - x, iy - y) is Some
    }

    /// True iff every occupied cell of `other`, offset by (x, y), lands on a
    /// cell of `self`.
    pub open spec fn encloses(self, x: int, y: int, other: Grid) -> bool {
        forall|ix: int, iy: int|
            other.cell(ix, iy) is Some ==> self.in_bounds(ix + x, iy + y)
    }

    /// A row of `width` empty cells.
    pub open spec fn empty_row(w: nat) -> Seq<Option<Block>> {
        Seq::new(w, |i: int| None)
    }

    /// The grid as a sequence of rows, each row a sequence of cells.
    pub open spec fn rows(self) -> Seq<Seq<Option<Block>>> {
        Seq::new(
            self.height as nat,
            |j: int| Seq::new(self.width as nat, |i: int| self.cell(i, j)),
        )
    }

    /// The row model after removing row y: rows 0..y shift down by one and
    /// row 0 empties; rows past y keep their places.
    pub open spec fn clear_line_rows(rs: Seq<Seq<Option<Block>>>, w: nat, y: int) -> Seq<
        Seq<Option<Block>>,
    > {
        Seq::new(
            rs.len(),
            |j: int|
                if j == 0 {
                    Grid::empty_row(w)
                } else if 1 <= j <= y {
                    rs[j - 1]
                } else {
                    rs[j]
                },
        )
    }

    /// A row is full iff every column of it is occupied.
    pub open spec fn row_full(self, y: int) -> bool {
        forall|x: int| 0 <= x < self.width ==> self.cell(x, y) is Some
    }

    /// Whether any row of the grid is full.
    pub open spec fn has_full_row(self) -> bool {
        exists|y: int| 0 <= y < self.height && self.row_full(y)
    }

    /// The cell (ix, iy) after merging `other` at offset (x, y) into `base`.
    pub open spec fn merged_cell(base: Grid, x: int, y: int, other: Grid, ix: int, iy: int) -> Option<
        Block,
    > {
        if base.in_bounds(ix, iy) && other.cell(ix - x, iy - y) is Some {
            other.cell(ix - x, iy - y)
        } else {
            base.cell(ix, iy)
        }
    }

    pub fn new(width: usize, height: usize) -> (g: Grid)
        requires
            width * height <= usize::MAX,
            width <= i32::MAX,
            height <= i32::MAX,
        ensures
            g.wf(),
            g.width == width,
            g.height == height,
            forall|x: int, y: int| g.cell(x, y) is None,
    {
        let n: usize = width * height;
        let mut blocks: Vec<Option<Block>> = Vec::new();
        while blocks.len() < n
            invariant
                blocks@.len() <= n,
                forall|i: int| 0 <= i < blocks@.len() ==> blocks@[i] is None,
            decreases n - blocks@.len(),
        {
            blocks.push(None);
        }
        let g = Grid { blocks, width, height };
        proof {
            assert forall|x: int, y: int| g.cell(x, y) is None by {
                if g.in_bounds(x, y) {
                    lemma_index_bound(width as int, height as int, x, y);
                }
            }
        }
        g
    }

    pub fn with_data(width: usize, height: usize, blocks: Vec<Option<Block>>) -> (g: Grid)
        requires
            width * height == blocks@.len(),
            width <= i32::MAX,
            height <= i32::MAX,
        ensures
            g.wf(),
            g.width == width,
            g.height == height,
            g.blocks@ == blocks@,
    {
        Grid { blocks, width, height }
    }

    pub fn width(&self) -> (r: usize)
        ensures
            r == self.width,
    {
        self.width
    }

    pub fn height(&self) -> (r: usize)
        ensures
            r == self.height,
    {
        self.height
    }

    pub fn contains_pos(&self, x: i32, y: i32) -> (r: bool)
        requires
            self.wf(),
        ensures
            r == self.in_bounds(x as int, y as int),
    {
        x >= 0 && y >= 0 && (x as i64) < (self.width as i64) && (y as i64) < (self.height as i64)
    }

    /// Bounds test on coordinates wider than the stored dimensions, so that
    /// callers may shift by arbitrary `i32` offsets without overflow.
    fn in_bounds_wide(&self, x: i64, y: i64) -> (r: bool)
        requires
            self.wf(),
        ensures
            r == self.in_bounds(x as int, y as int),
    {
        x >= 0 && y >= 0 && x < (self.width as i64) && y < (self.height as i64)
    }

    /// Read with the same out-of-bounds behaviour as `at`, on wide coordinates.
    fn at_wide(&self, x: i64, y: i64) -> (r: Option<Block>)
        requires
            self.wf(),
        ensures
            r == self.cell(x as int, y as int),
    {
        if self.in_bounds_wide(x, y) {
            proof {
                lemma_index_bound(self.width as int, self.height as int, x as int, y as int);
                assert(self.blocks.len() <= usize::MAX);
                assert((y as int) * (self.width as int) + (x as int) < self.blocks@.len());
                assert((y as int) * (self.width as int) <= (y as int) * (self.width as int) + (
                x as int));
            }
            self.blocks[(x as usize) + (y as usize) * self.width]
        } else {
            None
        }
    }

    /// Bounds-checked read: out-of-bounds positions read as empty.
    pub fn at(&self, x: i32, y: i32) -> (r: Option<Block>)
        requires
            self.wf(),
        ensures
            r == self.cell(x as int, y as int),
    {
        self.at_wide(x as i64, y as i64)
    }

    /// Bounds-checked write; writing outside the grid is a caller error and
    /// is excluded by the precondition.
    pub fn set(&mut self, x: i32, y: i32, value: Option<Block>)
        requires
            old(self).wf(),
            old(self).in_bounds(x as int, y as int),
        ensures
            final(self).wf(),
            final(self).width == old(self).width,
            final(self).height == old(self).height,
            final(self).cell(x as int, y as int) == value,
            forall|i: int, j: int|
                !(i == x as int && j == y as int) ==> final(self).cell(i, j) == old(self).cell(
                    i,
                    j,
                ),
    {
        proof {
            lemma_index_bound(self.width as int, self.height as int, x as int, y as int);
            assert(self.blocks.len() <= usize::MAX);
            assert((y as int) * (self.width as int) + (x as int) < self.blocks@.len());
            assert((y as int) * (self.width as int) <= (y as int) * (self.width as int) + (
            x as int));
        }
        let idx: usize = (x as usize) + (y as usize) * self.width;
        self.blocks.set(idx, value);
        proof {
            assert forall|i: int, j: int| !(i == x as int && j == y as int) implies self.cell(i, j)
                == old(self).cell(i, j) by {
                if self.in_bounds(i, j) {
                    lemma_index_bound(self.width as int, self.height as int, i, j);
                    lemma_index_injective(self.width as int, i, j, x as int, y as int);
                }
            }
        }
    }

    /// Removes row y: every row above it shifts down by one and row 0
    /// becomes empty; rows below y are untouched.
    pub fn clear_line(&mut self, y: i32)
        requires
            old(self).wf(),
            0 <= y < old(self).height,
        ensures
            final(self).wf(),
            final(self).width == old(self).width,
            final(self).height == old(self).height,
            forall|x: int| final(self).cell(x, 0) is None,
            forall|x: int, j: int|
                1 <= j <= y ==> final(self).cell(x, j) == old(self).cell(x, j - 1),
            forall|x: int, j: int| j > y ==> final(self).cell(x, j) == old(self).cell(x, j),
            final(self).rows() == Grid::clear_line_rows(
                old(self).rows(),
                old(self).width as nat,
                y as int,
            ),
    {
        let mut iy: i32 = y;
        while iy >= 1
            invariant
                self.wf(),
                self.width == old(self).width,
                self.height == old(self).height,
                0 <= iy <= y < self.height,
                forall|x: int, j: int|
                    iy < j <= y ==> self.cell(x, j) == old(self).cell(x, j - 1),
                forall|x: int, j: int| j <= iy ==> self.cell(x, j) == old(self).cell(x, j),
                forall|x: int, j: int| j > y ==> self.cell(x, j) == old(self).cell(x, j),
            decreases iy,
        {
            let mut x: i32 = 0;
            while (x as i64) < (self.width as i64)
                invariant
                    self.wf(),
                    self.width == old(self).width,
                    self.height == old(self).height,
                    1 <= iy <= y < self.height,
                    0 <= x <= self.width,
                    forall|xx: int, j: int|
                        iy < j <= y ==> self.cell(xx, j) == old(self).cell(xx, j - 1),
                    forall|xx: int, j: int|
                        j < iy ==> self.cell(xx, j) == old(self).cell(xx, j),
                    forall|xx: int, j: int| j > y ==> self.cell(xx, j) == old(self).cell(xx, j),
                    forall|xx: int|
                        0 <= xx < x ==> self.cell(xx, iy as int) == old(self).cell(
                            xx,
                            iy as int - 1,
                        ),
                    forall|xx: int|
                        !(0 <= xx < x) ==> self.cell(xx, iy as int) == old(self).cell(
                            xx,
                            iy as int,
                        ),
                decreases self.width - x,
            {
                let v = self.at(x, iy - 1);
                self.set(x, iy, v);
                x = x + 1;
            }
            iy = iy - 1;
        }
        let mut x: i32 = 0;
        while (x as i64) < (self.width as i64)
            invariant
                self.wf(),
                self.width == old(self).width,
                self.height == old(self).height,
                0 <= y < self.height,
                0 <= x <= self.width,
                forall|xx: int, j: int|
                    1 <= j <= y ==> self.cell(xx, j) == old(self).cell(xx, j - 1),
                forall|xx: int, j: int| j > y ==> self.cell(xx, j) == old(self).cell(xx, j),
                forall|xx: int| 0 <= xx < x ==> self.cell(xx, 0) is None,
                forall|xx: int| xx >= x ==> self.cell(xx, 0) == old(self).cell(xx, 0),
            decreases self.width - x,
        {
            self.set(x, 0, None);
            x = x + 1;
        }
        proof {
            let target = Grid::clear_line_rows(old(self).rows(), old(self).width as nat, y as int);
            assert forall|j: int| 0 <= j < self.rows().len() implies self.rows()[j] =~= target[j] by {
                assert forall|i: int| 0 <= i < self.width implies self.rows()[j][i] == target[j][i] by {
                    if j == 0 {
                        assert(self.cell(i, 0) is None);
                    } else if 1 <= j <= y {
                        assert(self.cell(i, j) == old(self).cell(i, j - 1));
                    } else {
                        assert(self.cell(i, j) == old(self).cell(i, j));
                    }
                }
            }
            assert(self.rows() =~= target);
        }
    }

    /// True iff every column of row y is occupied.
    pub fn is_row_full(&self, y: i32) -> (r: bool)
        requires
            self.wf(),
            0 <= y < self.height,
        ensures
            r == self.row_full(y as int),
    {
        let mut x: i32 = 0;
        while (x as i64) < (self.width as i64)
            invariant
                self.wf(),
                0 <= y < self.height,
                0 <= x <= self.width,
                forall|xx: int| 0 <= xx < x ==> self.cell(xx, y as int) is Some,
            decreases self.width - x,
        {
            if self.at(x, y).is_none() {
                return false;
            }
            x = x + 1;
        }
        true
    }

    /// True iff the occupied cells of `self` and of `other` offset by (x, y)
    /// share a position.
    pub fn intersects(&self, x: i32, y: i32, other: &Grid) -> (r: bool)
        requires
            self.wf(),
            other.wf(),
        ensures
            r == self.overlaps(x as int, y as int, *other),
    {
        let mut ix: i32 = 0;
        while (ix as i64) < (self.width as i64)
            invariant
                self.wf(),
                other.wf(),
                0 <= ix <= self.width,
                forall|a: int, b: int|
                    0 <= a < ix && 0 <= b < self.height ==> !(self.cell(a, b) is Some
                        && other.cell(a - x, b - y) is Some),
            decreases self.width - ix,
        {
            let mut iy: i32 = 0;
            while (iy as i64) < (self.height as i64)
                invariant
                    self.wf(),
                    other.wf(),
                    0 <= ix < self.width,
                    0 <= iy <= self.height,
                    forall|a: int, b: int|
                        0 <= a < ix && 0 <= b < self.height ==> !(self.cell(a, b) is Some
                            && other.cell(a - x, b - y) is Some),
                    forall|b: int|
                        0 <= b < iy ==> !(self.cell(ix as int, b) is Some && other.cell(
                            ix as int - x,
                            b - y,
                        ) is Some),
                decreases self.height - iy,
            {
                if self.at(ix, iy).is_some() && other.at_wide(
                    ix as i64 - x as i64,
                    iy as i64 - y as i64,
                ).is_some() {
                    return true;
                }
                iy = iy + 1;
            }
            ix = ix + 1;
        }
        proof {
            assert forall|a: int, b: int|
                !(self.cell(a, b) is Some && other.cell(a - x, b - y) is Some) by {
                if self.in_bounds(a, b) {
                } else {
                    assert(self.cell(a, b) is None);
                }
            }
        }
        false
    }

    /// True iff every occupied cell of `other`, placed at offset (x, y),
    /// lands within the bounds of `self`.
    pub fn contains(&self, x: i32, y: i32, other: &Grid) -> (r: bool)
        requires
            self.wf(),
            other.wf(),
        ensures
            r == self.encloses(x as int, y as int, *other),
    {
        let mut ix: i32 = 0;
        while (ix as i64) < (other.width as i64)
            invariant
                self.wf(),
                other.wf(),
                0 <= ix <= other.width,
                forall|a: int, b: int|
                    0 <= a < ix && 0 <= b < other.height && other.cell(a, b) is Some
                        ==> self.in_bounds(a + x, b + y),
            decreases other.width - ix,
        {
            let mut iy: i32 = 0;
            while (iy as i64) < (other.height as i64)
                invariant
                    self.wf(),
                    other.wf(),
                    0 <= ix < other.width,
                    0 <= iy <= other.height,
                    forall|a: int, b: int|
                        0 <= a < ix && 0 <= b < other.height && other.cell(a, b) is Some
                            ==> self.in_bounds(a + x, b + y),
                    forall|b: int|
                        0 <= b < iy && other.cell(ix as int, b) is Some ==> self.in_bounds(
                            ix as int + x,
                            b + y,
                        ),
                decreases other.height - iy,
            {
                if other.at(ix, iy).is_some() && !self.in_bounds_wide(
                    ix as i64 + x as i64,
                    iy as i64 + y as i64,
                ) {
                    return false;
                }
                iy = iy + 1;
            }
            ix = ix + 1;
        }
        proof {
            assert forall|a: int, b: int| other.cell(a, b) is Some implies self.in_bounds(
                a + x,
                b + y,
            ) by {
                if !other.in_bounds(a, b) {
                    assert(other.cell(a, b) is None);
                }
            }
        }
        true
    }

    /// Destructively merges the occupied cells of `other`, offset by (x, y),
    /// into `self`, consuming `other`.
    pub fn overlay(&mut self, x: i32, y: i32, other: Grid)
        requires
            old(self).wf(),
            other.wf(),
        ensures
            final(self).wf(),
            final(self).width == old(self).width,
            final(self).height == old(self).height,
            forall|ix: int, iy: int|
                final(self).cell(ix, iy) == Grid::merged_cell(
                    *old(self),
                    x as int,
                    y as int,
                    other,
                    ix,
                    iy,
                ),
    {
        let mut ix: i32 = 0;
        while (ix as i64) < (self.width as i64)
            invariant
                self.wf(),
                other.wf(),
                self.width == old(self).width,
                self.height == old(self).height,
                0 <= ix <= self.width,
                forall|a: int, b: int|
                    0 <= a < ix ==> self.cell(a, b) == Grid::merged_cell(
                        *old(self),
                        x as int,
                        y as int,
                        other,
                        a,
                        b,
                    ),
                forall|a: int, b: int| a >= ix || a < 0 ==> self.cell(a, b) == old(self).cell(a, b),
            decreases self.width - ix,
        {
            let mut iy: i32 = 0;
            while (iy as i64) < (self.height as i64)
                invariant
                    self.wf(),
                    other.wf(),
                    self.width == old(self).width,
                    self.height == old(self).height,
                    0 <= ix < self.width,
                    0 <= iy <= self.height,
                    forall|a: int, b: int|
                        0 <= a < ix ==> self.cell(a, b) == Grid::merged_cell(
                            *old(self),
                            x as int,
                            y as int,
                            other,
                            a,
                            b,
                        ),
                    forall|b: int|
                        0 <= b < iy ==> self.cell(ix as int, b) == Grid::merged_cell(
                            *old(self),
                            x as int,
                            y as int,
                            other,
                            ix as int,
                            b,
                        ),
                    forall|b: int|
                        b >= iy || b < 0 ==> self.cell(ix as int, b) == old(self).cell(ix as int, b),
                    forall|a: int, b: int|
                        a > ix || a < 0 ==> self.cell(a, b) == old(self).cell(a, b),
                decreases self.height - iy,
            {
                match other.at_wide(ix as i64 - x as i64, iy as i64 - y as i64) {
                    Some(block) => {
                        self.set(ix, iy, Some(block));
                    },
                    None => {},
                }
                iy = iy + 1;
            }
            ix = ix + 1;
        }
        proof {
            assert forall|a: int, b: int|
                self.cell(a, b) == Grid::merged_cell(
                    *old(self),
                    x as int,
                    y as int,
                    other,
                    a,
                    b,
                ) by {
                if !(0 <= a < self.width) {
                    assert(self.cell(a, b) is None);
                    assert(old(self).cell(a, b) is None);
                }
            }
        }
    }
}

/// Positions outside the grid always read as empty; only in-bounds
/// positions are contained.
pub proof fn lemma_out_of_bounds_empty(g: Grid, x: int, y: int)
    requires
        !g.in_bounds(x, y),
    ensures
        g.cell(x, y) is None,
{
}

/// Overlap testing is symmetric under negating the offset: `a` offset against
/// `b` by (x, y) overlaps exactly when `b` offset against `a` by (-x, -y) does.
pub proof fn lemma_overlaps_symmetric(a: Grid, b: Grid, x: int, y: int)
    ensures
        a.overlaps(x, y, b) == b.overlaps(-x, -y, a),
{
    if a.overlaps(x, y, b) {
        let (ix, iy): (int, int) = choose|ix: int, iy: int|
            a.cell(ix, iy) is Some && b.cell(ix - x, iy - y) is Some;
        assert(b.cell(ix - x, iy - y) is Some && a.cell((ix - x) - (-x), (iy - y) - (-y)) is Some);
    }
    if b.overlaps(-x, -y, a) {
        let (jx, jy): (int, int) = choose|jx: int, jy: int|
            b.cell(jx, jy) is Some && a.cell(jx - (-x), jy - (-y)) is Some;
        assert(a.cell(jx + x, jy + y) is Some && b.cell((jx + x) - x, (jy + y) - y) is Some);
    }
}

} // verus!
