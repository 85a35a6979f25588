//! What the player can see. The field of view itself is computed outside
//! this library; this is the grid it is computed on and read back from.

use crate::map::{in_bounds, TileMap, MAP_HEIGHT, MAP_WIDTH};
use vstd::prelude::*;

verus! {

/// One cell of the field-of-view grid.
#[derive(Clone, Copy, Debug, PartialEq, Eq, Structural)]
pub struct FovCell {
    pub transparent: bool,
    pub walkable: bool,
    pub in_fov: bool,
}

/// The field-of-view grid, indexed by column and then by row.
#[derive(Debug, PartialEq, Eq)]
pub struct FovMap {
    pub cells: Vec<Vec<FovCell>>,
}

impl View for FovMap {
    type V = Seq<Seq<FovCell>>;

    open spec fn view(&self) -> Seq<Seq<FovCell>> {
        self.cells@.map_values(|column: Vec<FovCell>| column@)
    }
}

/// Whether `cells` has the dimensions of the dungeon.
pub open spec fn fov_wf(cells: Seq<Seq<FovCell>>) -> bool {
    &&& cells.len() == MAP_WIDTH
    &&& forall|x: int| 0 <= x < MAP_WIDTH ==> (#[trigger] cells[x]).len() == MAP_HEIGHT
}

/// Whether `(x, y)` is a position of the grid that is in the field of view.
pub open spec fn visible_at(cells: Seq<Seq<FovCell>>, x: int, y: int) -> bool {
    in_bounds(x, y) && cells[x][y].in_fov
}

/// The cell that stands for a tile that blocks sight or not, blocks movement
/// or not, before any field of view is computed.
pub open spec fn plain_cell(block_sight: bool, blocked: bool) -> FovCell {
    FovCell { transparent: !block_sight, walkable: !blocked, in_fov: false }
}

impl FovMap {
    /// Whether the grid has the dimensions of the dungeon.
    pub open spec fn wf(&self) -> bool {
        fov_wf(self@)
    }

    /// A grid of the dungeon's dimensions: nothing transparent, nothing
    /// walkable, nothing in view.
    pub fn new() -> (fov: FovMap)
        ensures
            fov.wf(),
            forall|x: int, y: int|
                in_bounds(x, y) ==> #[trigger] fov@[x][y] == plain_cell(true, true),
    {
        let mut cells: Vec<Vec<FovCell>> = Vec::new();
        let mut x: i32 = 0;
        while x < MAP_WIDTH
            invariant
                0 <= x <= MAP_WIDTH,
                cells@.len() == x,
                forall|i: int|
                    0 <= i < x ==> (#[trigger] cells@[i])@ == Seq::new(
                        MAP_HEIGHT as nat,
                        |y: int| plain_cell(true, true),
                    ),
            decreases MAP_WIDTH - x,
        {
            let mut column: Vec<FovCell> = Vec::new();
            let mut y: i32 = 0;
            while y < MAP_HEIGHT
                invariant
                    0 <= y <= MAP_HEIGHT,
                    column@.len() == y,
                    forall|j: int| 0 <= j < y ==> #[trigger] column@[j] == plain_cell(true, true),
                decreases MAP_HEIGHT - y,
            {
                column.push(FovCell { transparent: false, walkable: false, in_fov: false });
                y += 1;
            }
            cells.push(column);
            x += 1;
        }
        FovMap { cells }
    }

    /// Whether the grid has the dimensions of the dungeon.
    pub fn is_well_formed(&self) -> (b: bool)
        ensures
            b == self.wf(),
    {
        if self.cells.len() != MAP_WIDTH as usize {
            return false;
        }
        let mut x: usize = 0;
        while x < self.cells.len()
            invariant
                x <= self.cells@.len() == MAP_WIDTH,
                forall|i: int| 0 <= i < x ==> (#[trigger] self@[i]).len() == MAP_HEIGHT,
            decreases self.cells@.len() - x,
        {
            assert(self.cells@[x as int]@ == self@[x as int]);
            if self.cells[x].len() != MAP_HEIGHT as usize {
                return false;
            }
            x += 1;
        }
        true
    }

    /// The cell at `(x, y)`.
    pub fn cell(&self, x: i32, y: i32) -> (c: FovCell)
        requires
            self.wf(),
            in_bounds(x as int, y as int),
        ensures
            c == self@[x as int][y as int],
    {
        assert(self.cells@[x as int]@ == self@[x as int]);
        self.cells[x as usize][y as usize]
    }

    /// Puts `cell` at `(x, y)`.
    pub fn set_cell(&mut self, x: i32, y: i32, cell: FovCell)
        requires
            old(self).wf(),
            in_bounds(x as int, y as int),
        ensures
            final(self).wf(),
            final(self)@ == old(self)@.update(
                x as int,
                old(self)@[x as int].update(y as int, cell),
            ),
    {
        assert(self.cells@[x as int]@ == self@[x as int]);
        self.cells[x as usize][y as usize] = cell;
        assert(self@ =~~= old(self)@.update(
            x as int,
            old(self)@[x as int].update(y as int, cell),
        ));
    }

    /// Records whether `(x, y)` is in the field of view.
    pub fn set_in_fov(&mut self, x: i32, y: i32, in_fov: bool)
        requires
            old(self).wf(),
            in_bounds(x as int, y as int),
        ensures
            final(self).wf(),
            final(self)@ == old(self)@.update(
                x as int,
                old(self)@[x as int].update(
                    y as int,
                    FovCell { in_fov, ..old(self)@[x as int][y as int] },
                ),
            ),
    {
        let c = self.cell(x, y);
        self.set_cell(x, y, FovCell { transparent: c.transparent, walkable: c.walkable, in_fov });
    }

    /// Whether `(x, y)` is in the field of view. Nothing off the grid is.
    pub fn is_in_fov(&self, x: i32, y: i32) -> (b: bool)
        requires
            self.wf(),
        ensures
            b == visible_at(self@, x as int, y as int),
    {
        if x < 0 || x >= MAP_WIDTH || y < 0 || y >= MAP_HEIGHT {
            false
        } else {
            self.cell(x, y).in_fov
        }
    }
}

/// Resets the field-of-view grid for `map`: a cell is transparent where the
/// tile does not block sight, walkable where it does not block movement, and
/// nothing is in view until the field of view is computed.
pub fn initialize_fov(fov: &mut FovMap, map: &TileMap)
    requires
        old(fov).wf(),
        map.wf(),
    ensures
        final(fov).wf(),
        forall|x: int, y: int|
            in_bounds(x, y) ==> #[trigger] final(fov)@[x][y] == plain_cell(
                map@[x][y].block_sight,
                map@[x][y].blocked,
            ),
{
    let mut y: i32 = 0;
    while y < MAP_HEIGHT
        invariant
            0 <= y <= MAP_HEIGHT,
            fov.wf(),
            map.wf(),
            forall|i: int, j: int|
                in_bounds(i, j) && j < y ==> #[trigger] fov@[i][j] == plain_cell(
                    map@[i][j].block_sight,
                    map@[i][j].blocked,
                ),
        decreases MAP_HEIGHT - y,
    {
        let mut x: i32 = 0;
        while x < MAP_WIDTH
            invariant
                0 <= y < MAP_HEIGHT,
                0 <= x <= MAP_WIDTH,
                fov.wf(),
                map.wf(),
                forall|i: int, j: int|
                    in_bounds(i, j) && (j < y || (j == y && i < x)) ==> #[trigger] fov@[i][j]
                        == plain_cell(map@[i][j].block_sight, map@[i][j].blocked),
            decreases MAP_WIDTH - x,
        {
            let tile = map.tile(x, y);
            fov.set_cell(
                x,
                y,
                FovCell { transparent: !tile.block_sight, walkable: !tile.blocked, in_fov: false },
            );
            x += 1;
        }
        y += 1;
    }
}

} // verus!
