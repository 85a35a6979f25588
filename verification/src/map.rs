//! The tile grid, the rectangles that rooms are made of, and carving.

use vstd::prelude::*;

verus! {

/// Index of the player in the entity list.
pub const PLAYER: usize = 0;

/// Width of the dungeon grid, in tiles.
pub const MAP_WIDTH: i32 = 80;

/// Height of the dungeon grid, in tiles.
pub const MAP_HEIGHT: i32 = 43;

/// Whether walls at the edge of the field of view are lit.
pub const FOV_LIGHT_WALLS: bool = true;

/// Radius of the player's field of view.
pub const TORCH_RADIUS: i32 = 5;

/// Largest width or height of a room.
pub const ROOM_MAX_SIZE: i32 = 10;

/// Smallest width or height of a room.
pub const ROOM_MIN_SIZE: i32 = 6;

/// Number of rooms the generator tries to place.
pub const MAX_ROOMS: i32 = 30;

/// One cell of the dungeon grid.
#[derive(Clone, Copy, Debug, PartialEq, Eq, Structural)]
pub struct Tile {
    pub blocked: bool,
    pub block_sight: bool,
    pub explored: bool,
}

impl Tile {
    /// The floor tile, for use in contracts.
    pub open spec fn spec_empty() -> Tile {
        Tile { blocked: false, block_sight: false, explored: false }
    }

    /// The wall tile, for use in contracts.
    pub open spec fn spec_wall() -> Tile {
        Tile { blocked: true, block_sight: true, explored: false }
    }

    /// A floor tile: walkable, transparent, not yet seen.
    #[verifier::when_used_as_spec(spec_empty)]
    pub fn empty() -> (t: Tile)
        ensures
            t == Tile::spec_empty(),
    {
        Tile { blocked: false, block_sight: false, explored: false }
    }

    /// A wall tile: blocks movement and sight, not yet seen.
    #[verifier::when_used_as_spec(spec_wall)]
    pub fn wall() -> (t: Tile)
        ensures
            t == Tile::spec_wall(),
    {
        Tile { blocked: true, block_sight: true, explored: false }
    }
}

/// Half of `n`, rounded toward zero.
pub open spec fn half(n: int) -> int {
    if n >= 0 {
        n / 2
    } else {
        -((-n) / 2)
    }
}

/// An axis-aligned rectangle given by two opposite corners.
#[derive(Clone, Copy, Debug, PartialEq, Eq, Structural)]
pub struct Rect {
    pub x1: i32,
    pub y1: i32,
    pub x2: i32,
    pub y2: i32,
}

impl Rect {
    /// The middle of the rectangle, each coordinate rounded toward zero.
    pub open spec fn spec_center(self) -> (int, int) {
        (half(self.x1 + self.x2), half(self.y1 + self.y2))
    }

    /// Whether the two rectangles share a tile, borders included.
    pub open spec fn spec_intersects_with(&self, other: &Rect) -> bool {
        self.x1 <= other.x2 && self.x2 >= other.x1 && self.y1 <= other.y2 && self.y2 >= other.y1
    }

    /// Whether `(x, y)` lies strictly inside the rectangle's border.
    pub open spec fn interior(self, x: int, y: int) -> bool {
        self.x1 < x < self.x2 && self.y1 < y < self.y2
    }

    /// Whether every tile strictly inside the border lies on the grid.
    pub open spec fn interior_on_grid(self) -> bool {
        self.x1 + 1 < self.x2 && self.y1 + 1 < self.y2 ==> 0 <= self.x1 + 1 && self.x2
            <= MAP_WIDTH && 0 <= self.y1 + 1 && self.y2 <= MAP_HEIGHT
    }

    /// The rectangle with top-left corner `(x, y)`, width `w` and height `h`.
    pub fn new(x: i32, y: i32, w: i32, h: i32) -> (r: Rect)
        requires
            i32::MIN <= x + w <= i32::MAX,
            i32::MIN <= y + h <= i32::MAX,
        ensures
            r == (Rect { x1: x, y1: y, x2: (x + w) as i32, y2: (y + h) as i32 }),
    {
        Rect { x1: x, y1: y, x2: x + w, y2: y + h }
    }

    /// The middle of the rectangle.
    pub fn center(&self) -> (c: (i32, i32))
        ensures
            (c.0 as int, c.1 as int) == self.spec_center(),
    {
        let sum_x: i64 = self.x1 as i64 + self.x2 as i64;
        let sum_y: i64 = self.y1 as i64 + self.y2 as i64;
        ((sum_x / 2) as i32, (sum_y / 2) as i32)
    }

    /// Whether this rectangle and `other` share a tile, borders included.
    #[verifier::when_used_as_spec(spec_intersects_with)]
    pub fn intersects_with(&self, other: &Rect) -> (b: bool)
        ensures
            b == self.spec_intersects_with(other),
    {
        (self.x1 <= other.x2) && (self.x2 >= other.x1) && (self.y1 <= other.y2) && (self.y2
            >= other.y1)
    }
}

/// Whether `(x, y)` is a position on the grid.
pub open spec fn in_bounds(x: int, y: int) -> bool {
    0 <= x < MAP_WIDTH && 0 <= y < MAP_HEIGHT
}

/// Whether `grid` has the dimensions of the dungeon: `MAP_WIDTH` columns of
/// `MAP_HEIGHT` tiles.
pub open spec fn grid_wf(grid: Seq<Seq<Tile>>) -> bool {
    &&& grid.len() == MAP_WIDTH
    &&& forall|x: int| 0 <= x < MAP_WIDTH ==> (#[trigger] grid[x]).len() == MAP_HEIGHT
}

/// The grid in which every tile is a wall.
pub open spec fn wall_grid() -> Seq<Seq<Tile>> {
    Seq::new(MAP_WIDTH as nat, |x: int| Seq::new(MAP_HEIGHT as nat, |y: int| Tile::spec_wall()))
}

/// `grid` with a floor tile at every position of `region`, and unchanged
/// elsewhere.
pub open spec fn carve(grid: Seq<Seq<Tile>>, region: spec_fn(int, int) -> bool) -> Seq<
    Seq<Tile>,
> {
    Seq::new(
        grid.len(),
        |x: int|
            Seq::new(
                grid[x].len(),
                |y: int|
                    if region(x, y) {
                        Tile::spec_empty()
                    } else {
                        grid[x][y]
                    },
            ),
    )
}

/// The tiles strictly inside the border of `room`.
pub open spec fn room_region(room: Rect) -> spec_fn(int, int) -> bool {
    |x: int, y: int| room.interior(x, y)
}

/// The smaller of two integers.
pub open spec fn min_of(a: int, b: int) -> int {
    if a <= b {
        a
    } else {
        b
    }
}

/// The larger of two integers.
pub open spec fn max_of(a: int, b: int) -> int {
    if a >= b {
        a
    } else {
        b
    }
}

/// The tiles of row `y` between columns `x1` and `x2`, both included, in
/// either order.
pub open spec fn horiz_region(x1: int, x2: int, y: int) -> spec_fn(int, int) -> bool {
    |x: int, yy: int| yy == y && min_of(x1, x2) <= x <= max_of(x1, x2)
}

/// The tiles of column `x` between rows `y1` and `y2`, both included, in
/// either order.
pub open spec fn vert_region(y1: int, y2: int, x: int) -> spec_fn(int, int) -> bool {
    |xx: int, y: int| xx == x && min_of(y1, y2) <= y <= max_of(y1, y2)
}

/// The dungeon's grid of tiles, indexed by column and then by row.
#[derive(Clone, Debug, PartialEq, Eq)]
pub struct TileMap {
    pub tiles: Vec<Vec<Tile>>,
}

impl View for TileMap {
    type V = Seq<Seq<Tile>>;

    open spec fn view(&self) -> Seq<Seq<Tile>> {
        self.tiles@.map_values(|column: Vec<Tile>| column@)
    }
}

impl TileMap {
    /// Whether the map has the dimensions of the dungeon.
    pub open spec fn wf(&self) -> bool {
        grid_wf(self@)
    }

    /// A map of the dungeon's dimensions in which every tile is a wall.
    pub fn new() -> (map: TileMap)
        ensures
            map.wf(),
            map@ == wall_grid(),
    {
        let mut tiles: Vec<Vec<Tile>> = Vec::new();
        let mut x: i32 = 0;
        while x < MAP_WIDTH
            invariant
                0 <= x <= MAP_WIDTH,
                tiles@.len() == x,
                forall|i: int|
                    0 <= i < x ==> (#[trigger] tiles@[i])@ == Seq::new(
                        MAP_HEIGHT as nat,
                        |y: int| Tile::spec_wall(),
                    ),
            decreases MAP_WIDTH - x,
        {
            let mut column: Vec<Tile> = Vec::new();
            let mut y: i32 = 0;
            while y < MAP_HEIGHT
                invariant
                    0 <= y <= MAP_HEIGHT,
                    column@.len() == y,
                    forall|j: int| 0 <= j < y ==> #[trigger] column@[j] == Tile::spec_wall(),
                decreases MAP_HEIGHT - y,
            {
                column.push(Tile::wall());
                y += 1;
            }
            tiles.push(column);
            x += 1;
        }
        let map = TileMap { tiles };
        map
    }

    /// Whether the map has the dimensions of the dungeon.
    pub fn is_well_formed(&self) -> (b: bool)
        ensures
            b == self.wf(),
    {
        if self.tiles.len() != MAP_WIDTH as usize {
            return false;
        }
        let mut x: usize = 0;
        while x < self.tiles.len()
            invariant
                x <= self.tiles@.len() == MAP_WIDTH,
                forall|i: int| 0 <= i < x ==> (#[trigger] self@[i]).len() == MAP_HEIGHT,
            decreases self.tiles@.len() - x,
        {
            assert(self.tiles@[x as int]@ == self@[x as int]);
            if self.tiles[x].len() != MAP_HEIGHT as usize {
                return false;
            }
            x += 1;
        }
        true
    }

    /// The tile at `(x, y)`.
    pub fn tile(&self, x: i32, y: i32) -> (t: Tile)
        requires
            self.wf(),
            in_bounds(x as int, y as int),
        ensures
            t == self@[x as int][y as int],
    {
        assert(self.tiles@[x as int]@ == self@[x as int]);
        self.tiles[x as usize][y as usize]
    }

    /// Puts `tile` at `(x, y)`.
    pub fn set_tile(&mut self, x: i32, y: i32, tile: Tile)
        requires
            old(self).wf(),
            in_bounds(x as int, y as int),
        ensures
            final(self).wf(),
            final(self)@ == old(self)@.update(
                x as int,
                old(self)@[x as int].update(y as int, tile),
            ),
    {
        assert(self.tiles@[x as int]@ == self@[x as int]);
        self.tiles[x as usize][y as usize] = tile;
        assert(self@ =~~= old(self)@.update(
            x as int,
            old(self)@[x as int].update(y as int, tile),
        ));
    }
}

/// Turns every tile strictly inside the border of `room` into floor.
pub fn create_room(room: Rect, map: &mut TileMap)
    requires
        old(map).wf(),
        room.interior_on_grid(),
    ensures
        final(map).wf(),
        final(map)@ == carve(old(map)@, room_region(room)),
{
    let x_start: i64 = room.x1 as i64 + 1;
    let y_start: i64 = room.y1 as i64 + 1;
    let x_end: i64 = room.x2 as i64;
    let y_end: i64 = room.y2 as i64;
    if x_start < x_end && y_start < y_end {
        let mut x: i64 = x_start;
        while x < x_end
            invariant
                0 <= x_start <= x <= x_end <= MAP_WIDTH,
                0 <= y_start < y_end <= MAP_HEIGHT,
                x_start == room.x1 + 1,
                y_start == room.y1 + 1,
                x_end == room.x2,
                y_end == room.y2,
                map.wf(),
                forall|i: int, j: int|
                    in_bounds(i, j) ==> #[trigger] map@[i][j] == if room.interior(i, j) && i < x {
                        Tile::spec_empty()
                    } else {
                        old(map)@[i][j]
                    },
            decreases x_end - x,
        {
            let mut y: i64 = y_start;
            while y < y_end
                invariant
                    0 <= x_start <= x < x_end <= MAP_WIDTH,
                    0 <= y_start <= y <= y_end <= MAP_HEIGHT,
                    x_start == room.x1 + 1,
                    y_start == room.y1 + 1,
                    x_end == room.x2,
                    y_end == room.y2,
                    map.wf(),
                    forall|i: int, j: int|
                        in_bounds(i, j) ==> #[trigger] map@[i][j] == if room.interior(i, j) && (i
                            < x || (i == x && j < y)) {
                            Tile::spec_empty()
                        } else {
                            old(map)@[i][j]
                        },
                decreases y_end - y,
            {
                map.set_tile(x as i32, y as i32, Tile::empty());
                y += 1;
            }
            x += 1;
        }
    }
    assert(map@ =~~= carve(old(map)@, room_region(room)));
}

/// The axis along which a tunnel runs.
#[derive(Clone, Copy, Debug, PartialEq, Eq, Structural)]
pub enum TunnelDirection {
    Horizontal,
    Vertical,
}

/// The tiles of a straight tunnel: from `a1` to `a2`, both included, along
/// the axis `dir`, at position `b` on the other axis.
pub open spec fn tunnel_region(a1: int, a2: int, b: int, dir: TunnelDirection) -> spec_fn(
    int,
    int,
) -> bool {
    match dir {
        TunnelDirection::Horizontal => horiz_region(a1, a2, b),
        TunnelDirection::Vertical => vert_region(a1, a2, b),
    }
}

/// Whether a straight tunnel stays on the grid.
pub open spec fn tunnel_on_grid(a1: int, a2: int, b: int, dir: TunnelDirection) -> bool {
    match dir {
        TunnelDirection::Horizontal => 0 <= a1 < MAP_WIDTH && 0 <= a2 < MAP_WIDTH && 0 <= b
            < MAP_HEIGHT,
        TunnelDirection::Vertical => 0 <= a1 < MAP_HEIGHT && 0 <= a2 < MAP_HEIGHT && 0 <= b
            < MAP_WIDTH,
    }
}

/// Turns into floor every tile from `a1` to `a2`, both included, along the
/// axis `dir`, at position `b` on the other axis.
pub fn create_tunnel(a1: i32, a2: i32, b: usize, dir: TunnelDirection, map: &mut TileMap)
    requires
        old(map).wf(),
        tunnel_on_grid(a1 as int, a2 as int, b as int, dir),
    ensures
        final(map).wf(),
        final(map)@ == carve(old(map)@, tunnel_region(a1 as int, a2 as int, b as int, dir)),
{
    let low: i32 = if a1 <= a2 {
        a1
    } else {
        a2
    };
    let high: i32 = if a1 >= a2 {
        a1 + 1
    } else {
        a2 + 1
    };
    let mut a: i32 = low;
    while a < high
        invariant
            low == min_of(a1 as int, a2 as int),
            high == max_of(a1 as int, a2 as int) + 1,
            low <= a <= high,
            tunnel_on_grid(a1 as int, a2 as int, b as int, dir),
            map.wf(),
            forall|i: int, j: int|
                in_bounds(i, j) ==> #[trigger] map@[i][j] == if tunnel_region(
                    a1 as int,
                    a2 as int,
                    b as int,
                    dir,
                )(i, j) && (match dir {
                    TunnelDirection::Horizontal => i < a,
                    TunnelDirection::Vertical => j < a,
                }) {
                    Tile::spec_empty()
                } else {
                    old(map)@[i][j]
                },
        decreases high - a,
    {
        match dir {
            TunnelDirection::Horizontal => map.set_tile(a, b as i32, Tile::empty()),
            TunnelDirection::Vertical => map.set_tile(b as i32, a, Tile::empty()),
        }
        a += 1;
    }
    assert(map@ =~~= carve(old(map)@, tunnel_region(a1 as int, a2 as int, b as int, dir)));
}

/// Carves a tunnel along row `y` from column `x1` to column `x2`.
pub fn create_horiz_tunnel(x1: i32, x2: i32, y: i32, map: &mut TileMap)
    requires
        old(map).wf(),
        0 <= x1 < MAP_WIDTH,
        0 <= x2 < MAP_WIDTH,
        0 <= y < MAP_HEIGHT,
    ensures
        final(map).wf(),
        final(map)@ == carve(old(map)@, horiz_region(x1 as int, x2 as int, y as int)),
{
    create_tunnel(x1, x2, y as usize, TunnelDirection::Horizontal, map);
}

/// Carves a tunnel along column `x` from row `y1` to row `y2`.
pub fn create_vert_tunnel(y1: i32, y2: i32, x: i32, map: &mut TileMap)
    requires
        old(map).wf(),
        0 <= y1 < MAP_HEIGHT,
        0 <= y2 < MAP_HEIGHT,
        0 <= x < MAP_WIDTH,
    ensures
        final(map).wf(),
        final(map)@ == carve(old(map)@, vert_region(y1 as int, y2 as int, x as int)),
{
    create_tunnel(y1, y2, x as usize, TunnelDirection::Vertical, map);
}

} // verus!
