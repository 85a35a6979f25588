//! The layout of a level: rooms that do not touch, joined by corridors, and
//! why every room can be reached from the first.

use crate::map::{
    carve, create_horiz_tunnel, create_vert_tunnel, grid_wf, horiz_region, in_bounds, max_of,
    min_of, vert_region, Rect, Tile, TileMap, MAP_HEIGHT, MAP_WIDTH, MAX_ROOMS, ROOM_MAX_SIZE,
    ROOM_MIN_SIZE,
};
use vstd::prelude::*;

verus! {

/// Whether `p` is a position of the grid that can be walked on.
pub open spec fn walkable(grid: Seq<Seq<Tile>>, p: (int, int)) -> bool {
    in_bounds(p.0, p.1) && !grid[p.0][p.1].blocked
}

/// Whether `p` and `q` are neighbours along a row or a column.
pub open spec fn adjacent(p: (int, int), q: (int, int)) -> bool {
    ||| p.0 == q.0 && (p.1 == q.1 + 1 || q.1 == p.1 + 1)
    ||| p.1 == q.1 && (p.0 == q.0 + 1 || q.0 == p.0 + 1)
}

/// Whether `path` is a walk over walkable tiles, each a neighbour of the one
/// before.
pub open spec fn is_path(grid: Seq<Seq<Tile>>, path: Seq<(int, int)>) -> bool {
    &&& path.len() > 0
    &&& forall|i: int| 0 <= i < path.len() ==> walkable(grid, #[trigger] path[i])
    &&& forall|i: int| 0 <= i < path.len() - 1 ==> adjacent(#[trigger] path[i], path[i + 1])
}

/// Whether `b` can be reached from `a` over walkable tiles only.
pub open spec fn connected(grid: Seq<Seq<Tile>>, a: (int, int), b: (int, int)) -> bool {
    exists|path: Seq<(int, int)>| #[trigger]
        is_path(grid, path) && path[0] == a && path.last() == b
}

/// The tiles of the corridor from `a` to `b`: along the row of `a` and then
/// the column of `b` if `horizontal_first`, else along the column of `a` and
/// then the row of `b`.
pub open spec fn corridor(
    a: (int, int),
    b: (int, int),
    horizontal_first: bool,
    x: int,
    y: int,
) -> bool {
    if horizontal_first {
        horiz_region(a.0, b.0, a.1)(x, y) || vert_region(a.1, b.1, b.0)(x, y)
    } else {
        vert_region(a.1, b.1, a.0)(x, y) || horiz_region(a.0, b.0, b.1)(x, y)
    }
}

/// The tiles of the corridor from `a` to `b`, as a region to carve.
pub open spec fn corridor_region(a: (int, int), b: (int, int), horizontal_first: bool) -> spec_fn(
    int,
    int,
) -> bool {
    |x: int, y: int| corridor(a, b, horizontal_first, x, y)
}

/// Whether `(x, y)` lies inside one of `rooms` or on the corridor that joins
/// a room to the one before it; `bends[i]` says whether the corridor into
/// room `i` runs horizontally first.
pub open spec fn open_tile(rooms: Seq<Rect>, bends: Seq<bool>, x: int, y: int) -> bool
    decreases rooms.len(),
{
    if rooms.len() == 0 {
        false
    } else {
        let earlier = rooms.drop_last();
        ||| open_tile(earlier, bends.drop_last(), x, y)
        ||| rooms.last().interior(x, y)
        ||| (earlier.len() > 0 && corridor(
            earlier.last().spec_center(),
            rooms.last().spec_center(),
            bends.last(),
            x,
            y,
        ))
    }
}

/// Whether the tiles of `grid` are those of a level with `rooms` and
/// corridors bent as `bends` says: floor inside rooms and on corridors, wall
/// everywhere else.
pub open spec fn dungeon_tiles(grid: Seq<Seq<Tile>>, rooms: Seq<Rect>, bends: Seq<bool>) -> bool {
    &&& grid_wf(grid)
    &&& bends.len() == rooms.len()
    &&& forall|x: int, y: int|
        in_bounds(x, y) ==> #[trigger] grid[x][y] == if open_tile(rooms, bends, x, y) {
            Tile::spec_empty()
        } else {
            Tile::spec_wall()
        }
}

/// Whether `room` has a size that the generator draws and lies on the grid,
/// its far border inside the last row and column.
pub open spec fn room_fits(room: Rect) -> bool {
    &&& 0 <= room.x1
    &&& 0 <= room.y1
    &&& ROOM_MIN_SIZE <= room.x2 - room.x1 <= ROOM_MAX_SIZE
    &&& ROOM_MIN_SIZE <= room.y2 - room.y1 <= ROOM_MAX_SIZE
    &&& room.x2 < MAP_WIDTH
    &&& room.y2 < MAP_HEIGHT
}

/// Whether no two of `rooms` share a tile, borders included.
pub open spec fn rooms_apart(rooms: Seq<Rect>) -> bool {
    forall|i: int, j: int|
        0 <= i < j < rooms.len() ==> !(#[trigger] rooms[i].spec_intersects_with(&rooms[j]))
}

/// Whether the centre of every room can be reached from the centre of the
/// first over walkable tiles.
pub open spec fn rooms_reachable(grid: Seq<Seq<Tile>>, rooms: Seq<Rect>) -> bool {
    forall|i: int|
        0 <= i < rooms.len() ==> connected(
            grid,
            rooms[0].spec_center(),
            (#[trigger] rooms[i]).spec_center(),
        )
}

/// Whether `grid` is a level laid out with `rooms`: at least one room and no
/// more than the generator tries, each of them fitting, no two touching, the
/// tiles carved for exactly these rooms and one corridor between each room
/// and the next, and every room within reach of the first.
pub open spec fn layout(grid: Seq<Seq<Tile>>, rooms: Seq<Rect>) -> bool {
    &&& 1 <= rooms.len() <= MAX_ROOMS
    &&& forall|i: int| 0 <= i < rooms.len() ==> room_fits(#[trigger] rooms[i])
    &&& rooms_apart(rooms)
    &&& exists|bends: Seq<bool>| #[trigger] dungeon_tiles(grid, rooms, bends)
    &&& rooms_reachable(grid, rooms)
}

/// A walkable tile can be reached from itself.
pub proof fn lemma_connected_refl(grid: Seq<Seq<Tile>>, p: (int, int))
    requires
        walkable(grid, p),
    ensures
        connected(grid, p, p),
{
    let path = seq![p];
    assert(is_path(grid, path));
}

/// A walkable tile can be reached from a walkable neighbour.
pub proof fn lemma_connected_step(grid: Seq<Seq<Tile>>, p: (int, int), q: (int, int))
    requires
        walkable(grid, p),
        walkable(grid, q),
        adjacent(p, q),
    ensures
        connected(grid, p, q),
{
    let path = seq![p, q];
    assert(is_path(grid, path));
}

/// What can be reached from a tile within reach is within reach.
pub proof fn lemma_connected_trans(
    grid: Seq<Seq<Tile>>,
    a: (int, int),
    b: (int, int),
    c: (int, int),
)
    requires
        connected(grid, a, b),
        connected(grid, b, c),
    ensures
        connected(grid, a, c),
{
    let first = choose|path: Seq<(int, int)>| #[trigger]
        is_path(grid, path) && path[0] == a && path.last() == b;
    let second = choose|path: Seq<(int, int)>| #[trigger]
        is_path(grid, path) && path[0] == b && path.last() == c;
    let rest = second.subrange(1, second.len() as int);
    let path = first + rest;
    assert(is_path(grid, path));
}

/// Opening more tiles keeps within reach what was within reach.
pub proof fn lemma_connected_mono(
    before: Seq<Seq<Tile>>,
    after: Seq<Seq<Tile>>,
    a: (int, int),
    b: (int, int),
)
    requires
        connected(before, a, b),
        forall|x: int, y: int| walkable(before, (x, y)) ==> walkable(after, (x, y)),
    ensures
        connected(after, a, b),
{
    let path = choose|path: Seq<(int, int)>| #[trigger]
        is_path(before, path) && path[0] == a && path.last() == b;
    assert(is_path(after, path));
}

/// The ends of a walkable stretch of a row are within reach of each other.
pub proof fn lemma_horiz_connected(grid: Seq<Seq<Tile>>, x1: int, x2: int, y: int)
    requires
        forall|x: int| min_of(x1, x2) <= x <= max_of(x1, x2) ==> walkable(grid, (x, y)),
    ensures
        connected(grid, (x1, y), (x2, y)),
    decreases max_of(x1, x2) - min_of(x1, x2),
{
    if x1 == x2 {
        lemma_connected_refl(grid, (x1, y));
    } else {
        let next = if x1 < x2 {
            x1 + 1
        } else {
            x1 - 1
        };
        lemma_connected_step(grid, (x1, y), (next, y));
        lemma_horiz_connected(grid, next, x2, y);
        lemma_connected_trans(grid, (x1, y), (next, y), (x2, y));
    }
}

/// The ends of a walkable stretch of a column are within reach of each
/// other.
pub proof fn lemma_vert_connected(grid: Seq<Seq<Tile>>, y1: int, y2: int, x: int)
    requires
        forall|y: int| min_of(y1, y2) <= y <= max_of(y1, y2) ==> walkable(grid, (x, y)),
    ensures
        connected(grid, (x, y1), (x, y2)),
    decreases max_of(y1, y2) - min_of(y1, y2),
{
    if y1 == y2 {
        lemma_connected_refl(grid, (x, y1));
    } else {
        let next = if y1 < y2 {
            y1 + 1
        } else {
            y1 - 1
        };
        lemma_connected_step(grid, (x, y1), (x, next));
        lemma_vert_connected(grid, next, y2, x);
        lemma_connected_trans(grid, (x, y1), (x, next), (x, y2));
    }
}

/// The two ends of a corridor whose tiles are all walkable are within reach
/// of each other.
pub proof fn lemma_corridor_connected(
    grid: Seq<Seq<Tile>>,
    a: (int, int),
    b: (int, int),
    horizontal_first: bool,
)
    requires
        forall|x: int, y: int|
            corridor(a, b, horizontal_first, x, y) ==> walkable(grid, (x, y)),
    ensures
        connected(grid, a, b),
{
    if horizontal_first {
        assert forall|x: int| min_of(a.0, b.0) <= x <= max_of(a.0, b.0) implies walkable(
            grid,
            (x, a.1),
        ) by {
            assert(corridor(a, b, horizontal_first, x, a.1));
        }
        lemma_horiz_connected(grid, a.0, b.0, a.1);
        assert forall|y: int| min_of(a.1, b.1) <= y <= max_of(a.1, b.1) implies walkable(
            grid,
            (b.0, y),
        ) by {
            assert(corridor(a, b, horizontal_first, b.0, y));
        }
        lemma_vert_connected(grid, a.1, b.1, b.0);
        lemma_connected_trans(grid, (a.0, a.1), (b.0, a.1), (b.0, b.1));
    } else {
        assert forall|y: int| min_of(a.1, b.1) <= y <= max_of(a.1, b.1) implies walkable(
            grid,
            (a.0, y),
        ) by {
            assert(corridor(a, b, horizontal_first, a.0, y));
        }
        lemma_vert_connected(grid, a.1, b.1, a.0);
        assert forall|x: int| min_of(a.0, b.0) <= x <= max_of(a.0, b.0) implies walkable(
            grid,
            (x, b.1),
        ) by {
            assert(corridor(a, b, horizontal_first, x, b.1));
        }
        lemma_horiz_connected(grid, a.0, b.0, b.1);
        lemma_connected_trans(grid, (a.0, a.1), (a.0, b.1), (b.0, b.1));
    }
}

/// Every tile strictly inside a room can be reached from the room's centre,
/// once the room is carved.
pub proof fn lemma_room_connected(grid: Seq<Seq<Tile>>, room: Rect, x: int, y: int)
    requires
        room_fits(room),
        room.interior(x, y),
        forall|i: int, j: int| room.interior(i, j) ==> walkable(grid, (i, j)),
    ensures
        connected(grid, room.spec_center(), (x, y)),
{
    let c = room.spec_center();
    assert forall|i: int| min_of(c.0, x) <= i <= max_of(c.0, x) implies walkable(grid, (i, c.1)) by {
        assert(room.interior(i, c.1));
    }
    lemma_horiz_connected(grid, c.0, x, c.1);
    assert forall|j: int| min_of(c.1, y) <= j <= max_of(c.1, y) implies walkable(grid, (x, j)) by {
        assert(room.interior(x, j));
    }
    lemma_vert_connected(grid, c.1, y, x);
    lemma_connected_trans(grid, (c.0, c.1), (x, c.1), (x, y));
}

/// Whether `room` shares a tile with one of `rooms`, borders included.
pub open spec fn touches_any(room: Rect, rooms: Seq<Rect>) -> bool {
    exists|i: int| 0 <= i < rooms.len() && #[trigger] room.spec_intersects_with(&rooms[i])
}

/// Whether `room` shares a tile with one of `rooms`, borders included.
pub fn intersects_any(room: &Rect, rooms: &Vec<Rect>) -> (b: bool)
    ensures
        b == touches_any(*room, rooms@),
{
    let mut i: usize = 0;
    while i < rooms.len()
        invariant
            i <= rooms.len(),
            forall|k: int| 0 <= k < i ==> !(#[trigger] room.spec_intersects_with(&rooms@[k])),
        decreases rooms.len() - i,
    {
        if room.intersects_with(&rooms[i]) {
            return true;
        }
        i += 1;
    }
    false
}

/// Carves the corridor from `a` to `b`: along the row of `a` and then the
/// column of `b` if `horizontal_first`, else along the column of `a` and then
/// the row of `b`.
pub fn connect(a: (i32, i32), b: (i32, i32), horizontal_first: bool, map: &mut TileMap)
    requires
        old(map).wf(),
        in_bounds(a.0 as int, a.1 as int),
        in_bounds(b.0 as int, b.1 as int),
    ensures
        final(map).wf(),
        final(map)@ == carve(
            old(map)@,
            corridor_region((a.0 as int, a.1 as int), (b.0 as int, b.1 as int), horizontal_first),
        ),
{
    if horizontal_first {
        create_horiz_tunnel(a.0, b.0, a.1, map);
        create_vert_tunnel(a.1, b.1, b.0, map);
    } else {
        create_vert_tunnel(a.1, b.1, a.0, map);
        create_horiz_tunnel(a.0, b.0, b.1, map);
    }
    assert(map@ =~~= carve(
        old(map)@,
        corridor_region((a.0 as int, a.1 as int), (b.0 as int, b.1 as int), horizontal_first),
    ));
}

/// A tile strictly inside one of the rooms is open.
pub proof fn lemma_room_tiles_open(rooms: Seq<Rect>, bends: Seq<bool>, i: int, x: int, y: int)
    requires
        0 <= i < rooms.len(),
        rooms[i].interior(x, y),
    ensures
        open_tile(rooms, bends, x, y),
    decreases rooms.len(),
{
    if i < rooms.len() - 1 {
        lemma_room_tiles_open(rooms.drop_last(), bends.drop_last(), i, x, y);
    }
}

/// In a level that is laid out, no two rooms share a tile, and every tile
/// strictly inside a room can be reached, over walkable tiles only, from the
/// centre of the first room, where the player starts.
pub proof fn lemma_rooms_within_reach(
    grid: Seq<Seq<Tile>>,
    rooms: Seq<Rect>,
    i: int,
    j: int,
    x: int,
    y: int,
)
    requires
        layout(grid, rooms),
        0 <= i < rooms.len(),
        0 <= j < rooms.len(),
        rooms[i].interior(x, y),
    ensures
        connected(grid, rooms[0].spec_center(), (x, y)),
        i != j ==> !rooms[i].spec_intersects_with(&rooms[j]),
        i != j ==> !rooms[j].interior(x, y),
{
    let bends = choose|bends: Seq<bool>| #[trigger] dungeon_tiles(grid, rooms, bends);
    let room = rooms[i];
    assert forall|a: int, b: int| room.interior(a, b) implies walkable(grid, (a, b)) by {
        lemma_room_tiles_open(rooms, bends, i, a, b);
    }
    lemma_room_connected(grid, room, x, y);
    lemma_connected_trans(grid, rooms[0].spec_center(), room.spec_center(), (x, y));
    if j < i {
        assert(!rooms[j].spec_intersects_with(&rooms[i]));
    }
}

} // verus!
