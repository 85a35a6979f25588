//! What the screen is to show: which tiles have been seen, in which colour
//! a tile is drawn, which entities are drawn and in what order, and what
//! lies under the pointer.

use crate::color::Color;
use crate::fov::{visible_at, FovCell, FovMap};
use crate::map::{in_bounds, Tile, TileMap, MAP_HEIGHT, MAP_WIDTH};
use crate::object::{views, Object, ObjectView};
use vstd::prelude::*;

verus! {

/// The colour in which a tile is drawn: lit or dark, wall or ground.
pub open spec fn spec_tile_color(visible: bool, wall: bool) -> Color {
    if visible {
        if wall {
            Color::LightWall
        } else {
            Color::LightGround
        }
    } else {
        if wall {
            Color::DarkWall
        } else {
            Color::DarkGround
        }
    }
}

/// The colour in which a tile is drawn: lit if it is in view, dark if not;
/// as a wall if it blocks sight, as ground if not.
#[verifier::when_used_as_spec(spec_tile_color)]
pub fn tile_color(visible: bool, wall: bool) -> (color: Color)
    ensures
        color == spec_tile_color(visible, wall),
{
    match (visible, wall) {
        (false, true) => Color::DarkWall,
        (false, false) => Color::DarkGround,
        (true, true) => Color::LightWall,
        (true, false) => Color::LightGround,
    }
}

/// Marks every tile in view as explored; what was explored stays so.
pub fn mark_explored(map: &mut TileMap, fov: &FovMap)
    requires
        old(map).wf(),
        fov.wf(),
    ensures
        final(map).wf(),
        forall|x: int, y: int|
            in_bounds(x, y) ==> #[trigger] final(map)@[x][y] == (Tile {
                explored: old(map)@[x][y].explored || fov@[x][y].in_fov,
                ..old(map)@[x][y]
            }),
{
    let mut y: i32 = 0;
    while y < MAP_HEIGHT
        invariant
            0 <= y <= MAP_HEIGHT,
            map.wf(),
            fov.wf(),
            forall|i: int, j: int|
                in_bounds(i, j) ==> #[trigger] map@[i][j] == if j < y {
                    Tile {
                        explored: old(map)@[i][j].explored || fov@[i][j].in_fov,
                        ..old(map)@[i][j]
                    }
                } else {
                    old(map)@[i][j]
                },
        decreases MAP_HEIGHT - y,
    {
        let mut x: i32 = 0;
        while x < MAP_WIDTH
            invariant
                0 <= y < MAP_HEIGHT,
                0 <= x <= MAP_WIDTH,
                map.wf(),
                fov.wf(),
                forall|i: int, j: int|
                    in_bounds(i, j) ==> #[trigger] map@[i][j] == if j < y || (j == y && i < x) {
                        Tile {
                            explored: old(map)@[i][j].explored || fov@[i][j].in_fov,
                            ..old(map)@[i][j]
                        }
                    } else {
                        old(map)@[i][j]
                    },
            decreases MAP_WIDTH - x,
        {
            if fov.is_in_fov(x, y) {
                let tile = map.tile(x, y);
                map.set_tile(
                    x,
                    y,
                    Tile { blocked: tile.blocked, block_sight: tile.block_sight, explored: true },
                );
            }
            x += 1;
        }
        y += 1;
    }
}

/// Whether `o` is drawn: it is in view, or it stays visible and stands on a
/// tile that has been explored.
pub open spec fn shown(o: ObjectView, fov: Seq<Seq<FovCell>>, grid: Seq<Seq<Tile>>) -> bool {
    visible_at(fov, o.x as int, o.y as int) || (o.always_visible && in_bounds(
        o.x as int,
        o.y as int,
    ) && grid[o.x as int][o.y as int].explored)
}

/// The ranks of those of the first `n` entities that are drawn and that
/// block or do not, as `blocks` says, in list order.
pub open spec fn shown_among(
    objects: Seq<ObjectView>,
    fov: Seq<Seq<FovCell>>,
    grid: Seq<Seq<Tile>>,
    blocks: bool,
    n: int,
) -> Seq<usize>
    decreases n,
{
    if n <= 0 {
        Seq::empty()
    } else if shown(objects[n - 1], fov, grid) && objects[n - 1].blocks == blocks {
        shown_among(objects, fov, grid, blocks, n - 1).push((n - 1) as usize)
    } else {
        shown_among(objects, fov, grid, blocks, n - 1)
    }
}

/// The ranks of the entities that are drawn, in the order of drawing: first
/// those that do not block, so that what stands is drawn over what lies;
/// within each group, in list order.
pub open spec fn drawn(
    objects: Seq<ObjectView>,
    fov: Seq<Seq<FovCell>>,
    grid: Seq<Seq<Tile>>,
) -> Seq<usize> {
    shown_among(objects, fov, grid, false, objects.len() as int) + shown_among(
        objects,
        fov,
        grid,
        true,
        objects.len() as int,
    )
}

/// Whether `object` is drawn: see `shown`.
fn is_shown(object: &Object, fov: &FovMap, map: &TileMap) -> (b: bool)
    requires
        fov.wf(),
        map.wf(),
    ensures
        b == shown(object@, fov@, map@),
{
    if fov.is_in_fov(object.x, object.y) {
        true
    } else if object.always_visible && 0 <= object.x && object.x < MAP_WIDTH && 0 <= object.y
        && object.y < MAP_HEIGHT {
        map.tile(object.x, object.y).explored
    } else {
        false
    }
}

/// The ranks of the entities to draw, in the order of drawing.
pub fn draw_order(objects: &Vec<Object>, fov: &FovMap, map: &TileMap) -> (order: Vec<usize>)
    requires
        fov.wf(),
        map.wf(),
    ensures
        order@ == drawn(views(objects@), fov@, map@),
{
    let mut order: Vec<usize> = Vec::new();
    let mut i: usize = 0;
    while i < objects.len()
        invariant
            i <= objects.len(),
            fov.wf(),
            map.wf(),
            order@ == shown_among(views(objects@), fov@, map@, false, i as int),
        decreases objects.len() - i,
    {
        if !objects[i].blocks && is_shown(&objects[i], fov, map) {
            order.push(i);
        }
        i += 1;
    }
    let ghost lying = order@;
    let mut i: usize = 0;
    while i < objects.len()
        invariant
            i <= objects.len(),
            fov.wf(),
            map.wf(),
            order@ == lying + shown_among(views(objects@), fov@, map@, true, i as int),
        decreases objects.len() - i,
    {
        if objects[i].blocks && is_shown(&objects[i], fov, map) {
            order.push(i);
        }
        i += 1;
    }
    order
}

/// Whether `o` stands at `(x, y)` and is in view.
pub open spec fn pointed_at(o: ObjectView, fov: Seq<Seq<FovCell>>, x: int, y: int) -> bool {
    o.x == x && o.y == y && visible_at(fov, o.x as int, o.y as int)
}

/// The names of those of the first `n` entities that stand at `(x, y)` and
/// are in view, in list order, with a comma and a space between each two.
pub open spec fn names_among(
    objects: Seq<ObjectView>,
    fov: Seq<Seq<FovCell>>,
    x: int,
    y: int,
    n: int,
) -> Seq<char>
    decreases n,
{
    if n <= 0 {
        Seq::empty()
    } else if pointed_at(objects[n - 1], fov, x, y) {
        if any_among(objects, fov, x, y, n - 1) {
            names_among(objects, fov, x, y, n - 1) + ", "@ + objects[n - 1].name
        } else {
            objects[n - 1].name
        }
    } else {
        names_among(objects, fov, x, y, n - 1)
    }
}

/// Whether one of the first `n` entities stands at `(x, y)` and is in view.
pub open spec fn any_among(
    objects: Seq<ObjectView>,
    fov: Seq<Seq<FovCell>>,
    x: int,
    y: int,
    n: int,
) -> bool
    decreases n,
{
    if n <= 0 {
        false
    } else {
        pointed_at(objects[n - 1], fov, x, y) || any_among(objects, fov, x, y, n - 1)
    }
}

/// The names of the entities in view at `(x, y)`, where the pointer is, in
/// list order, with a comma and a space between each two.
pub fn get_names_under_mouse(x: i32, y: i32, objects: &Vec<Object>, fov: &FovMap) -> (names: String)
    requires
        fov.wf(),
    ensures
        names@ == names_among(views(objects@), fov@, x as int, y as int, objects@.len() as int),
{
    let mut names = String::new();
    let mut any = false;
    let mut i: usize = 0;
    while i < objects.len()
        invariant
            i <= objects.len(),
            fov.wf(),
            any == any_among(views(objects@), fov@, x as int, y as int, i as int),
            !any ==> names@ == Seq::<char>::empty(),
            any ==> names@ == names_among(views(objects@), fov@, x as int, y as int, i as int),
        decreases objects.len() - i,
    {
        let object = &objects[i];
        if object.x == x && object.y == y && fov.is_in_fov(object.x, object.y) {
            if any {
                names.append(", ");
                names.append(object.name.as_str());
            } else {
                names = object.name.clone();
            }
            any = true;
        }
        i += 1;
    }
    proof {
        if !any {
            lemma_no_names(views(objects@), fov@, x as int, y as int, objects@.len() as int);
        }
    }
    names
}

/// Where nothing is pointed at there are no names.
proof fn lemma_no_names(
    objects: Seq<ObjectView>,
    fov: Seq<Seq<FovCell>>,
    x: int,
    y: int,
    n: int,
)
    requires
        !any_among(objects, fov, x, y, n),
    ensures
        names_among(objects, fov, x, y, n) == Seq::<char>::empty(),
    decreases n,
{
    if n > 0 {
        lemma_no_names(objects, fov, x, y, n - 1);
    }
}

/// Whether the field of view has to be computed anew: only if the player no
/// longer stands at `previous`, where it was last computed from.
pub fn fov_recompute(previous: (i32, i32), objects: &Vec<Object>) -> (stale: bool)
    requires
        objects@.len() >= 1,
    ensures
        stale == (previous != (views(objects@)[0].x, views(objects@)[0].y)),
{
    previous.0 != objects[0].x || previous.1 != objects[0].y
}

} // verus!
