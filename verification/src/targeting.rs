//! Choosing what an item is aimed at: the nearest monster in view, the
//! monster on a tile, and the steps of picking a tile with the pointer.

use crate::fov::{visible_at, FovCell, FovMap};
use crate::map::PLAYER;
use crate::object::{distance_sq, views, Object, ObjectView};
use vstd::prelude::*;

verus! {

/// Whether entity `i` of `objects` is a monster that an aimed effect can
/// seek out: not the player, able to fight and to act, and in view.
pub open spec fn in_sight(objects: Seq<ObjectView>, fov: Seq<Seq<FovCell>>, i: int) -> bool {
    &&& 0 < i < objects.len()
    &&& objects[i].fighter is Some
    &&& objects[i].ai is Some
    &&& visible_at(fov, objects[i].x as int, objects[i].y as int)
}

/// The square of the distance from the player to entity `i`.
pub open spec fn gap_sq(objects: Seq<ObjectView>, i: int) -> int {
    distance_sq(
        objects[0].x as int,
        objects[0].y as int,
        objects[i].x as int,
        objects[i].y as int,
    )
}

/// Whether entity `i` is a monster in sight and no farther than `max_range`
/// from the player.
pub open spec fn in_reach(
    objects: Seq<ObjectView>,
    fov: Seq<Seq<FovCell>>,
    max_range: int,
    i: int,
) -> bool {
    in_sight(objects, fov, i) && max_range >= 0 && gap_sq(objects, i) <= max_range * max_range
}

/// The monster in reach that is nearest to the player among the first `n`
/// entities; of several equally near, the first.
pub open spec fn closest_among(
    objects: Seq<ObjectView>,
    fov: Seq<Seq<FovCell>>,
    max_range: int,
    n: int,
) -> Option<int>
    decreases n,
{
    if n <= 0 {
        None
    } else {
        let earlier = closest_among(objects, fov, max_range, n - 1);
        if in_reach(objects, fov, max_range, n - 1) && (earlier matches Some(best) ==> gap_sq(
            objects,
            n - 1,
        ) < gap_sq(objects, best)) {
            Some(n - 1)
        } else {
            earlier
        }
    }
}

/// The monster in reach that is nearest to the player; of several equally
/// near, the first.
pub open spec fn closest(objects: Seq<ObjectView>, fov: Seq<Seq<FovCell>>, max_range: int) -> Option<
    int,
> {
    closest_among(objects, fov, max_range, objects.len() as int)
}

/// `closest_among` finds a monster exactly when one is in reach, and then
/// none in reach is nearer, nor equally near and earlier.
pub proof fn lemma_closest_among(
    objects: Seq<ObjectView>,
    fov: Seq<Seq<FovCell>>,
    max_range: int,
    n: int,
)
    requires
        0 <= n <= objects.len(),
    ensures
        match closest_among(objects, fov, max_range, n) {
            Some(best) => {
                &&& 0 <= best < n
                &&& in_reach(objects, fov, max_range, best)
                &&& forall|j: int|
                    0 <= j < n && in_reach(objects, fov, max_range, j) ==> gap_sq(objects, best)
                        < #[trigger] gap_sq(objects, j) || (gap_sq(objects, best) == gap_sq(
                        objects,
                        j,
                    ) && best <= j)
            },
            None => forall|j: int| 0 <= j < n ==> !#[trigger] in_reach(objects, fov, max_range, j),
        },
    decreases n,
{
    if n > 0 {
        lemma_closest_among(objects, fov, max_range, n - 1);
    }
}

/// The nearest monster in view that is no farther than `max_range` from the
/// player; of several equally near, the first in the list.
pub fn closest_monster(fov: &FovMap, objects: &Vec<Object>, max_range: i32) -> (found: Option<usize>)
    requires
        fov.wf(),
    ensures
        match found {
            Some(id) => 0 < id < objects@.len() && closest(
                views(objects@),
                fov@,
                max_range as int,
            ) == Some(id as int),
            None => closest(views(objects@), fov@, max_range as int) is None,
        },
{
    let range: i128 = max_range as i128;
    assert(0 <= range * range <= 0x1_0000_0000 * 0x1_0000_0000) by (nonlinear_arith)
        requires
            -0x1_0000_0000 <= range <= 0x1_0000_0000,
    ;
    let range_sq: i128 = range * range;
    let mut closest_enemy: Option<usize> = None;
    let mut closest_dist: i128 = 0;
    let mut id: usize = 0;
    while id < objects.len()
        invariant
            id <= objects.len(),
            fov.wf(),
            range == max_range,
            range_sq == range * range,
            match closest_enemy {
                Some(best) => closest_among(views(objects@), fov@, max_range as int, id as int)
                    == Some(best as int) && best < id && closest_dist == gap_sq(
                    views(objects@),
                    best as int,
                ) && in_reach(views(objects@), fov@, max_range as int, best as int),
                None => closest_among(views(objects@), fov@, max_range as int, id as int)
                    is None,
            },
        decreases objects.len() - id,
    {
        let object = &objects[id];
        if id != PLAYER && range >= 0 && object.fighter.is_some() && object.ai.is_some()
            && fov.is_in_fov(object.x, object.y) {
            let dist = objects[PLAYER].distance_sq_to(object);
            let nearer = match closest_enemy {
                Some(_) => dist < closest_dist,
                None => true,
            };
            if dist <= range_sq && nearer {
                closest_enemy = Some(id);
                closest_dist = dist;
            }
        }
        id += 1;
    }
    closest_enemy
}

/// Whether entity `i` of `objects` is a monster standing at `(x, y)`: not
/// the player, and able to fight.
pub open spec fn monster_on(objects: Seq<ObjectView>, x: int, y: int, i: int) -> bool {
    0 < i < objects.len() && objects[i].fighter is Some && objects[i].x == x && objects[i].y == y
}

/// The first monster at `(x, y)` among the first `n` entities.
pub open spec fn first_monster_among(objects: Seq<ObjectView>, x: int, y: int, n: int) -> Option<
    int,
>
    decreases n,
{
    if n <= 0 {
        None
    } else {
        match first_monster_among(objects, x, y, n - 1) {
            Some(i) => Some(i),
            None => if monster_on(objects, x, y, n - 1) {
                Some(n - 1)
            } else {
                None
            },
        }
    }
}

/// The first monster at `(x, y)`.
pub open spec fn first_monster_at(objects: Seq<ObjectView>, x: int, y: int) -> Option<int> {
    first_monster_among(objects, x, y, objects.len() as int)
}

/// `first_monster_among` finds a monster exactly when one stands there, and
/// then none stands there earlier in the list.
pub proof fn lemma_first_monster_among(objects: Seq<ObjectView>, x: int, y: int, n: int)
    requires
        0 <= n <= objects.len(),
    ensures
        match first_monster_among(objects, x, y, n) {
            Some(i) => 0 <= i < n && monster_on(objects, x, y, i) && forall|j: int|
                0 <= j < i ==> !#[trigger] monster_on(objects, x, y, j),
            None => forall|j: int| 0 <= j < n ==> !#[trigger] monster_on(objects, x, y, j),
        },
    decreases n,
{
    if n > 0 {
        lemma_first_monster_among(objects, x, y, n - 1);
    }
}

/// The first monster standing at `(x, y)`.
pub fn monster_at(x: i32, y: i32, objects: &Vec<Object>) -> (found: Option<usize>)
    ensures
        match found {
            Some(id) => 0 < id < objects@.len() && first_monster_at(
                views(objects@),
                x as int,
                y as int,
            ) == Some(id as int),
            None => first_monster_at(views(objects@), x as int, y as int) is None,
        },
{
    let mut id: usize = 0;
    while id < objects.len()
        invariant
            id <= objects.len(),
            first_monster_among(views(objects@), x as int, y as int, id as int) is None,
        ensures
            id <= objects.len(),
            first_monster_among(views(objects@), x as int, y as int, id as int) is None,
            id < objects.len() ==> monster_on(views(objects@), x as int, y as int, id as int),
        decreases objects.len() - id,
    {
        if objects[id].x == x && objects[id].y == y && objects[id].fighter.is_some() && id
            != PLAYER {
            break ;
        }
        id += 1;
    }
    if id < objects.len() {
        proof {
            lemma_first_monster_from(views(objects@), x as int, y as int, id as int, objects@.len() as int);
        }
        Some(id)
    } else {
        None
    }
}

/// Once found, the first monster stays the first however far the search
/// goes on.
proof fn lemma_first_monster_from(objects: Seq<ObjectView>, x: int, y: int, i: int, n: int)
    requires
        0 <= i < n <= objects.len(),
        first_monster_among(objects, x, y, i) is None,
        monster_on(objects, x, y, i),
    ensures
        first_monster_among(objects, x, y, n) == Some(i),
    decreases n,
{
    if n > i + 1 {
        lemma_first_monster_from(objects, x, y, i, n - 1);
    }
}

/// One step of a choice made with the pointer.
#[derive(Debug, PartialEq, Eq)]
pub enum Selection<T> {
    /// The choice is made.
    Chosen(T),
    /// The player gave up.
    Cancelled,
    /// Nothing yet: ask again.
    Pending,
}

/// Where the pointer is and what was pressed since it was last looked at.
#[derive(Clone, Copy, Debug, PartialEq, Eq, Structural)]
pub struct Pointer {
    pub x: i32,
    pub y: i32,
    pub left_pressed: bool,
    pub right_pressed: bool,
    pub escape_pressed: bool,
}

/// Whether the tile `(x, y)` can be aimed at: it is in view and, where
/// `max_range` is given, no farther than that from the player.
pub open spec fn aimable(
    objects: Seq<ObjectView>,
    fov: Seq<Seq<FovCell>>,
    max_range: Option<i32>,
    x: int,
    y: int,
) -> bool {
    &&& visible_at(fov, x, y)
    &&& max_range matches Some(range) ==> range >= 0 && distance_sq(
        objects[0].x as int,
        objects[0].y as int,
        x,
        y,
    ) <= range * range
}

/// What a look at the pointer amounts to while a tile is being chosen.
pub open spec fn tile_step(
    pointer: Pointer,
    objects: Seq<ObjectView>,
    fov: Seq<Seq<FovCell>>,
    max_range: Option<i32>,
) -> Selection<(i32, i32)> {
    if pointer.left_pressed && aimable(objects, fov, max_range, pointer.x as int, pointer.y as int) {
        Selection::Chosen((pointer.x, pointer.y))
    } else if pointer.right_pressed || pointer.escape_pressed {
        Selection::Cancelled
    } else {
        Selection::Pending
    }
}

/// One step of choosing a tile: a left click on a tile that is in view and
/// within `max_range` of the player, if a range is given, chooses it;
/// otherwise a right click or the escape key gives up; otherwise the choice
/// is still to be made.
pub fn target_tile(
    pointer: Pointer,
    fov: &FovMap,
    objects: &Vec<Object>,
    max_range: Option<i32>,
) -> (step: Selection<(i32, i32)>)
    requires
        fov.wf(),
        objects@.len() >= 1,
    ensures
        step == tile_step(pointer, views(objects@), fov@, max_range),
{
    let in_fov = fov.is_in_fov(pointer.x, pointer.y);
    let in_range = match max_range {
        Some(range) => {
            let r: i128 = range as i128;
            assert(0 <= r * r <= 0x1_0000_0000 * 0x1_0000_0000) by (nonlinear_arith)
                requires
                    -0x1_0000_0000 <= r <= 0x1_0000_0000,
            ;
            range >= 0 && objects[PLAYER].distance_sq(pointer.x, pointer.y) <= r * r
        },
        None => true,
    };
    if pointer.left_pressed && in_fov && in_range {
        Selection::Chosen((pointer.x, pointer.y))
    } else if pointer.right_pressed || pointer.escape_pressed {
        Selection::Cancelled
    } else {
        Selection::Pending
    }
}

/// What a look at the pointer amounts to while a monster is being chosen.
pub open spec fn monster_step(
    pointer: Pointer,
    objects: Seq<ObjectView>,
    fov: Seq<Seq<FovCell>>,
    max_range: Option<i32>,
) -> Selection<usize> {
    match tile_step(pointer, objects, fov, max_range) {
        Selection::Chosen((x, y)) => match first_monster_at(objects, x as int, y as int) {
            Some(id) => Selection::Chosen(id as usize),
            None => Selection::Pending,
        },
        Selection::Cancelled => Selection::Cancelled,
        Selection::Pending => Selection::Pending,
    }
}

/// One step of choosing a monster: as for a tile, but the choice is made
/// only once the tile chosen holds a monster, and it is the first monster
/// standing there.
pub fn target_monster(
    pointer: Pointer,
    fov: &FovMap,
    objects: &Vec<Object>,
    max_range: Option<i32>,
) -> (step: Selection<usize>)
    requires
        fov.wf(),
        objects@.len() >= 1,
    ensures
        step == monster_step(pointer, views(objects@), fov@, max_range),
{
    match target_tile(pointer, fov, objects, max_range) {
        Selection::Chosen((x, y)) => match monster_at(x, y, objects) {
            Some(id) => Selection::Chosen(id),
            None => Selection::Pending,
        },
        Selection::Cancelled => Selection::Cancelled,
        Selection::Pending => Selection::Pending,
    }
}

} // verus!
