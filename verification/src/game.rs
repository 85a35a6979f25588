//! The state of a game besides the entities of the current level.

use crate::ai::{DeathCallback, Fighter};
use crate::color::Color;
use crate::dungeon::{
    connect, connected, corridor, corridor_region, dungeon_tiles, intersects_any, layout,
    lemma_connected_mono, lemma_connected_refl, lemma_connected_trans,
    lemma_corridor_connected, open_tile, room_fits, rooms_apart, rooms_reachable, touches_any,
};
use crate::log::Messages;
use crate::map::{
    carve, create_room, grid_wf, in_bounds, room_region, Rect, Tile, TileMap, MAP_HEIGHT,
    MAP_WIDTH, MAX_ROOMS, PLAYER, ROOM_MAX_SIZE, ROOM_MIN_SIZE,
};
use crate::object::{new_object, occupied_at, views, Object, ObjectView};
use crate::population::{
    choices_below, draw_population, item_spawn, lemma_peopled_is_populated, max_items,
    max_monsters, monster_spawn, peopled, populate, populated, with_monsters, Draw,
};
use crate::rng::{random_bool, random_i32};
use vstd::prelude::*;

verus! {

/// The number of items the player can carry: one per letter of the menu.
pub const INVENTORY_CAPACITY: usize = 26;

/// The map, the message log, what the player carries and how deep they are.
#[derive(Debug, PartialEq, Eq)]
pub struct Game {
    pub map: TileMap,
    pub messages: Messages,
    pub inventory: Vec<Object>,
    pub dungeon_level: u32,
}

/// The view of a game that contracts speak of.
pub struct GameView {
    pub map: Seq<Seq<Tile>>,
    pub messages: Seq<(Seq<char>, Color)>,
    pub inventory: Seq<ObjectView>,
    pub dungeon_level: u32,
}

impl GameView {
    /// Whether the map has the dungeon's dimensions and the inventory is
    /// within its capacity.
    pub open spec fn wf(self) -> bool {
        grid_wf(self.map) && self.inventory.len() <= INVENTORY_CAPACITY
    }

    /// The game with `lines` appended to its log.
    pub open spec fn with_messages(self, lines: Seq<(Seq<char>, Color)>) -> GameView {
        GameView { messages: self.messages + lines, ..self }
    }
}

impl View for Game {
    type V = GameView;

    open spec fn view(&self) -> GameView {
        GameView {
            map: self.map@,
            messages: self.messages@,
            inventory: views(self.inventory@),
            dungeon_level: self.dungeon_level,
        }
    }
}

impl Game {
    /// Whether the map has the dungeon's dimensions and the inventory is
    /// within its capacity.
    pub open spec fn wf(&self) -> bool {
        self@.wf()
    }

    /// Whether the map has the dungeon's dimensions and the inventory is
    /// within its capacity.
    pub fn is_well_formed(&self) -> (b: bool)
        ensures
            b == self.wf(),
    {
        self.map.is_well_formed() && self.inventory.len() <= INVENTORY_CAPACITY
    }
}

/// The stairs down, at `(x, y)`.
pub open spec fn stairs(x: i32, y: i32) -> ObjectView {
    ObjectView { always_visible: true, ..new_object(x, y, '<', "Stairs"@, Color::White, false) }
}

/// Whether `o` is a monster or an item as the population of depth `level`
/// has them, standing strictly inside one of `rooms` and not where one of
/// `earlier` blocks.
pub open spec fn inhabitant(
    o: ObjectView,
    earlier: Seq<ObjectView>,
    rooms: Seq<Rect>,
    level: u32,
) -> bool {
    &&& exists|i: int| 0 <= i < rooms.len() && (#[trigger] rooms[i]).interior(o.x as int, o.y as int)
    &&& !occupied_at(o.x as int, o.y as int, earlier)
    &&& monster_spawn(o, level) || item_spawn(o, level)
}

/// Whether every one of `objects` from the second on, up to but not
/// including `end`, is an inhabitant of `rooms` that does not stand where
/// one placed before it blocks.
pub open spec fn inhabited(objects: Seq<ObjectView>, end: int, rooms: Seq<Rect>, level: u32) -> bool {
    forall|k: int|
        1 <= k < end ==> inhabitant(#[trigger] objects[k], objects.subrange(1, k), rooms, level)
}

/// How many of `objects` stand strictly inside `room` and can fight, if
/// `fighters`, or cannot, if not.
pub open spec fn count_inside(objects: Seq<ObjectView>, room: Rect, fighters: bool) -> int
    decreases objects.len(),
{
    if objects.len() == 0 {
        0
    } else {
        count_inside(objects.drop_last(), room, fighters) + if room.interior(
            objects.last().x as int,
            objects.last().y as int,
        ) && (objects.last().fighter is Some) == fighters {
            1int
        } else {
            0int
        }
    }
}

/// Whether none of `rooms` holds more monsters or more items among
/// `objects` than a room of depth `level` can.
pub open spec fn within_capacity(objects: Seq<ObjectView>, rooms: Seq<Rect>, level: u32) -> bool {
    forall|i: int|
        0 <= i < rooms.len() ==> count_inside(objects, #[trigger] rooms[i], true) <= max_monsters(
            level,
        ) && count_inside(objects, rooms[i], false) <= max_items(level)
}

/// Whether `objects` are the entities of a fresh level with `rooms` at
/// depth `level`: first `player` as it was, moved to the centre of the first
/// room; then the population of the rooms, no room holding more than it can;
/// last the stairs down, at the centre of the last room.
pub open spec fn fresh_level(
    player: ObjectView,
    objects: Seq<ObjectView>,
    rooms: Seq<Rect>,
    level: u32,
) -> bool {
    &&& rooms.len() >= 1
    &&& 2 <= objects.len() <= 2 + rooms.len() * (max_monsters(level) + max_items(level))
    &&& objects[0] == ObjectView {
        x: rooms[0].spec_center().0 as i32,
        y: rooms[0].spec_center().1 as i32,
        ..player
    }
    &&& objects.last() == stairs(
        rooms.last().spec_center().0 as i32,
        rooms.last().spec_center().1 as i32,
    )
    &&& inhabited(objects, objects.len() - 1, rooms, level)
    &&& within_capacity(objects.subrange(1, objects.len() - 1), rooms, level)
}

/// The player at the start of a game.
pub open spec fn new_player() -> ObjectView {
    ObjectView {
        alive: true,
        fighter: Some(
            Fighter {
                base_max_hp: 30,
                hp: 30,
                base_defense: 2,
                base_power: 5,
                xp: 0,
                on_death: DeathCallback::Player,
            },
        ),
        ..new_object(0, 0, '@', "Player"@, Color::White, true)
    }
}

/// What holds of the level while it is being laid out: as `layout`, but
/// there may be no room yet.
pub open spec fn laid_out(grid: Seq<Seq<Tile>>, rooms: Seq<Rect>, bends: Seq<bool>) -> bool {
    &&& rooms.len() <= MAX_ROOMS
    &&& forall|i: int| 0 <= i < rooms.len() ==> room_fits(#[trigger] rooms[i])
    &&& rooms_apart(rooms)
    &&& dungeon_tiles(grid, rooms, bends)
    &&& rooms_reachable(grid, rooms)
}

/// Carving `room`, and the corridor to it from the room before if there is
/// one, keeps the level laid out.
proof fn lemma_room_added(
    grid: Seq<Seq<Tile>>,
    after: Seq<Seq<Tile>>,
    rooms: Seq<Rect>,
    bends: Seq<bool>,
    room: Rect,
    bend: bool,
)
    requires
        laid_out(grid, rooms, bends),
        rooms.len() < MAX_ROOMS,
        room_fits(room),
        !touches_any(room, rooms),
        rooms.len() == 0 ==> after == carve(grid, room_region(room)),
        rooms.len() > 0 ==> after == carve(
            carve(grid, room_region(room)),
            corridor_region(rooms.last().spec_center(), room.spec_center(), bend),
        ),
    ensures
        laid_out(after, rooms.push(room), bends.push(bend)),
{
    let rooms2 = rooms.push(room);
    let bends2 = bends.push(bend);
    let c = room.spec_center();
    assert(rooms2.drop_last() =~= rooms);
    assert(bends2.drop_last() =~= bends);
    assert forall|i: int, j: int| 0 <= i < j < rooms2.len() implies !(
    #[trigger] rooms2[i].spec_intersects_with(&rooms2[j])) by {
        if j == rooms.len() {
            assert(!room.spec_intersects_with(&rooms[i]));
        }
    }
    assert forall|x: int, y: int| in_bounds(x, y) implies #[trigger] after[x][y] == if open_tile(
        rooms2,
        bends2,
        x,
        y,
    ) {
        Tile::spec_empty()
    } else {
        Tile::spec_wall()
    } by {
    }
    let first = rooms2[0].spec_center();
    assert forall|i: int| 0 <= i < rooms2.len() implies connected(
        after,
        first,
        (#[trigger] rooms2[i]).spec_center(),
    ) by {
        if i < rooms.len() {
            lemma_connected_mono(grid, after, first, rooms[i].spec_center());
        } else if rooms.len() == 0 {
            lemma_connected_refl(after, c);
        } else {
            let prev = rooms.last().spec_center();
            lemma_connected_mono(grid, after, first, prev);
            lemma_corridor_connected(after, prev, c, bend);
            lemma_connected_trans(after, first, prev, c);
        }
    }
}

/// A population of one more room keeps the entities inhabitants of the
/// rooms, the new room included.
proof fn lemma_inhabited_extend(
    before: Seq<ObjectView>,
    after: Seq<ObjectView>,
    monsters: int,
    rooms: Seq<Rect>,
    room: Rect,
    grid: Seq<Seq<Tile>>,
    level: u32,
)
    requires
        before.len() >= 1,
        inhabited(before, before.len() as int, rooms, level),
        populated(before, after, monsters, room, grid, level),
    ensures
        inhabited(after, after.len() as int, rooms.push(room), level),
{
    let rooms2 = rooms.push(room);
    assert forall|k: int| 1 <= k < after.len() implies inhabitant(
        #[trigger] after[k],
        after.subrange(1, k),
        rooms2,
        level,
    ) by {
        let o = after[k];
        if k < before.len() {
            assert(after[k] == after.take(before.len() as int)[k]);
            assert(after.subrange(1, k) =~= before.subrange(1, k));
            let i = choose|i: int|
                0 <= i < rooms.len() && (#[trigger] rooms[i]).interior(o.x as int, o.y as int);
            assert(rooms2[i] == rooms[i]);
        } else {
            assert(rooms2[rooms.len() as int] == room);
            if occupied_at(o.x as int, o.y as int, after.subrange(1, k)) {
                let j = choose|j: int|
                    0 <= j < after.subrange(1, k).len() && (#[trigger] after.subrange(
                        1,
                        k,
                    )[j]).blocks && after.subrange(1, k)[j].x == o.x && after.subrange(1, k)[j].y
                        == o.y;
                assert(after.take(k)[j + 1] == after.subrange(1, k)[j]);
            }
        }
    }
}

/// Entities that all stand inside rooms apart from `room` count for nothing
/// in `room`.
proof fn lemma_none_inside(
    objects: Seq<ObjectView>,
    n: int,
    rooms: Seq<Rect>,
    room: Rect,
    level: u32,
    fighters: bool,
)
    requires
        1 <= n <= objects.len(),
        inhabited(objects, n, rooms, level),
        !touches_any(room, rooms),
    ensures
        count_inside(objects.subrange(1, n), room, fighters) == 0,
    decreases n,
{
    if n > 1 {
        lemma_none_inside(objects, n - 1, rooms, room, level, fighters);
        assert(objects.subrange(1, n).drop_last() =~= objects.subrange(1, n - 1));
        let o = objects[n - 1];
        let i = choose|i: int|
            0 <= i < rooms.len() && (#[trigger] rooms[i]).interior(o.x as int, o.y as int);
        assert(!room.spec_intersects_with(&rooms[i]));
    }
}

/// What a population adds to the counts of a room: to the room that was
/// peopled, no more monsters and no more items than were placed; to a room
/// apart from it, nothing.
proof fn lemma_counts_after(
    before: Seq<ObjectView>,
    after: Seq<ObjectView>,
    monsters: int,
    peopled: Rect,
    grid: Seq<Seq<Tile>>,
    level: u32,
    room: Rect,
    n: int,
)
    requires
        1 <= before.len() <= n <= after.len(),
        populated(before, after, monsters, peopled, grid, level),
        room == peopled || !room.spec_intersects_with(&peopled),
    ensures
        room == peopled ==> count_inside(after.subrange(1, n), room, true) <= count_inside(
            before.subrange(1, before.len() as int),
            room,
            true,
        ) + if n - before.len() < monsters {
            n - before.len()
        } else {
            monsters
        },
        room == peopled ==> count_inside(after.subrange(1, n), room, false) <= count_inside(
            before.subrange(1, before.len() as int),
            room,
            false,
        ) + if n - before.len() < monsters {
            0
        } else {
            n - before.len() - monsters
        },
        room != peopled ==> count_inside(after.subrange(1, n), room, true) == count_inside(
            before.subrange(1, before.len() as int),
            room,
            true,
        ),
        room != peopled ==> count_inside(after.subrange(1, n), room, false) == count_inside(
            before.subrange(1, before.len() as int),
            room,
            false,
        ),
    decreases n,
{
    if n == before.len() {
        assert(after.subrange(1, n) =~= before.subrange(1, n));
    } else {
        lemma_counts_after(before, after, monsters, peopled, grid, level, room, n - 1);
        assert(after.subrange(1, n).drop_last() =~= after.subrange(1, n - 1));
    }
}

/// A population of one more room, apart from the others, keeps every room
/// within its capacity.
proof fn lemma_capacity_extend(
    before: Seq<ObjectView>,
    after: Seq<ObjectView>,
    monsters: int,
    rooms: Seq<Rect>,
    room: Rect,
    grid: Seq<Seq<Tile>>,
    level: u32,
)
    requires
        before.len() >= 1,
        inhabited(before, before.len() as int, rooms, level),
        within_capacity(before.subrange(1, before.len() as int), rooms, level),
        populated(before, after, monsters, room, grid, level),
        !touches_any(room, rooms),
    ensures
        within_capacity(after.subrange(1, after.len() as int), rooms.push(room), level),
{
    let rooms2 = rooms.push(room);
    let n = after.len() as int;
    assert forall|i: int| 0 <= i < rooms2.len() implies count_inside(
        after.subrange(1, n),
        #[trigger] rooms2[i],
        true,
    ) <= max_monsters(level) && count_inside(after.subrange(1, n), rooms2[i], false) <= max_items(
        level,
    ) by {
        if i < rooms.len() {
            assert(!room.spec_intersects_with(&rooms[i]));
            lemma_counts_after(before, after, monsters, room, grid, level, rooms[i], n);
        } else {
            lemma_none_inside(before, before.len() as int, rooms, room, level, true);
            lemma_none_inside(before, before.len() as int, rooms, room, level, false);
            lemma_counts_after(before, after, monsters, room, grid, level, room, n);
        }
    }
}

/// What a room adds to the bound on the number of entities.
proof fn lemma_count_step(rooms: int, per_room: int)
    ensures
        (rooms + 1) * per_room == rooms * per_room + per_room,
{
    assert((rooms + 1) * per_room == rooms * per_room + per_room) by (nonlinear_arith);
}

/// The grid after `room` was added to a level with `rooms`: its inside is
/// carved, and so is the corridor to its centre from that of the room before
/// it, if there is one, bent as `horizontal_first` says.
pub open spec fn room_carved(
    grid: Seq<Seq<Tile>>,
    rooms: Seq<Rect>,
    room: Rect,
    horizontal_first: bool,
) -> Seq<Seq<Tile>> {
    if rooms.len() == 0 {
        carve(grid, room_region(room))
    } else {
        carve(
            carve(grid, room_region(room)),
            corridor_region(rooms.last().spec_center(), room.spec_center(), horizontal_first),
        )
    }
}

/// The entities after `room` was added to a level with `rooms`: the
/// population of the room is tried at the draws given, on the grid in which
/// the room is carved, and if the room is the first, the player is then put
/// at its centre.
pub open spec fn room_peopled(
    objects: Seq<ObjectView>,
    rooms: Seq<Rect>,
    room: Rect,
    monsters: Seq<Draw>,
    items: Seq<Draw>,
    grid: Seq<Seq<Tile>>,
) -> Seq<ObjectView> {
    let with_population = peopled(objects, monsters, items, carve(grid, room_region(room)));
    if rooms.len() == 0 {
        with_population.update(
            0,
            ObjectView {
                x: room.spec_center().0 as i32,
                y: room.spec_center().1 as i32,
                ..with_population[0]
            },
        )
    } else {
        with_population
    }
}

/// Adds `room` to the level, unless it shares a tile with one of `rooms`,
/// borders included; says whether it was added. A room that is added is
/// carved and peopled at the draws given; the first room gets the player at
/// its centre, every other a corridor from the centre of the room before,
/// bent as `horizontal_first` says.
pub fn add_room(
    room: Rect,
    horizontal_first: bool,
    monsters: &Vec<Draw>,
    items: &Vec<Draw>,
    map: &mut TileMap,
    rooms: &mut Vec<Rect>,
    objects: &mut Vec<Object>,
) -> (added: bool)
    requires
        old(map).wf(),
        old(objects)@.len() >= 1,
        room_fits(room),
        forall|i: int| 0 <= i < old(rooms)@.len() ==> room_fits(#[trigger] old(rooms)@[i]),
        choices_below(monsters@, 2),
        choices_below(items@, 6),
    ensures
        added == !touches_any(room, old(rooms)@),
        final(map).wf(),
        final(objects)@.len() >= 1,
        added ==> {
            &&& final(map)@ == room_carved(old(map)@, old(rooms)@, room, horizontal_first)
            &&& final(rooms)@ == old(rooms)@.push(room)
            &&& views(final(objects)@) == room_peopled(
                views(old(objects)@),
                old(rooms)@,
                room,
                monsters@,
                items@,
                old(map)@,
            )
        },
        !added ==> {
            &&& final(map)@ == old(map)@
            &&& final(rooms)@ == old(rooms)@
            &&& views(final(objects)@) == views(old(objects)@)
        },
{
    if intersects_any(&room, rooms) {
        return false;
    }
    create_room(room, map);
    populate(monsters, items, map, objects);
    let (new_x, new_y) = room.center();
    if rooms.len() == 0 {
        let ghost with_population = views(objects@);
        objects[PLAYER].set_pos(new_x, new_y);
        assert(views(objects@) =~= with_population.update(
            0,
            ObjectView { x: new_x, y: new_y, ..with_population[0] },
        ));
    } else {
        let (prev_x, prev_y) = rooms[rooms.len() - 1].center();
        connect((prev_x, prev_y), (new_x, new_y), horizontal_first, map);
    }
    rooms.push(room);
    true
}

impl Game {
    /// A new game at depth 1: a fresh level for the player, who is the first
    /// of `objects`, an empty log and an empty inventory.
    pub fn new(objects: &mut Vec<Object>, rng: &mut rand::rngs::StdRng) -> (game: Game)
        requires
            old(objects).len() >= 1,
        ensures
            game.wf(),
            game@.messages == Seq::<(Seq<char>, Color)>::empty(),
            game@.inventory == Seq::<ObjectView>::empty(),
            game@.dungeon_level == 1,
            exists|rooms: Seq<Rect>|
                layout(game@.map, rooms) && #[trigger] fresh_level(
                    views(old(objects)@)[0],
                    views(final(objects)@),
                    rooms,
                    1,
                ),
    {
        let (map, _) = Game::make_map(objects, 1, rng);
        Game { map, messages: Messages::new(), inventory: Vec::new(), dungeon_level: 1 }
    }

    /// Lays out a level of depth `level` and peoples it. The entities other
    /// than the first, which is the player, are dropped; the player is put at
    /// the centre of the first room, and the stairs down at the centre of the
    /// last. Returns the map and the rooms that were placed, in order.
    pub fn make_map(objects: &mut Vec<Object>, level: u32, rng: &mut rand::rngs::StdRng) -> (made: (
        TileMap,
        Vec<Rect>,
    ))
        requires
            old(objects).len() >= 1,
        ensures
            made.0.wf(),
            layout(made.0@, made.1@),
            fresh_level(views(old(objects)@)[0], views(final(objects)@), made.1@, level),
    {
        let mut map = TileMap::new();
        objects.truncate(1);
        let ghost player = views(old(objects)@)[0];
        let mut rooms: Vec<Rect> = Vec::new();
        let ghost mut bends: Seq<bool> = Seq::empty();
        let mut n: i32 = 0;
        while n < MAX_ROOMS
            invariant
                0 <= n <= MAX_ROOMS,
                map.wf(),
                laid_out(map@, rooms@, bends),
                rooms@.len() <= n,
                n >= 1 ==> rooms@.len() >= 1,
                objects@.len() >= 1,
                objects@.len() <= 1 + rooms@.len() * (max_monsters(level) + max_items(level)),
                rooms@.len() == 0 ==> views(objects@)[0] == player,
                rooms@.len() > 0 ==> views(objects@)[0] == (ObjectView {
                    x: rooms@[0].spec_center().0 as i32,
                    y: rooms@[0].spec_center().1 as i32,
                    ..player
                }),
                inhabited(views(objects@), objects@.len() as int, rooms@, level),
                within_capacity(
                    views(objects@).subrange(1, objects@.len() as int),
                    rooms@,
                    level,
                ),
            decreases MAX_ROOMS - n,
        {
            let w = random_i32(rng, ROOM_MIN_SIZE, ROOM_MAX_SIZE + 1);
            let h = random_i32(rng, ROOM_MIN_SIZE, ROOM_MAX_SIZE + 1);
            let x = random_i32(rng, 0, MAP_WIDTH - w);
            let y = random_i32(rng, 0, MAP_HEIGHT - h);
            let new_room = Rect::new(x, y, w, h);
            if !intersects_any(&new_room, &rooms) {
                let ghost grid = map@;
                let ghost before = views(objects@);
                let ghost earlier = rooms@;
                let (monsters, items) = draw_population(new_room, level, rng);
                let horizontal_first = rooms.len() > 0 && random_bool(rng);
                add_room(
                    new_room,
                    horizontal_first,
                    &monsters,
                    &items,
                    &mut map,
                    &mut rooms,
                    objects,
                );
                proof {
                    let carved = carve(grid, room_region(new_room));
                    let with_population = peopled(before, monsters@, items@, carved);
                    let placed = with_monsters(before, monsters@, carved).len() - before.len();
                    lemma_peopled_is_populated(
                        before,
                        monsters@,
                        items@,
                        new_room,
                        carved,
                        level,
                    );
                    lemma_inhabited_extend(
                        before,
                        with_population,
                        placed,
                        earlier,
                        new_room,
                        carved,
                        level,
                    );
                    lemma_capacity_extend(
                        before,
                        with_population,
                        placed,
                        earlier,
                        new_room,
                        carved,
                        level,
                    );
                    lemma_count_step(
                        earlier.len() as int,
                        max_monsters(level) + max_items(level),
                    );
                    let after = views(objects@);
                    assert(with_population.len() >= before.len());
                    assert(after == room_peopled(
                        before,
                        earlier,
                        new_room,
                        monsters@,
                        items@,
                        grid,
                    ));
                    assert(after.len() == with_population.len());
                    assert(after.subrange(1, after.len() as int) =~= with_population.subrange(
                        1,
                        with_population.len() as int,
                    ));
                    lemma_room_added(grid, map@, earlier, bends, new_room, horizontal_first);
                    bends = bends.push(horizontal_first);
                }
            }
            n += 1;
        }
        let (last_x, last_y) = rooms[rooms.len() - 1].center();
        let mut way_down = Object::new(last_x, last_y, '<', "Stairs", Color::White, false);
        way_down.always_visible = true;
        let ghost peopled = views(objects@);
        objects.push(way_down);
        proof {
            let all = views(objects@);
            assert(all =~= peopled.push(stairs(last_x, last_y)));
            assert(all.subrange(1, all.len() - 1) =~= peopled.subrange(1, peopled.len() as int));
        }
        (map, rooms)
    }
}

/// A new game: the player in a fresh level of depth 1, greeted by the log.
pub fn new_game(rng: &mut rand::rngs::StdRng) -> (made: (Game, Vec<Object>))
    ensures
        made.0.wf(),
        made.0@.messages == seq![
            (
                "Welcome stranger! Prepare to perish in the Tombs of the Ancient Kings."@,
                Color::Red,
            ),
        ],
        made.0@.inventory == Seq::<ObjectView>::empty(),
        made.0@.dungeon_level == 1,
        exists|rooms: Seq<Rect>|
            layout(made.0@.map, rooms) && #[trigger] fresh_level(
                new_player(),
                views(made.1@),
                rooms,
                1,
            ),
{
    let mut player = Object::new(0, 0, '@', "Player", Color::White, true);
    player.alive = true;
    player.fighter = Some(
        Fighter {
            base_max_hp: 30,
            hp: 30,
            base_defense: 2,
            base_power: 5,
            xp: 0,
            on_death: DeathCallback::Player,
        },
    );
    let mut objects: Vec<Object> = Vec::new();
    objects.push(player);
    let mut game = Game::new(&mut objects, rng);
    let ghost rooms = choose|rooms: Seq<Rect>|
        layout(game@.map, rooms) && #[trigger] fresh_level(new_player(), views(objects@), rooms, 1);
    game.messages.add_str(
        "Welcome stranger! Prepare to perish in the Tombs of the Ancient Kings.",
        Color::Red,
    );
    let made = (game, objects);
    assert(layout(made.0@.map, rooms) && fresh_level(new_player(), views(made.1@), rooms, 1));
    made
}

} // verus!
