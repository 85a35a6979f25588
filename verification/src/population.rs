//! Filling the rooms of a level with monsters and items, by depth.

use crate::ai::{Ai, DeathCallback, Fighter};
use crate::color::Color;
use crate::equipment::{Equipment, Slot};
use crate::item::{from_dungeon_level, potion, scroll, table_value, Item, Potion, Scroll, Transition};
use crate::map::{Rect, Tile, TileMap};
use crate::object::{blocked_at, is_blocked, new_object, views, Object, ObjectView};
use crate::rng::{
    choice_weights, random_i32, random_u32, total_weight, weighted_choice, weighted_sample,
};
use vstd::prelude::*;

verus! {

/// The kinds of monster.
#[derive(Clone, Copy, Debug, PartialEq, Eq, Structural)]
pub enum MonsterKind {
    Orc,
    Troll,
}

/// The most monsters that a room at depth `level` can hold.
pub open spec fn max_monsters(level: u32) -> u32 {
    table_value(
        seq![
            Transition { level: 1, value: 2 },
            Transition { level: 4, value: 3 },
            Transition { level: 6, value: 5 },
        ],
        level,
    )
}

/// The most items that a room at depth `level` can hold.
pub open spec fn max_items(level: u32) -> u32 {
    table_value(seq![Transition { level: 1, value: 1 }, Transition { level: 4, value: 2 }], level)
}

/// The weight of trolls among the monsters at depth `level`.
pub open spec fn troll_chance(level: u32) -> u32 {
    table_value(
        seq![
            Transition { level: 3, value: 15 },
            Transition { level: 5, value: 30 },
            Transition { level: 7, value: 60 },
        ],
        level,
    )
}

/// The weights of the kinds of monster at depth `level`: orcs, then trolls.
pub open spec fn monster_weights(level: u32) -> Seq<u32> {
    seq![80, troll_chance(level)]
}

/// The weights of the kinds of item at depth `level`, in the order of
/// `item_kind`.
pub open spec fn item_weights(level: u32) -> Seq<u32> {
    seq![
        35,
        table_value(seq![Transition { level: 4, value: 25 }], level),
        table_value(seq![Transition { level: 6, value: 25 }], level),
        table_value(seq![Transition { level: 2, value: 10 }], level),
        table_value(seq![Transition { level: 4, value: 5 }], level),
        table_value(seq![Transition { level: 8, value: 15 }], level),
    ]
}

/// The kind of monster that stands at place `choice` of the weights.
pub open spec fn monster_kind(choice: int) -> MonsterKind {
    if choice == 0 {
        MonsterKind::Orc
    } else {
        MonsterKind::Troll
    }
}

/// The kind of item that stands at place `choice` of the weights.
pub open spec fn item_kind(choice: int) -> Item {
    if choice == 0 {
        Item::Heal
    } else if choice == 1 {
        Item::Lightning
    } else if choice == 2 {
        Item::Fireball
    } else if choice == 3 {
        Item::Confuse
    } else if choice == 4 {
        Item::Sword
    } else {
        Item::Shield
    }
}

/// A monster of `kind`, alive and hostile, at `(x, y)`.
pub open spec fn monster(kind: MonsterKind, x: i32, y: i32) -> ObjectView {
    match kind {
        MonsterKind::Orc => ObjectView {
            alive: true,
            fighter: Some(
                Fighter {
                    base_max_hp: 20,
                    hp: 20,
                    base_defense: 0,
                    base_power: 4,
                    xp: 35,
                    on_death: DeathCallback::Monster,
                },
            ),
            ai: Some(Ai::Basic),
            ..new_object(x, y, 'o', "Orc"@, Color::DesaturatedGreen, true)
        },
        MonsterKind::Troll => ObjectView {
            alive: true,
            fighter: Some(
                Fighter {
                    base_max_hp: 30,
                    hp: 30,
                    base_defense: 2,
                    base_power: 8,
                    xp: 100,
                    on_death: DeathCallback::Monster,
                },
            ),
            ai: Some(Ai::Basic),
            ..new_object(x, y, 'T', "Troll"@, Color::DarkerGreen, true)
        },
    }
}

/// An item of kind `item`, lying at `(x, y)`.
pub open spec fn item_object(item: Item, x: i32, y: i32) -> ObjectView {
    match item {
        Item::Heal => potion(x, y, "Healing"@, Item::Heal),
        Item::Lightning => scroll(x, y, "Lightning Bolt"@, Item::Lightning),
        Item::Fireball => scroll(x, y, "Fireball"@, Item::Fireball),
        Item::Confuse => scroll(x, y, "Confusion"@, Item::Confuse),
        Item::Sword => ObjectView {
            item: Some(Item::Sword),
            always_visible: true,
            equipment: Some(
                Equipment {
                    equipped: false,
                    slot: Slot::RightHand,
                    max_hp_bonus: 0,
                    defense_bonus: 0,
                    power_bonus: 3,
                },
            ),
            ..new_object(x, y, '/', "Sword"@, Color::Sky, false)
        },
        Item::Shield => ObjectView {
            item: Some(Item::Shield),
            always_visible: true,
            equipment: Some(
                Equipment {
                    equipped: false,
                    slot: Slot::LeftHand,
                    max_hp_bonus: 0,
                    defense_bonus: 1,
                    power_bonus: 0,
                },
            ),
            ..new_object(x, y, '[', "shield"@, Color::DarkerOrange, false)
        },
    }
}

/// Whether `o` is a monster as the population of depth `level` has them: of
/// a kind whose weight there is not zero, and fresh.
pub open spec fn monster_spawn(o: ObjectView, level: u32) -> bool {
    exists|choice: int|
        0 <= choice < 2 && #[trigger] monster_weights(level)[choice] > 0 && o == monster(
            monster_kind(choice),
            o.x,
            o.y,
        )
}

/// Whether `o` is an item as the population of depth `level` has them: of a
/// kind whose weight there is not zero, and fresh.
pub open spec fn item_spawn(o: ObjectView, level: u32) -> bool {
    exists|choice: int|
        0 <= choice < 6 && #[trigger] item_weights(level)[choice] > 0 && o == item_object(
            item_kind(choice),
            o.x,
            o.y,
        )
}

/// Whether `o` stands strictly inside `room`, on a tile where nothing stood
/// in the way when only `earlier` were there.
pub open spec fn free_in_room(
    o: ObjectView,
    room: Rect,
    grid: Seq<Seq<Tile>>,
    earlier: Seq<ObjectView>,
) -> bool {
    room.interior(o.x as int, o.y as int) && !blocked_at(o.x as int, o.y as int, grid, earlier)
}

/// Whether `after` is `before` followed by a population of `room` at depth
/// `level`: first `monsters` monsters, then items, neither more than the
/// depth allows, each of a kind found at that depth and put on a free tile of
/// the room.
pub open spec fn populated(
    before: Seq<ObjectView>,
    after: Seq<ObjectView>,
    monsters: int,
    room: Rect,
    grid: Seq<Seq<Tile>>,
    level: u32,
) -> bool {
    &&& 0 <= monsters <= max_monsters(level)
    &&& before.len() + monsters <= after.len() <= before.len() + monsters + max_items(level)
    &&& after.take(before.len() as int) == before
    &&& forall|k: int|
        before.len() <= k < after.len() ==> free_in_room(
            #[trigger] after[k],
            room,
            grid,
            after.take(k),
        ) && if k < before.len() + monsters {
            monster_spawn(after[k], level)
        } else {
            item_spawn(after[k], level)
        }
}

/// A monster of `kind` at `(x, y)`.
pub fn make_monster(kind: MonsterKind, x: i32, y: i32) -> (o: Object)
    ensures
        o@ == monster(kind, x, y),
{
    match kind {
        MonsterKind::Orc => {
            let mut orc = Object::new(x, y, 'o', "Orc", Color::DesaturatedGreen, true);
            orc.fighter = Some(
                Fighter {
                    base_max_hp: 20,
                    hp: 20,
                    base_defense: 0,
                    base_power: 4,
                    xp: 35,
                    on_death: DeathCallback::Monster,
                },
            );
            orc.ai = Some(Ai::Basic);
            orc.alive = true;
            orc
        },
        MonsterKind::Troll => {
            let mut troll = Object::new(x, y, 'T', "Troll", Color::DarkerGreen, true);
            troll.fighter = Some(
                Fighter {
                    base_max_hp: 30,
                    hp: 30,
                    base_defense: 2,
                    base_power: 8,
                    xp: 100,
                    on_death: DeathCallback::Monster,
                },
            );
            troll.ai = Some(Ai::Basic);
            troll.alive = true;
            troll
        },
    }
}

/// An item of kind `item` at `(x, y)`.
pub fn make_item(item: Item, x: i32, y: i32) -> (o: Object)
    ensures
        o@ == item_object(item, x, y),
{
    match item {
        Item::Heal => Potion::new(x, y, "Healing", Item::Heal),
        Item::Lightning => Scroll::new(x, y, "Lightning Bolt", Item::Lightning),
        Item::Fireball => Scroll::new(x, y, "Fireball", Item::Fireball),
        Item::Confuse => Scroll::new(x, y, "Confusion", Item::Confuse),
        Item::Sword => {
            let mut object = Object::new(x, y, '/', "Sword", Color::Sky, false);
            object.item = Some(Item::Sword);
            object.equipment = Some(
                Equipment {
                    equipped: false,
                    slot: Slot::RightHand,
                    max_hp_bonus: 0,
                    defense_bonus: 0,
                    power_bonus: 3,
                },
            );
            object.always_visible = true;
            object
        },
        Item::Shield => {
            let mut object = Object::new(x, y, '[', "shield", Color::DarkerOrange, false);
            object.item = Some(Item::Shield);
            object.equipment = Some(
                Equipment {
                    equipped: false,
                    slot: Slot::LeftHand,
                    max_hp_bonus: 0,
                    defense_bonus: 1,
                    power_bonus: 0,
                },
            );
            object.always_visible = true;
            object
        },
    }
}

/// The most monsters that a room at depth `level` can hold.
pub fn max_monsters_at(level: u32) -> (n: u32)
    ensures
        n == max_monsters(level),
        n <= 5,
{
    let table = [
        Transition { level: 1, value: 2 },
        Transition { level: 4, value: 3 },
        Transition { level: 6, value: 5 },
    ];
    proof {
        reveal_with_fuel(table_value, 4);
    }
    from_dungeon_level(&table, level)
}

/// The most items that a room at depth `level` can hold.
pub fn max_items_at(level: u32) -> (n: u32)
    ensures
        n == max_items(level),
        n <= 2,
{
    let table = [Transition { level: 1, value: 1 }, Transition { level: 4, value: 2 }];
    proof {
        reveal_with_fuel(table_value, 3);
    }
    from_dungeon_level(&table, level)
}

/// The value at `level` of the table whose one step is `(from, value)`.
fn single_step(from: u32, value: u32, level: u32) -> (n: u32)
    ensures
        n == table_value(seq![Transition { level: from, value }], level),
        n <= value,
{
    let table = [Transition { level: from, value }];
    proof {
        reveal_with_fuel(table_value, 2);
    }
    from_dungeon_level(&table, level)
}

/// The weights of the kinds of monster at depth `level`.
pub fn monster_chances(level: u32) -> (weights: Vec<u32>)
    ensures
        weights@ == monster_weights(level),
        total_weight(weights@) == 80 + troll_chance(level),
        troll_chance(level) <= 60,
{
    let table = [
        Transition { level: 3, value: 15 },
        Transition { level: 5, value: 30 },
        Transition { level: 7, value: 60 },
    ];
    proof {
        reveal_with_fuel(table_value, 4);
    }
    let troll = from_dungeon_level(&table, level);
    let mut weights: Vec<u32> = Vec::new();
    weights.push(80);
    weights.push(troll);
    proof {
        lemma_total_weight_push(seq![80u32], troll);
        lemma_total_weight_push(Seq::<u32>::empty(), 80u32);
    }
    weights
}

/// Adding a weight to a list adds it to the total.
pub proof fn lemma_total_weight_push(weights: Seq<u32>, w: u32)
    ensures
        total_weight(weights.push(w)) == total_weight(weights) + w,
{
    assert(weights.push(w).drop_last() =~= weights);
}

/// The weights of the kinds of item at depth `level`.
pub fn item_chances(level: u32) -> (weights: Vec<u32>)
    ensures
        weights@ == item_weights(level),
        35 <= total_weight(weights@) <= 115,
{
    let mut weights: Vec<u32> = Vec::new();
    weights.push(35);
    proof {
        lemma_total_weight_push(Seq::<u32>::empty(), 35u32);
    }
    let lightning = single_step(4, 25, level);
    proof {
        lemma_total_weight_push(weights@, lightning);
    }
    weights.push(lightning);
    let fireball = single_step(6, 25, level);
    proof {
        lemma_total_weight_push(weights@, fireball);
    }
    weights.push(fireball);
    let confuse = single_step(2, 10, level);
    proof {
        lemma_total_weight_push(weights@, confuse);
    }
    weights.push(confuse);
    let sword = single_step(4, 5, level);
    proof {
        lemma_total_weight_push(weights@, sword);
    }
    weights.push(sword);
    let shield = single_step(8, 15, level);
    proof {
        lemma_total_weight_push(weights@, shield);
    }
    weights.push(shield);
    weights
}

/// Puts a monster at `(x, y)` unless something stands in the way there. The
/// kind is the one at place `choice` of the monster weights. Returns whether
/// the monster was placed.
pub fn place_monster(
    choice: usize,
    x: i32,
    y: i32,
    map: &TileMap,
    objects: &mut Vec<Object>,
) -> (placed: bool)
    requires
        map.wf(),
        choice < 2,
    ensures
        placed == !blocked_at(x as int, y as int, map@, views(old(objects)@)),
        views(final(objects)@) == if placed {
            views(old(objects)@).push(monster(monster_kind(choice as int), x, y))
        } else {
            views(old(objects)@)
        },
        final(objects)@.len() == old(objects)@.len() + if placed {
            1int
        } else {
            0int
        },
{
    if is_blocked(x, y, map, objects) {
        false
    } else {
        let kind = if choice == 0 {
            MonsterKind::Orc
        } else {
            MonsterKind::Troll
        };
        objects.push(make_monster(kind, x, y));
        true
    }
}

/// Puts an item at `(x, y)` unless something stands in the way there. The
/// kind is the one at place `choice` of the item weights. Returns whether the
/// item was placed.
pub fn place_item(choice: usize, x: i32, y: i32, map: &TileMap, objects: &mut Vec<Object>) -> (placed:
    bool)
    requires
        map.wf(),
        choice < 6,
    ensures
        placed == !blocked_at(x as int, y as int, map@, views(old(objects)@)),
        views(final(objects)@) == if placed {
            views(old(objects)@).push(item_object(item_kind(choice as int), x, y))
        } else {
            views(old(objects)@)
        },
        final(objects)@.len() == old(objects)@.len() + if placed {
            1int
        } else {
            0int
        },
{
    if is_blocked(x, y, map, objects) {
        false
    } else {
        let item = if choice == 0 {
            Item::Heal
        } else if choice == 1 {
            Item::Lightning
        } else if choice == 2 {
            Item::Fireball
        } else if choice == 3 {
            Item::Confuse
        } else if choice == 4 {
            Item::Sword
        } else {
            Item::Shield
        };
        objects.push(make_item(item, x, y));
        true
    }
}

/// Extending a populated list by one more of the kind that is due keeps it
/// populated.
proof fn lemma_populated_push(
    before: Seq<ObjectView>,
    after: Seq<ObjectView>,
    monsters: int,
    room: Rect,
    grid: Seq<Seq<Tile>>,
    level: u32,
    o: ObjectView,
    as_monster: bool,
)
    requires
        populated(before, after, monsters, room, grid, level),
        free_in_room(o, room, grid, after),
        as_monster ==> after.len() == before.len() + monsters && monsters < max_monsters(level)
            && monster_spawn(o, level),
        !as_monster ==> after.len() < before.len() + monsters + max_items(level) && item_spawn(
            o,
            level,
        ),
    ensures
        populated(
            before,
            after.push(o),
            if as_monster {
                monsters + 1
            } else {
                monsters
            },
            room,
            grid,
            level,
        ),
{
    let longer = after.push(o);
    assert(longer.take(before.len() as int) =~= after.take(before.len() as int));
    assert forall|k: int| before.len() <= k < longer.len() implies free_in_room(
        #[trigger] longer[k],
        room,
        grid,
        longer.take(k),
    ) && if k < before.len() + (if as_monster {
        monsters + 1
    } else {
        monsters
    }) {
        monster_spawn(longer[k], level)
    } else {
        item_spawn(longer[k], level)
    } by {
        if k < after.len() {
            assert(longer.take(k) =~= after.take(k));
        }
    }
}

/// One draw of the population: a tile, and the place of a kind among the
/// weights.
#[derive(Clone, Copy, Debug, PartialEq, Eq, Structural)]
pub struct Draw {
    pub x: i32,
    pub y: i32,
    pub choice: usize,
}

/// `objects` after monsters were tried at `draws`, one after the other: a
/// draw on a tile where nothing stands in the way adds the monster of the
/// kind drawn, any other draw adds nothing.
pub open spec fn with_monsters(
    objects: Seq<ObjectView>,
    draws: Seq<Draw>,
    grid: Seq<Seq<Tile>>,
) -> Seq<ObjectView>
    decreases draws.len(),
{
    if draws.len() == 0 {
        objects
    } else {
        let earlier = with_monsters(objects, draws.drop_last(), grid);
        let draw = draws.last();
        if blocked_at(draw.x as int, draw.y as int, grid, earlier) {
            earlier
        } else {
            earlier.push(monster(monster_kind(draw.choice as int), draw.x, draw.y))
        }
    }
}

/// `objects` after items were tried at `draws`, one after the other: a draw
/// on a tile where nothing stands in the way adds the item of the kind
/// drawn, any other draw adds nothing.
pub open spec fn with_items(
    objects: Seq<ObjectView>,
    draws: Seq<Draw>,
    grid: Seq<Seq<Tile>>,
) -> Seq<ObjectView>
    decreases draws.len(),
{
    if draws.len() == 0 {
        objects
    } else {
        let earlier = with_items(objects, draws.drop_last(), grid);
        let draw = draws.last();
        if blocked_at(draw.x as int, draw.y as int, grid, earlier) {
            earlier
        } else {
            earlier.push(item_object(item_kind(draw.choice as int), draw.x, draw.y))
        }
    }
}

/// `objects` after a population was tried: first the monsters, then the
/// items.
pub open spec fn peopled(
    objects: Seq<ObjectView>,
    monsters: Seq<Draw>,
    items: Seq<Draw>,
    grid: Seq<Seq<Tile>>,
) -> Seq<ObjectView> {
    with_items(with_monsters(objects, monsters, grid), items, grid)
}

/// Whether every choice among `draws` is a place among `kinds` weights.
pub open spec fn choices_below(draws: Seq<Draw>, kinds: int) -> bool {
    forall|i: int| 0 <= i < draws.len() ==> (#[trigger] draws[i]).choice < kinds
}

/// Whether `monsters` and `items` are draws as the population of `room` at
/// depth `level` makes them: no more of either than the depth allows, each
/// on a tile strictly inside the room, each of a kind whose weight at that
/// depth is not zero.
pub open spec fn fair_draws(monsters: Seq<Draw>, items: Seq<Draw>, room: Rect, level: u32) -> bool {
    &&& monsters.len() <= max_monsters(level)
    &&& items.len() <= max_items(level)
    &&& forall|i: int|
        0 <= i < monsters.len() ==> room.interior(
            (#[trigger] monsters[i]).x as int,
            monsters[i].y as int,
        ) && monsters[i].choice < 2 && monster_weights(level)[monsters[i].choice as int] > 0
    &&& forall|i: int|
        0 <= i < items.len() ==> room.interior((#[trigger] items[i]).x as int, items[i].y as int)
            && items[i].choice < 6 && item_weights(level)[items[i].choice as int] > 0
}

/// Tries a population at the draws given: first a monster at each of
/// `monsters`, then an item at each of `items`, in order. A draw on a tile
/// where something stands in the way places nothing.
pub fn populate(
    monsters: &Vec<Draw>,
    items: &Vec<Draw>,
    map: &TileMap,
    objects: &mut Vec<Object>,
)
    requires
        map.wf(),
        choices_below(monsters@, 2),
        choices_below(items@, 6),
    ensures
        views(final(objects)@) == peopled(views(old(objects)@), monsters@, items@, map@),
        final(objects)@.len() >= old(objects)@.len(),
        forall|k: int|
            0 <= k < old(objects)@.len() ==> #[trigger] views(final(objects)@)[k] == views(
                old(objects)@,
            )[k],
{
    let ghost before = views(objects@);
    let mut n: usize = 0;
    while n < monsters.len()
        invariant
            map.wf(),
            n <= monsters.len(),
            choices_below(monsters@, 2),
            views(objects@) == with_monsters(before, monsters@.take(n as int), map@),
            objects@.len() >= before.len(),
            forall|k: int| 0 <= k < before.len() ==> #[trigger] views(objects@)[k] == before[k],
        decreases monsters.len() - n,
    {
        let draw = monsters[n];
        assert(monsters@.take(n as int + 1).drop_last() =~= monsters@.take(n as int));
        place_monster(draw.choice, draw.x, draw.y, map, objects);
        n += 1;
    }
    assert(monsters@.take(n as int) =~= monsters@);
    let ghost manned = views(objects@);
    let mut n: usize = 0;
    while n < items.len()
        invariant
            map.wf(),
            n <= items.len(),
            choices_below(items@, 6),
            views(objects@) == with_items(manned, items@.take(n as int), map@),
            objects@.len() >= before.len(),
            forall|k: int| 0 <= k < before.len() ==> #[trigger] views(objects@)[k] == before[k],
        decreases items.len() - n,
    {
        let draw = items[n];
        assert(items@.take(n as int + 1).drop_last() =~= items@.take(n as int));
        place_item(draw.choice, draw.x, draw.y, map, objects);
        n += 1;
    }
    assert(items@.take(n as int) =~= items@);
}

/// Monsters tried at fair draws make a population, with as many monsters as
/// were placed and no items yet.
pub proof fn lemma_monsters_populated(
    before: Seq<ObjectView>,
    monsters: Seq<Draw>,
    room: Rect,
    grid: Seq<Seq<Tile>>,
    level: u32,
)
    requires
        fair_draws(monsters, Seq::empty(), room, level),
    ensures
        ({
            let after = with_monsters(before, monsters, grid);
            &&& before.len() <= after.len() <= before.len() + monsters.len()
            &&& populated(before, after, after.len() - before.len(), room, grid, level)
        }),
    decreases monsters.len(),
{
    if monsters.len() == 0 {
        assert(before.take(before.len() as int) =~= before);
    } else {
        let fewer = monsters.drop_last();
        lemma_monsters_populated(before, fewer, room, grid, level);
        let earlier = with_monsters(before, fewer, grid);
        let draw = monsters.last();
        if !blocked_at(draw.x as int, draw.y as int, grid, earlier) {
            let o = monster(monster_kind(draw.choice as int), draw.x, draw.y);
            lemma_populated_push(
                before,
                earlier,
                earlier.len() - before.len(),
                room,
                grid,
                level,
                o,
                true,
            );
        }
    }
}

/// Items tried at fair draws after a population without items make a
/// population, with the monsters that were there.
pub proof fn lemma_items_populated(
    before: Seq<ObjectView>,
    manned: Seq<ObjectView>,
    items: Seq<Draw>,
    room: Rect,
    grid: Seq<Seq<Tile>>,
    level: u32,
)
    requires
        fair_draws(Seq::empty(), items, room, level),
        before.len() <= manned.len(),
        populated(before, manned, manned.len() - before.len(), room, grid, level),
    ensures
        ({
            let after = with_items(manned, items, grid);
            &&& manned.len() <= after.len() <= manned.len() + items.len()
            &&& populated(before, after, manned.len() - before.len(), room, grid, level)
        }),
    decreases items.len(),
{
    if items.len() > 0 {
        let fewer = items.drop_last();
        lemma_items_populated(before, manned, fewer, room, grid, level);
        let earlier = with_items(manned, fewer, grid);
        let draw = items.last();
        if !blocked_at(draw.x as int, draw.y as int, grid, earlier) {
            let o = item_object(item_kind(draw.choice as int), draw.x, draw.y);
            lemma_populated_push(
                before,
                earlier,
                manned.len() - before.len(),
                room,
                grid,
                level,
                o,
                false,
            );
        }
    }
}

/// A population tried at fair draws is one the depth allows: monsters
/// first, then items, neither more than the depth allows, each of a kind
/// found at that depth and on a free tile of the room.
pub proof fn lemma_peopled_is_populated(
    before: Seq<ObjectView>,
    monsters: Seq<Draw>,
    items: Seq<Draw>,
    room: Rect,
    grid: Seq<Seq<Tile>>,
    level: u32,
)
    requires
        fair_draws(monsters, items, room, level),
    ensures
        populated(
            before,
            peopled(before, monsters, items, grid),
            with_monsters(before, monsters, grid).len() - before.len(),
            room,
            grid,
            level,
        ),
{
    lemma_monsters_populated(before, monsters, room, grid, level);
    lemma_items_populated(
        before,
        with_monsters(before, monsters, grid),
        items,
        room,
        grid,
        level,
    );
}

/// Draws a population for `room` at depth `level`: how many monsters and
/// how many items, no more than the depth allows, and for each a tile
/// strictly inside the room and a kind, by the weights of that depth.
pub fn draw_population(room: Rect, level: u32, rng: &mut rand::rngs::StdRng) -> (drawn: (
    Vec<Draw>,
    Vec<Draw>,
))
    requires
        max_monsters(level) > 0 || max_items(level) > 0 ==> room.x1 + 1 < room.x2 && room.y1 + 1
            < room.y2,
    ensures
        fair_draws(drawn.0@, drawn.1@, room, level),
{
    let monster_cap = max_monsters_at(level);
    let num_monsters = random_u32(rng, 0, monster_cap + 1);
    let monster_table = monster_chances(level);
    let monster_choice = match weighted_choice(&monster_table) {
        Ok(choice) => choice,
        Err(_) => unreached(),
    };
    let mut monsters: Vec<Draw> = Vec::new();
    let mut n: u32 = 0;
    while n < num_monsters
        invariant
            n <= num_monsters <= max_monsters(level),
            num_monsters > 0 ==> room.x1 + 1 < room.x2 && room.y1 + 1 < room.y2,
            choice_weights(monster_choice) == monster_weights(level),
            monsters@.len() == n,
            fair_draws(monsters@, Seq::empty(), room, level),
        decreases num_monsters - n,
    {
        let x = random_i32(rng, room.x1 + 1, room.x2);
        let y = random_i32(rng, room.y1 + 1, room.y2);
        let choice = weighted_sample(&monster_choice, rng);
        monsters.push(Draw { x, y, choice });
        n += 1;
    }
    let item_cap = max_items_at(level);
    let num_items = random_u32(rng, 0, item_cap + 1);
    let item_table = item_chances(level);
    let item_choice = match weighted_choice(&item_table) {
        Ok(choice) => choice,
        Err(_) => unreached(),
    };
    let mut items: Vec<Draw> = Vec::new();
    let mut n: u32 = 0;
    while n < num_items
        invariant
            n <= num_items <= max_items(level),
            num_items > 0 ==> room.x1 + 1 < room.x2 && room.y1 + 1 < room.y2,
            choice_weights(item_choice) == item_weights(level),
            items@.len() == n,
            fair_draws(monsters@, items@, room, level),
        decreases num_items - n,
    {
        let x = random_i32(rng, room.x1 + 1, room.x2);
        let y = random_i32(rng, room.y1 + 1, room.y2);
        let choice = weighted_sample(&item_choice, rng);
        items.push(Draw { x, y, choice });
        n += 1;
    }
    (monsters, items)
}

/// Populates `room` for depth `level`: up to as many monsters, then up to as
/// many items, as the depth allows, each of a kind drawn by the weights of
/// that depth and tried at a random tile strictly inside the room. A draw
/// that lands where something stands in the way places nothing.
pub fn place_objects(
    room: Rect,
    map: &TileMap,
    objects: &mut Vec<Object>,
    level: u32,
    rng: &mut rand::rngs::StdRng,
)
    requires
        map.wf(),
        max_monsters(level) > 0 || max_items(level) > 0 ==> room.x1 + 1 < room.x2 && room.y1 + 1
            < room.y2,
    ensures
        exists|monsters: Seq<Draw>, items: Seq<Draw>|
            fair_draws(monsters, items, room, level) && views(final(objects)@)
                == #[trigger] peopled(views(old(objects)@), monsters, items, map@),
{
    let (monsters, items) = draw_population(room, level, rng);
    populate(&monsters, &items, map, objects);
}

} // verus!
