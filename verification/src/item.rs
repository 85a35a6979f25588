//! Items: what they are, what using one does, and how they are picked up.

use crate::ai::{after_turns, lemma_confusion_wears_off, Ai, DeathCallback};
use crate::color::Color;
use crate::equipment::{Equipment, Slot};
use crate::fov::{FovCell, FovMap};
use crate::game::{Game, GameView, INVENTORY_CAPACITY};
use crate::map::PLAYER;
use crate::object::{
    damage_messages, damage_xp, damaged, dequip_messages, dequipped, dies, distance_sq,
    effective, equip_messages, equipped, heal_fits, healed, new_object, views, with_xp_gain,
    worn, Object, ObjectView, Stat,
};
use crate::targeting::{closest, closest_monster};
use crate::text::{decimal, push_decimal};
use vstd::prelude::*;

verus! {

/// The kinds of item.
#[derive(Clone, Copy, Debug, PartialEq, Eq, Structural)]
pub enum Item {
    Heal,
    Lightning,
    Confuse,
    Fireball,
    Sword,
    Shield,
}

/// A potion at `(x, y)` that does what `item` does: an item called `name`
/// followed by " Potion".
pub open spec fn potion(x: i32, y: i32, name: Seq<char>, item: Item) -> ObjectView {
    ObjectView {
        item: Some(item),
        always_visible: true,
        ..new_object(x, y, '!', name + " Potion"@, Color::Violet, false)
    }
}

/// A scroll at `(x, y)` that does what `item` does: an item called
/// "Scroll of " followed by `name`.
pub open spec fn scroll(x: i32, y: i32, name: Seq<char>, item: Item) -> ObjectView {
    ObjectView {
        item: Some(item),
        always_visible: true,
        ..new_object(x, y, '#', "Scroll of "@ + name, Color::LightYellow, false)
    }
}

/// Maker of potions.
pub struct Potion;

impl Potion {
    /// A potion at `(x, y)` that does what `item` does.
    pub fn new(x: i32, y: i32, name: &str, item: Item) -> (o: Object)
        ensures
            o@ == potion(x, y, name@, item),
    {
        let mut full = String::from_str(name);
        full.append(" Potion");
        let mut object = Object::new(x, y, '!', full.as_str(), Color::Violet, false);
        object.item = Some(item);
        object.always_visible = true;
        object
    }
}

/// Maker of scrolls.
pub struct Scroll;

impl Scroll {
    /// A scroll at `(x, y)` that does what `item` does.
    pub fn new(x: i32, y: i32, name: &str, item: Item) -> (o: Object)
        ensures
            o@ == scroll(x, y, name@, item),
    {
        let mut full = String::from_str("Scroll of ");
        full.append(name);
        let mut object = Object::new(x, y, '#', full.as_str(), Color::LightYellow, false);
        object.item = Some(item);
        object.always_visible = true;
        object
    }
}

/// One step of a threshold table: from dungeon level `level` on, the value
/// is `value`.
#[derive(Clone, Copy, Debug, PartialEq, Eq, Structural)]
pub struct Transition {
    pub level: u32,
    pub value: u32,
}

/// The value of a threshold table at `level`: that of the last entry whose
/// level is not above `level`, or 0 if there is none.
pub open spec fn table_value(table: Seq<Transition>, level: u32) -> u32
    decreases table.len(),
{
    if table.len() == 0 {
        0
    } else if level >= table.last().level {
        table.last().value
    } else {
        table_value(table.drop_last(), level)
    }
}

/// The value of the threshold table `table` at dungeon level `level`.
pub fn from_dungeon_level(table: &[Transition], level: u32) -> (value: u32)
    ensures
        value == table_value(table@, level),
{
    let mut i: usize = table.len();
    assert(table@.take(i as int) == table@);
    while i > 0
        invariant
            i <= table.len(),
            table_value(table@, level) == table_value(table@.take(i as int), level),
        decreases i,
    {
        assert(table@.take(i as int).drop_last() == table@.take(i as int - 1));
        if level >= table[i - 1].level {
            return table[i - 1].value;
        }
        i -= 1;
    }
    0
}

/// The hit points that a healing potion gives back.
pub const HEAL_AMOUNT: i32 = 40;

/// The damage of a lightning bolt.
pub const LIGHTNING_DAMAGE: i32 = 40;

/// How far a lightning bolt reaches.
pub const LIGHTNING_RANGE: i32 = 5;

/// How far from the player a monster can be confused.
pub const CONFUSE_RANGE: i32 = 8;

/// How many turns a confusion lasts.
pub const CONFUSE_NUM_TURNS: i32 = 10;

/// How far from its centre a fireball burns.
pub const FIREBALL_RADIUS: i32 = 3;

/// The damage of a fireball.
pub const FIREBALL_DAMAGE: i32 = 25;

/// What became of an item that the player tried to use.
#[derive(Clone, Copy, Debug, PartialEq, Eq, Structural)]
pub enum UseResult {
    UsedUp,
    UsedAndKept,
    Cancelled,
}

/// The entities and the game after an item was used, and what became of the
/// item.
pub struct Outcome {
    pub objects: Seq<ObjectView>,
    pub game: GameView,
    pub result: UseResult,
}

/// What drinking a healing potion does: nothing to a player that cannot
/// fight or is at full health; otherwise the player is healed and the potion
/// used up.
pub open spec fn heal_outcome(objects: Seq<ObjectView>, game: GameView) -> Outcome {
    let player = objects[0];
    match player.fighter {
        Some(f) => if f.hp == effective(player, game.inventory, Stat::MaxHp) {
            Outcome {
                objects,
                game: game.with_messages(seq![("You are already at full health."@, Color::Red)]),
                result: UseResult::Cancelled,
            }
        } else {
            Outcome {
                objects: objects.update(0, healed(player, HEAL_AMOUNT as int, game.inventory)),
                game: game.with_messages(
                    seq![("Your wounds start to feel better!"@, Color::LightViolet)],
                ),
                result: UseResult::UsedUp,
            }
        },
        None => Outcome { objects, game, result: UseResult::Cancelled },
    }
}

/// Drinks a healing potion.
pub fn cast_heal(game: &mut Game, objects: &mut Vec<Object>) -> (result: UseResult)
    requires
        old(game).wf(),
        old(objects)@.len() >= 1,
        heal_fits(views(old(objects)@)[0], HEAL_AMOUNT as int, old(game)@.inventory),
    ensures
        views(final(objects)@) == heal_outcome(views(old(objects)@), old(game)@).objects,
        final(game)@ == heal_outcome(views(old(objects)@), old(game)@).game,
        result == heal_outcome(views(old(objects)@), old(game)@).result,
{
    match objects[PLAYER].fighter {
        Some(fighter) => {
            if fighter.hp as i64 == objects[PLAYER].max_hp(game) {
                game.messages.add_str("You are already at full health.", Color::Red);
                assert(game@.messages =~= old(game)@.messages + seq![
                    ("You are already at full health."@, Color::Red),
                ]);
                return UseResult::Cancelled;
            }
            game.messages.add_str("Your wounds start to feel better!", Color::LightViolet);
            assert(game@.messages =~= old(game)@.messages + seq![
                ("Your wounds start to feel better!"@, Color::LightViolet),
            ]);
            objects[PLAYER].heal(HEAL_AMOUNT, game);
            UseResult::UsedUp
        },
        None => UseResult::Cancelled,
    }
}

/// The line logged when lightning strikes a monster called `name`.
pub open spec fn lightning_message(name: Seq<char>) -> (Seq<char>, Color) {
    (
        "A lightning bolt strikes the "@ + name + " with a loud thunder! The damage is "@
            + decimal(LIGHTNING_DAMAGE as int) + " hit points."@,
        Color::LightBlue,
    )
}

/// What reading a scroll of lightning does: the nearest monster in view and
/// within range takes the damage, whatever its defense, and the player gains
/// its experience if it dies. With no such monster nothing happens.
pub open spec fn lightning_outcome(
    objects: Seq<ObjectView>,
    game: GameView,
    fov: Seq<Seq<FovCell>>,
) -> Outcome {
    match closest(objects, fov, LIGHTNING_RANGE as int) {
        Some(id) => {
            let struck = objects.update(id, damaged(objects[id], LIGHTNING_DAMAGE as int));
            Outcome {
                objects: match damage_xp(objects[id], LIGHTNING_DAMAGE as int) {
                    Some(xp) => struck.update(0, with_xp_gain(struck[0], xp as int)),
                    None => struck,
                },
                game: game.with_messages(
                    seq![lightning_message(objects[id].name)] + damage_messages(
                        objects[id],
                        LIGHTNING_DAMAGE as int,
                    ),
                ),
                result: UseResult::UsedUp,
            }
        },
        None => Outcome {
            objects,
            game: game.with_messages(seq![("No enemy is close enough to strike."@, Color::Red)]),
            result: UseResult::Cancelled,
        },
    }
}

/// Whether the player can bank the experience of the monster that lightning
/// would kill.
pub open spec fn lightning_fits(objects: Seq<ObjectView>, fov: Seq<Seq<FovCell>>) -> bool {
    closest(objects, fov, LIGHTNING_RANGE as int) matches Some(id) ==> (damage_xp(
        objects[id],
        LIGHTNING_DAMAGE as int,
    ) matches Some(xp) ==> (objects[0].fighter matches Some(f) && i32::MIN <= f.xp + xp
        <= i32::MAX))
}

/// Reads a scroll of lightning.
pub fn cast_lightning(fov: &FovMap, game: &mut Game, objects: &mut Vec<Object>) -> (result:
    UseResult)
    requires
        fov.wf(),
        old(objects)@.len() >= 1,
        lightning_fits(views(old(objects)@), fov@),
    ensures
        views(final(objects)@) == lightning_outcome(views(old(objects)@), old(game)@, fov@).objects,
        final(game)@ == lightning_outcome(views(old(objects)@), old(game)@, fov@).game,
        result == lightning_outcome(views(old(objects)@), old(game)@, fov@).result,
{
    let monster_id = closest_monster(fov, objects, LIGHTNING_RANGE);
    match monster_id {
        Some(monster_id) => {
            let mut text = String::from_str("A lightning bolt strikes the ");
            text.append(objects[monster_id].name.as_str());
            text.append(" with a loud thunder! The damage is ");
            push_decimal(&mut text, LIGHTNING_DAMAGE as i64);
            text.append(" hit points.");
            game.messages.add(text, Color::LightBlue);
            if let Some(xp) = objects[monster_id].take_damage(LIGHTNING_DAMAGE as i64, game) {
                if let Some(fighter) = objects[PLAYER].fighter.as_mut() {
                    fighter.xp = fighter.xp + xp;
                }
            }
            assert(game@.messages =~= lightning_outcome(
                views(old(objects)@),
                old(game)@,
                fov@,
            ).game.messages);
            UseResult::UsedUp
        },
        None => {
            game.messages.add_str("No enemy is close enough to strike.", Color::Red);
            assert(game@.messages =~= old(game)@.messages + seq![
                ("No enemy is close enough to strike."@, Color::Red),
            ]);
            UseResult::Cancelled
        },
    }
}

/// `o` confused for `turns` turns: its behaviour is set aside, to be taken
/// up again afterwards; an entity without behaviour is taken to have the
/// basic one.
pub open spec fn confused(o: ObjectView, turns: i32) -> ObjectView {
    ObjectView {
        ai: Some(
            Ai::Confused {
                previous_ai: Box::new(
                    match o.ai {
                        Some(ai) => ai,
                        None => Ai::Basic,
                    },
                ),
                remaining_turns: turns,
            },
        ),
        ..o
    }
}

/// What reading a scroll of confusion does: the monster chosen is confused
/// for a fixed number of turns; with no monster chosen nothing happens.
pub open spec fn confuse_outcome(
    objects: Seq<ObjectView>,
    game: GameView,
    target: Option<usize>,
) -> Outcome {
    match target {
        Some(id) => Outcome {
            objects: objects.update(id as int, confused(objects[id as int], CONFUSE_NUM_TURNS)),
            game: game.with_messages(
                seq![
                    (
                        "The eyes of "@ + objects[id as int].name
                            + " look vacant, as he starts to stumble around!"@,
                        Color::LightGreen,
                    ),
                ],
            ),
            result: UseResult::UsedUp,
        },
        None => Outcome {
            objects,
            game: game.with_messages(seq![("No enemy is close enough to strike."@, Color::Red)]),
            result: UseResult::Cancelled,
        },
    }
}

/// A monster that is confused has its behaviour set aside for the fixed
/// number of turns; it is still confused after fewer turns than that, and
/// after exactly that many it has the behaviour it had before, or the basic
/// one if it had none.
pub proof fn lemma_confusion_lasts(o: ObjectView, k: nat)
    requires
        k <= CONFUSE_NUM_TURNS,
    ensures
        ({
            let before = match o.ai {
                Some(ai) => ai,
                None => Ai::Basic,
            };
            let start = Ai::Confused {
                previous_ai: Box::new(before),
                remaining_turns: CONFUSE_NUM_TURNS,
            };
            &&& confused(o, CONFUSE_NUM_TURNS).ai == Some(start)
            &&& k < CONFUSE_NUM_TURNS ==> after_turns(start, k) == (Ai::Confused {
                previous_ai: Box::new(before),
                remaining_turns: (CONFUSE_NUM_TURNS - k) as i32,
            })
            &&& k == CONFUSE_NUM_TURNS ==> after_turns(start, k) == before
        }),
{
    let before = match o.ai {
        Some(ai) => ai,
        None => Ai::Basic,
    };
    lemma_confusion_wears_off(before, CONFUSE_NUM_TURNS, k);
}

/// Reads a scroll of confusion at the monster `target`, if one was chosen.
pub fn cast_confuse(target: Option<usize>, game: &mut Game, objects: &mut Vec<Object>) -> (result:
    UseResult)
    requires
        target matches Some(id) ==> id < old(objects)@.len(),
    ensures
        views(final(objects)@) == confuse_outcome(views(old(objects)@), old(game)@, target).objects,
        final(game)@ == confuse_outcome(views(old(objects)@), old(game)@, target).game,
        result == confuse_outcome(views(old(objects)@), old(game)@, target).result,
{
    match target {
        Some(monster_id) => {
            let old_ai = match objects[monster_id].ai.take() {
                Some(ai) => ai,
                None => Ai::Basic,
            };
            objects[monster_id].ai = Some(
                Ai::Confused { previous_ai: Box::new(old_ai), remaining_turns: CONFUSE_NUM_TURNS },
            );
            let mut text = String::from_str("The eyes of ");
            text.append(objects[monster_id].name.as_str());
            text.append(" look vacant, as he starts to stumble around!");
            game.messages.add(text, Color::LightGreen);
            assert(game@.messages =~= confuse_outcome(
                views(old(objects)@),
                old(game)@,
                target,
            ).game.messages);
            UseResult::UsedUp
        },
        None => {
            game.messages.add_str("No enemy is close enough to strike.", Color::Red);
            assert(game@.messages =~= old(game)@.messages + seq![
                ("No enemy is close enough to strike."@, Color::Red),
            ]);
            UseResult::Cancelled
        },
    }
}

/// Whether a fireball at `(x, y)` catches `o`: it can fight and is no
/// farther than the radius from there.
pub open spec fn caught(o: ObjectView, x: int, y: int) -> bool {
    o.fighter is Some && distance_sq(o.x as int, o.y as int, x, y) <= FIREBALL_RADIUS
        * FIREBALL_RADIUS
}

/// `o` after a fireball at `(x, y)`: damaged if caught, untouched otherwise.
pub open spec fn scorched(o: ObjectView, x: int, y: int) -> ObjectView {
    if caught(o, x, y) {
        damaged(o, FIREBALL_DAMAGE as int)
    } else {
        o
    }
}

/// The lines logged for `o` by a fireball at `(x, y)`.
pub open spec fn scorch_messages(o: ObjectView, x: int, y: int) -> Seq<(Seq<char>, Color)> {
    if caught(o, x, y) {
        seq![
            (
                "The "@ + o.name + " gets burned for "@ + decimal(FIREBALL_DAMAGE as int)
                    + " hit points."@,
                Color::Orange,
            ),
        ] + damage_messages(o, FIREBALL_DAMAGE as int)
    } else {
        Seq::empty()
    }
}

/// The lines logged for the first `n` entities by a fireball at `(x, y)`.
pub open spec fn burn_log(objects: Seq<ObjectView>, x: int, y: int, n: int) -> Seq<
    (Seq<char>, Color),
>
    decreases n,
{
    if n <= 0 {
        Seq::empty()
    } else {
        burn_log(objects, x, y, n - 1) + scorch_messages(objects[n - 1], x, y)
    }
}

/// The experience that the player gains from those of the first `n`
/// entities that a fireball at `(x, y)` kills. The player's own death yields
/// nothing.
pub open spec fn burn_xp(objects: Seq<ObjectView>, x: int, y: int, n: int) -> int
    decreases n,
{
    if n <= 0 {
        0
    } else {
        burn_xp(objects, x, y, n - 1) + if n - 1 != 0 && caught(objects[n - 1], x, y) && dies(
            objects[n - 1],
            FIREBALL_DAMAGE as int,
        ) {
            objects[n - 1].fighter->0.xp as int
        } else {
            0
        }
    }
}

/// The entities after a fireball at `(x, y)`, before the player banks the
/// experience.
pub open spec fn burnt(objects: Seq<ObjectView>, x: int, y: int) -> Seq<ObjectView> {
    objects.map_values(|o: ObjectView| scorched(o, x, y))
}

/// What reading a scroll of fireball does: every entity that can fight and
/// is within the radius of the tile chosen takes the damage, the player
/// included, and the player gains the experience of the others that die.
/// With no tile chosen nothing happens.
pub open spec fn fireball_outcome(
    objects: Seq<ObjectView>,
    game: GameView,
    target: Option<(i32, i32)>,
) -> Outcome {
    match target {
        Some((x, y)) => {
            let after = burnt(objects, x as int, y as int);
            Outcome {
                objects: after.update(
                    0,
                    with_xp_gain(after[0], burn_xp(objects, x as int, y as int, objects.len() as int)),
                ),
                game: game.with_messages(
                    seq![
                        (
                            "The fireball explodes, burning everything within "@ + decimal(
                                FIREBALL_RADIUS as int,
                            ) + " tiles!"@,
                            Color::Orange,
                        ),
                    ] + burn_log(objects, x as int, y as int, objects.len() as int),
                ),
                result: UseResult::UsedUp,
            }
        },
        None => Outcome { objects, game, result: UseResult::Cancelled },
    }
}

/// Whether the player is still able to fight after a fireball at `target`
/// and can bank the experience of those it kills.
pub open spec fn fireball_fits(objects: Seq<ObjectView>, target: Option<(i32, i32)>) -> bool {
    target matches Some((x, y)) ==> (burnt(objects, x as int, y as int)[0].fighter matches Some(f)
        && i32::MIN <= f.xp + burn_xp(objects, x as int, y as int, objects.len() as int)
        <= i32::MAX)
}

/// Reads a scroll of fireball at the tile `target`, if one was chosen.
pub fn cast_fireball(target: Option<(i32, i32)>, game: &mut Game, objects: &mut Vec<Object>) -> (result:
    UseResult)
    requires
        old(objects)@.len() >= 1,
        fireball_fits(views(old(objects)@), target),
    ensures
        views(final(objects)@) == fireball_outcome(views(old(objects)@), old(game)@, target).objects,
        final(game)@ == fireball_outcome(views(old(objects)@), old(game)@, target).game,
        result == fireball_outcome(views(old(objects)@), old(game)@, target).result,
{
    let (x, y) = match target {
        Some(tile_pos) => tile_pos,
        None => {
            return UseResult::Cancelled;
        },
    };
    let ghost before = views(objects@);
    let mut text = String::from_str("The fireball explodes, burning everything within ");
    push_decimal(&mut text, FIREBALL_RADIUS as i64);
    text.append(" tiles!");
    game.messages.add(text, Color::Orange);
    let ghost announced = game@.messages;
    let mut xp_to_gain: i128 = 0;
    let mut id: usize = 0;
    while id < objects.len()
        invariant
            id <= objects@.len() == before.len(),
            before.len() >= 1,
            forall|j: int|
                0 <= j < id ==> #[trigger] views(objects@)[j] == scorched(
                    before[j],
                    x as int,
                    y as int,
                ),
            forall|j: int| id <= j < before.len() ==> #[trigger] views(objects@)[j] == before[j],
            game@ == (GameView {
                messages: announced + burn_log(before, x as int, y as int, id as int),
                ..old(game)@
            }),
            xp_to_gain == burn_xp(before, x as int, y as int, id as int),
            -0x8000_0000 * id <= xp_to_gain <= 0x8000_0000 * id,
        decreases objects@.len() - id,
    {
        let ghost current = views(objects@);
        assert(current[id as int] == objects@[id as int]@);
        if objects[id].distance_sq(x, y) <= (FIREBALL_RADIUS * FIREBALL_RADIUS) as i128
            && objects[id].fighter.is_some() {
            let mut text = String::from_str("The ");
            text.append(objects[id].name.as_str());
            text.append(" gets burned for ");
            push_decimal(&mut text, FIREBALL_DAMAGE as i64);
            text.append(" hit points.");
            game.messages.add(text, Color::Orange);
            if let Some(xp) = objects[id].take_damage(FIREBALL_DAMAGE as i64, game) {
                if id != PLAYER {
                    xp_to_gain = xp_to_gain + xp as i128;
                }
            }
        }
        assert(views(objects@) =~= current.update(
            id as int,
            scorched(before[id as int], x as int, y as int),
        ));
        assert(game@.messages =~= announced + burn_log(before, x as int, y as int, id as int + 1));
        id += 1;
    }
    let ghost after = views(objects@);
    assert(after =~= burnt(before, x as int, y as int));
    if let Some(fighter) = objects[PLAYER].fighter.as_mut() {
        fighter.xp = (fighter.xp as i128 + xp_to_gain) as i32;
    }
    assert(game@.messages =~= fireball_outcome(before, old(game)@, target).game.messages);
    UseResult::UsedUp
}

/// Whether `o` is worn in `slot`.
pub open spec fn worn_in(o: ObjectView, slot: Slot) -> bool {
    o.equipment matches Some(e) && e.equipped && e.slot == slot
}

/// The first of the first `n` entities of `inventory` that is worn in
/// `slot`.
pub open spec fn first_worn_among(inventory: Seq<ObjectView>, slot: Slot, n: int) -> Option<int>
    decreases n,
{
    if n <= 0 {
        None
    } else {
        match first_worn_among(inventory, slot, n - 1) {
            Some(i) => Some(i),
            None => if worn_in(inventory[n - 1], slot) {
                Some(n - 1)
            } else {
                None
            },
        }
    }
}

/// The first entity of `inventory` that is worn in `slot`.
pub open spec fn first_worn(inventory: Seq<ObjectView>, slot: Slot) -> Option<int> {
    first_worn_among(inventory, slot, inventory.len() as int)
}

/// `first_worn_among` finds an entity exactly when one is worn in the slot,
/// and then none is worn there earlier in the inventory.
pub proof fn lemma_first_worn_among(inventory: Seq<ObjectView>, slot: Slot, n: int)
    requires
        0 <= n <= inventory.len(),
    ensures
        match first_worn_among(inventory, slot, n) {
            Some(i) => 0 <= i < n && worn_in(inventory[i], slot) && forall|j: int|
                0 <= j < i ==> !worn_in(#[trigger] inventory[j], slot),
            None => forall|j: int| 0 <= j < n ==> !worn_in(#[trigger] inventory[j], slot),
        },
    decreases n,
{
    if n > 0 {
        lemma_first_worn_among(inventory, slot, n - 1);
    }
}

/// Once found, the first entity worn in a slot stays the first however far
/// the search goes on.
proof fn lemma_first_worn_from(inventory: Seq<ObjectView>, slot: Slot, i: int, n: int)
    requires
        0 <= i < n <= inventory.len(),
        first_worn_among(inventory, slot, i) is None,
        worn_in(inventory[i], slot),
    ensures
        first_worn_among(inventory, slot, n) == Some(i),
    decreases n,
{
    if n > i + 1 {
        lemma_first_worn_from(inventory, slot, i, n - 1);
    }
}

/// The first item of `inventory` that is worn in `slot`.
pub fn get_equipped_in_slot(slot: Slot, inventory: &Vec<Object>) -> (found: Option<usize>)
    ensures
        match found {
            Some(id) => id < inventory@.len() && first_worn(views(inventory@), slot) == Some(
                id as int,
            ),
            None => first_worn(views(inventory@), slot) is None,
        },
{
    let mut id: usize = 0;
    while id < inventory.len()
        invariant
            id <= inventory.len(),
            first_worn_among(views(inventory@), slot, id as int) is None,
        decreases inventory.len() - id,
    {
        let is_worn = match inventory[id].equipment {
            Some(e) => e.equipped && e.slot == slot,
            None => false,
        };
        if is_worn {
            proof {
                lemma_first_worn_from(views(inventory@), slot, id as int, inventory@.len() as int);
            }
            return Some(id);
        }
        id += 1;
    }
    None
}

/// The inventory after the item at place `id` was put on or taken off: an
/// item that is worn is taken off; one that is not is put on, after whatever
/// was worn in its slot has been taken off.
pub open spec fn toggled(inventory: Seq<ObjectView>, id: int) -> Seq<ObjectView> {
    match inventory[id].equipment {
        Some(e) => if e.equipped {
            inventory.update(id, dequipped(inventory[id]))
        } else {
            let cleared = match first_worn(inventory, e.slot) {
                Some(current) => inventory.update(current, dequipped(inventory[current])),
                None => inventory,
            };
            cleared.update(id, equipped(cleared[id]))
        },
        None => inventory,
    }
}

/// The lines logged when the item at place `id` is put on or taken off.
pub open spec fn toggle_messages(inventory: Seq<ObjectView>, id: int) -> Seq<(Seq<char>, Color)> {
    match inventory[id].equipment {
        Some(e) => if e.equipped {
            dequip_messages(inventory[id])
        } else {
            (match first_worn(inventory, e.slot) {
                Some(current) => dequip_messages(inventory[current]),
                None => Seq::empty(),
            }) + equip_messages(inventory[id])
        },
        None => Seq::empty(),
    }
}

/// Putting an item on or taking it off leaves the inventory as long as it
/// was.
pub proof fn lemma_toggled_len(inventory: Seq<ObjectView>, id: int)
    requires
        0 <= id < inventory.len(),
    ensures
        toggled(inventory, id).len() == inventory.len(),
{
    if let Some(e) = inventory[id].equipment {
        lemma_first_worn_among(inventory, e.slot, inventory.len() as int);
    }
}

/// Puts on the item at place `inventory_id` of the inventory, or takes it
/// off if it is worn. To put it on, whatever is worn in its slot is taken
/// off first. The item is kept either way, also if it is no equipment and
/// nothing happens.
pub fn toggle_equipment(inventory_id: usize, game: &mut Game) -> (result: UseResult)
    requires
        inventory_id < old(game)@.inventory.len(),
    ensures
        final(game)@ == (GameView {
            inventory: toggled(old(game)@.inventory, inventory_id as int),
            messages: old(game)@.messages + toggle_messages(
                old(game)@.inventory,
                inventory_id as int,
            ),
            ..old(game)@
        }),
        result == UseResult::UsedAndKept,
{
    let ghost inventory = views(game.inventory@);
    let equipment = match game.inventory[inventory_id].equipment {
        Some(equipment) => equipment,
        None => {
            return UseResult::UsedAndKept;
        },
    };
    if equipment.equipped {
        game.inventory[inventory_id].dequip(&mut game.messages);
    } else {
        if let Some(current) = get_equipped_in_slot(equipment.slot, &game.inventory) {
            game.inventory[current].dequip(&mut game.messages);
        }
        game.inventory[inventory_id].equip(&mut game.messages);
    }
    assert(game@.inventory =~= toggled(inventory, inventory_id as int));
    assert(game@.messages =~= old(game)@.messages + toggle_messages(inventory, inventory_id as int));
    UseResult::UsedAndKept
}

/// What an item is aimed at.
#[derive(Clone, Copy, Debug, PartialEq, Eq, Structural)]
pub enum Target {
    /// Nothing was chosen, or nothing had to be.
    Nothing,
    /// The monster at this place of the entity list.
    Monster(usize),
    /// The tile at this position.
    Tile(i32, i32),
}

impl Target {
    /// The monster aimed at, if one is.
    pub open spec fn spec_monster(self) -> Option<usize> {
        match self {
            Target::Monster(id) => Some(id),
            _ => None,
        }
    }

    /// The tile aimed at, if one is.
    pub open spec fn spec_tile(self) -> Option<(i32, i32)> {
        match self {
            Target::Tile(x, y) => Some((x, y)),
            _ => None,
        }
    }

    /// The monster aimed at, if one is.
    #[verifier::when_used_as_spec(spec_monster)]
    pub fn monster(self) -> (m: Option<usize>)
        ensures
            m == self.spec_monster(),
    {
        match self {
            Target::Monster(id) => Some(id),
            _ => None,
        }
    }

    /// The tile aimed at, if one is.
    #[verifier::when_used_as_spec(spec_tile)]
    pub fn tile(self) -> (t: Option<(i32, i32)>)
        ensures
            t == self.spec_tile(),
    {
        match self {
            Target::Tile(x, y) => Some((x, y)),
            _ => None,
        }
    }
}

/// What kind of target an item asks for before it is used.
#[derive(Clone, Copy, Debug, PartialEq, Eq, Structural)]
pub enum Aim {
    /// The item needs no target.
    Unaimed,
    /// The item needs a monster no farther than this from the player.
    MonsterWithin(i32),
    /// The item needs a tile, at any distance.
    AnyTile,
}

/// The kind of target that `item` asks for.
pub open spec fn aim_of(item: Option<Item>) -> Aim {
    match item {
        Some(Item::Confuse) => Aim::MonsterWithin(CONFUSE_RANGE),
        Some(Item::Fireball) => Aim::AnyTile,
        _ => Aim::Unaimed,
    }
}

/// The lines logged before the player aims `item`.
pub open spec fn aim_messages(item: Option<Item>) -> Seq<(Seq<char>, Color)> {
    match item {
        Some(Item::Fireball) => seq![
            (
                "Left-click a target tile for the fireball, or right-click to cancel"@,
                Color::LightCyan,
            ),
        ],
        _ => Seq::empty(),
    }
}

/// Says what kind of target the item at place `inventory_id` of the
/// inventory asks for, and logs the prompt that goes with it, if any.
pub fn aim_item(inventory_id: usize, game: &mut Game) -> (aim: Aim)
    requires
        inventory_id < old(game)@.inventory.len(),
    ensures
        aim == aim_of(old(game)@.inventory[inventory_id as int].item),
        final(game)@ == old(game)@.with_messages(
            aim_messages(old(game)@.inventory[inventory_id as int].item),
        ),
{
    assert(game@.inventory[inventory_id as int] == game.inventory@[inventory_id as int]@);
    match game.inventory[inventory_id].item {
        Some(Item::Confuse) => {
            assert(game@.messages =~= old(game)@.messages + Seq::<(Seq<char>, Color)>::empty());
            Aim::MonsterWithin(CONFUSE_RANGE)
        },
        Some(Item::Fireball) => {
            game.messages.add_str(
                "Left-click a target tile for the fireball, or right-click to cancel",
                Color::LightCyan,
            );
            Aim::AnyTile
        },
        _ => {
            Aim::Unaimed
        },
    }
}

/// What the effect of `item` does, before the item is disposed of.
pub open spec fn effect_outcome(
    item: Item,
    objects: Seq<ObjectView>,
    game: GameView,
    fov: Seq<Seq<FovCell>>,
    inventory_id: int,
    target: Target,
) -> Outcome {
    match item {
        Item::Heal => heal_outcome(objects, game),
        Item::Lightning => lightning_outcome(objects, game, fov),
        Item::Confuse => confuse_outcome(objects, game, target.spec_monster()),
        Item::Fireball => fireball_outcome(objects, game, target.spec_tile()),
        Item::Sword | Item::Shield => Outcome {
            objects,
            game: GameView {
                inventory: toggled(game.inventory, inventory_id),
                messages: game.messages + toggle_messages(game.inventory, inventory_id),
                ..game
            },
            result: UseResult::UsedAndKept,
        },
    }
}

/// What using the item at place `inventory_id` of the inventory does: its
/// effect, after which an item used up leaves the inventory, and a use that
/// was cancelled is logged as such. What is no item cannot be used.
pub open spec fn use_outcome(
    objects: Seq<ObjectView>,
    game: GameView,
    fov: Seq<Seq<FovCell>>,
    inventory_id: int,
    target: Target,
) -> Outcome {
    match game.inventory[inventory_id].item {
        Some(item) => {
            let out = effect_outcome(item, objects, game, fov, inventory_id, target);
            match out.result {
                UseResult::UsedUp => Outcome {
                    game: GameView { inventory: out.game.inventory.remove(inventory_id), ..out.game },
                    ..out
                },
                UseResult::UsedAndKept => out,
                UseResult::Cancelled => Outcome {
                    game: out.game.with_messages(seq![("Cancelled"@, Color::White)]),
                    ..out
                },
            }
        },
        None => Outcome {
            objects,
            game: game.with_messages(
                seq![
                    ("The "@ + game.inventory[inventory_id].name + " cannot be used."@, Color::White),
                ],
            ),
            result: UseResult::Cancelled,
        },
    }
}

/// Whether the numbers that the effect of `item` would write fit their
/// fields, and what it is aimed at exists.
pub open spec fn effect_fits(
    item: Item,
    objects: Seq<ObjectView>,
    game: GameView,
    fov: Seq<Seq<FovCell>>,
    target: Target,
) -> bool {
    match item {
        Item::Heal => heal_fits(objects[0], HEAL_AMOUNT as int, game.inventory),
        Item::Lightning => lightning_fits(objects, fov),
        Item::Confuse => target.spec_monster() matches Some(id) ==> id < objects.len(),
        Item::Fireball => fireball_fits(objects, target.spec_tile()),
        Item::Sword | Item::Shield => true,
    }
}

/// Whether the player can be healed by a potion: see `heal_fits`.
fn can_heal(game: &Game, objects: &Vec<Object>) -> (b: bool)
    requires
        game.wf(),
        objects@.len() >= 1,
    ensures
        b == heal_fits(views(objects@)[0], HEAL_AMOUNT as int, game@.inventory),
{
    match objects[PLAYER].fighter {
        Some(f) => {
            let max_hp = objects[PLAYER].max_hp(game);
            let raised: i64 = f.hp as i64 + HEAL_AMOUNT as i64;
            let healed: i64 = if raised > max_hp {
                max_hp
            } else {
                raised
            };
            i32::MIN as i64 <= healed && healed <= i32::MAX as i64
        },
        None => true,
    }
}

/// Whether lightning can strike: see `lightning_fits`.
fn can_strike(fov: &FovMap, objects: &Vec<Object>) -> (b: bool)
    requires
        fov.wf(),
        objects@.len() >= 1,
    ensures
        b == lightning_fits(views(objects@), fov@),
{
    match closest_monster(fov, objects, LIGHTNING_RANGE) {
        Some(id) => {
            match objects[id].fighter {
                Some(m) => {
                    if 0 < m.hp && m.hp <= LIGHTNING_DAMAGE {
                        match objects[PLAYER].fighter {
                            Some(f) => {
                                let sum: i64 = f.xp as i64 + m.xp as i64;
                                i32::MIN as i64 <= sum && sum <= i32::MAX as i64
                            },
                            None => false,
                        }
                    } else {
                        true
                    }
                },
                None => true,
            }
        },
        None => true,
    }
}

/// Whether a fireball can be thrown at `target`: see `fireball_fits`.
fn can_burn(target: Option<(i32, i32)>, objects: &Vec<Object>) -> (b: bool)
    requires
        objects@.len() >= 1,
    ensures
        b == fireball_fits(views(objects@), target),
{
    let (x, y) = match target {
        Some(tile) => tile,
        None => {
            return true;
        },
    };
    let player = &objects[PLAYER];
    let xp: i32 = match player.fighter {
        Some(f) => {
            let caught = player.distance_sq(x, y) <= (FIREBALL_RADIUS * FIREBALL_RADIUS) as i128;
            let gone = caught && 0 < f.hp && f.hp <= FIREBALL_DAMAGE && match f.on_death {
                DeathCallback::Monster => true,
                DeathCallback::Player => false,
            };
            if gone {
                return false;
            }
            f.xp
        },
        None => {
            return false;
        },
    };
    let mut gain: i128 = 0;
    let mut id: usize = 0;
    while id < objects.len()
        invariant
            id <= objects@.len(),
            gain == burn_xp(views(objects@), x as int, y as int, id as int),
            -0x8000_0000 * id <= gain <= 0x8000_0000 * id,
        decreases objects@.len() - id,
    {
        if id != PLAYER {
            match objects[id].fighter {
                Some(f) => {
                    if objects[id].distance_sq(x, y) <= (FIREBALL_RADIUS * FIREBALL_RADIUS) as i128
                        && 0 < f.hp && f.hp <= FIREBALL_DAMAGE {
                        gain = gain + f.xp as i128;
                    }
                },
                None => {},
            }
        }
        id += 1;
    }
    let sum: i128 = xp as i128 + gain;
    i32::MIN as i128 <= sum && sum <= i32::MAX as i128
}

/// Whether the item at place `inventory_id` of the inventory can be used,
/// aimed at `target`: the place is taken, what is aimed at exists, and the
/// numbers that the effect would write fit their fields.
pub fn can_use(
    inventory_id: usize,
    target: Target,
    fov: &FovMap,
    game: &Game,
    objects: &Vec<Object>,
) -> (b: bool)
    requires
        game.wf(),
        fov.wf(),
        objects@.len() >= 1,
    ensures
        b == (inventory_id < game@.inventory.len() && (game@.inventory[inventory_id as int].item matches Some(
            item,
        ) ==> effect_fits(item, views(objects@), game@, fov@, target))),
{
    if inventory_id >= game.inventory.len() {
        return false;
    }
    match game.inventory[inventory_id].item {
        Some(Item::Heal) => can_heal(game, objects),
        Some(Item::Lightning) => can_strike(fov, objects),
        Some(Item::Confuse) => match target.monster() {
            Some(id) => id < objects.len(),
            None => true,
        },
        Some(Item::Fireball) => can_burn(target.tile(), objects),
        Some(Item::Sword) => true,
        Some(Item::Shield) => true,
        None => true,
    }
}

/// Uses the item at place `inventory_id` of the inventory, aimed at
/// `target`.
pub fn use_item(
    inventory_id: usize,
    target: Target,
    fov: &FovMap,
    game: &mut Game,
    objects: &mut Vec<Object>,
)
    requires
        old(game).wf(),
        fov.wf(),
        old(objects)@.len() >= 1,
        inventory_id < old(game)@.inventory.len(),
        old(game)@.inventory[inventory_id as int].item matches Some(item) ==> effect_fits(
            item,
            views(old(objects)@),
            old(game)@,
            fov@,
            target,
        ),
    ensures
        views(final(objects)@) == use_outcome(
            views(old(objects)@),
            old(game)@,
            fov@,
            inventory_id as int,
            target,
        ).objects,
        final(game)@ == use_outcome(
            views(old(objects)@),
            old(game)@,
            fov@,
            inventory_id as int,
            target,
        ).game,
        final(game).wf(),
{
    match game.inventory[inventory_id].item {
        Some(item) => {
            let result = match item {
                Item::Heal => cast_heal(game, objects),
                Item::Lightning => cast_lightning(fov, game, objects),
                Item::Confuse => cast_confuse(target.monster(), game, objects),
                Item::Fireball => cast_fireball(target.tile(), game, objects),
                Item::Sword => toggle_equipment(inventory_id, game),
                Item::Shield => toggle_equipment(inventory_id, game),
            };
            let ghost out = effect_outcome(
                item,
                views(old(objects)@),
                old(game)@,
                fov@,
                inventory_id as int,
                target,
            );
            assert(game@.inventory.len() == old(game)@.inventory.len()) by {
                lemma_toggled_len(old(game)@.inventory, inventory_id as int);
            }
            match result {
                UseResult::UsedUp => {
                    game.inventory.remove(inventory_id);
                    assert(game@.inventory =~= out.game.inventory.remove(inventory_id as int));
                },
                UseResult::UsedAndKept => {},
                UseResult::Cancelled => {
                    game.messages.add_str("Cancelled", Color::White);
                    assert(game@.messages =~= out.game.messages + seq![
                        ("Cancelled"@, Color::White),
                    ]);
                },
            }
        },
        None => {
            let mut text = String::from_str("The ");
            text.append(game.inventory[inventory_id].name.as_str());
            text.append(" cannot be used.");
            game.messages.add(text, Color::White);
            assert(game@.messages =~= old(game)@.messages + seq![
                (
                    "The "@ + old(game)@.inventory[inventory_id as int].name
                        + " cannot be used."@,
                    Color::White,
                ),
            ]);
        },
    }
}

/// The entities after the one at place `id` was taken out: the last takes
/// its place.
pub open spec fn taken_out(objects: Seq<ObjectView>, id: int) -> Seq<ObjectView> {
    objects.update(id, objects.last()).drop_last()
}

/// Whether an item picked up is put on at once: it is equipment, and once
/// it is in the inventory nothing there is worn in its slot.
pub open spec fn put_on_at_once(item: ObjectView, inventory: Seq<ObjectView>) -> bool {
    item.equipment matches Some(e) && first_worn(inventory.push(item), e.slot) is None
}

/// The inventory after `item` was picked up.
pub open spec fn picked_up(item: ObjectView, inventory: Seq<ObjectView>) -> Seq<ObjectView> {
    if put_on_at_once(item, inventory) {
        inventory.push(equipped(item))
    } else {
        inventory.push(item)
    }
}

/// The lines logged when `item` is picked up.
pub open spec fn pick_up_messages(item: ObjectView, inventory: Seq<ObjectView>) -> Seq<
    (Seq<char>, Color),
> {
    seq![("You picked up a "@ + item.name + "!"@, Color::Green)] + if put_on_at_once(
        item,
        inventory,
    ) {
        equip_messages(item)
    } else {
        Seq::empty()
    }
}

/// The entities and the game after the entity at place `id` was to be
/// picked up: with a full inventory only a line is logged; else the entity
/// leaves the level for the inventory.
pub open spec fn pick_up_outcome(objects: Seq<ObjectView>, game: GameView, id: int) -> (
    Seq<ObjectView>,
    GameView,
) {
    if game.inventory.len() >= INVENTORY_CAPACITY {
        (
            objects,
            game.with_messages(
                seq![("Your inventory is full, cannot pick up "@ + objects[id].name, Color::Red)],
            ),
        )
    } else {
        (
            taken_out(objects, id),
            GameView {
                inventory: picked_up(objects[id], game.inventory),
                messages: game.messages + pick_up_messages(objects[id], game.inventory),
                ..game
            },
        )
    }
}

/// Moves the entity at place `object_id` from the level into the inventory,
/// unless the inventory is full. Equipment whose slot is free is put on at
/// once. Either way what happened is logged. The player, first in the list,
/// stays where they are: they cannot be picked up.
pub fn pick_item_up(object_id: usize, game: &mut Game, objects: &mut Vec<Object>)
    requires
        0 < object_id < old(objects)@.len(),
    ensures
        (views(final(objects)@), final(game)@) == pick_up_outcome(
            views(old(objects)@),
            old(game)@,
            object_id as int,
        ),
{
    let ghost item_view = views(objects@)[object_id as int];
    if game.inventory.len() >= INVENTORY_CAPACITY {
        let mut text = String::from_str("Your inventory is full, cannot pick up ");
        text.append(objects[object_id].name.as_str());
        game.messages.add(text, Color::Red);
        assert(game@.messages =~= old(game)@.messages + seq![
            ("Your inventory is full, cannot pick up "@ + item_view.name, Color::Red),
        ]);
    } else {
        let item = objects.swap_remove(object_id);
        let mut text = String::from_str("You picked up a ");
        text.append(item.name.as_str());
        text.append("!");
        game.messages.add(text, Color::Green);
        let index = game.inventory.len();
        let slot = match item.equipment {
            Some(e) => Some(e.slot),
            None => None,
        };
        game.inventory.push(item);
        assert(views(game.inventory@) =~= old(game)@.inventory.push(item_view));
        if let Some(slot) = slot {
            if get_equipped_in_slot(slot, &game.inventory).is_none() {
                game.inventory[index].equip(&mut game.messages);
            }
        }
        assert(game@.inventory =~= picked_up(item_view, old(game)@.inventory));
        assert(game@.messages =~= old(game)@.messages + pick_up_messages(
            item_view,
            old(game)@.inventory,
        ));
    }
}

/// What lies on the floor once `item` was dropped where `player` stands:
/// the item, taken off if it is equipment, at the player's position.
pub open spec fn dropped(item: ObjectView, player: ObjectView) -> ObjectView {
    let off = if item.equipment is Some {
        dequipped(item)
    } else {
        item
    };
    ObjectView { x: player.x, y: player.y, ..off }
}

/// The lines logged when `item` is dropped.
pub open spec fn drop_messages(item: ObjectView) -> Seq<(Seq<char>, Color)> {
    (if item.equipment is Some {
        dequip_messages(item)
    } else {
        Seq::empty()
    }) + seq![("You dropped a "@ + item.name + "."@, Color::Yellow)]
}

/// Moves the item at place `inventory_id` of the inventory to the floor
/// where the player stands. Equipment is taken off first.
pub fn drop_item(inventory_id: usize, game: &mut Game, objects: &mut Vec<Object>)
    requires
        inventory_id < old(game)@.inventory.len(),
        old(objects)@.len() >= 1,
    ensures
        views(final(objects)@) == views(old(objects)@).push(
            dropped(old(game)@.inventory[inventory_id as int], views(old(objects)@)[0]),
        ),
        final(game)@ == (GameView {
            inventory: old(game)@.inventory.remove(inventory_id as int),
            messages: old(game)@.messages + drop_messages(
                old(game)@.inventory[inventory_id as int],
            ),
            ..old(game)@
        }),
{
    let ghost item_view = game@.inventory[inventory_id as int];
    let mut item = game.inventory.remove(inventory_id);
    assert(views(game.inventory@) =~= old(game)@.inventory.remove(inventory_id as int));
    if item.equipment.is_some() {
        item.dequip(&mut game.messages);
    }
    item.set_pos(objects[PLAYER].x, objects[PLAYER].y);
    let mut text = String::from_str("You dropped a ");
    text.append(item.name.as_str());
    text.append(".");
    game.messages.add(text, Color::Yellow);
    objects.push(item);
    assert(game@.messages =~= old(game)@.messages + drop_messages(item_view));
}

/// A fireball at `(x, y)` damages every entity that can fight and stands no
/// farther than the radius from there, the player included, and leaves every
/// other entity as it was; besides, the player banks the experience of the
/// others that die.
pub proof fn lemma_fireball_scope(
    objects: Seq<ObjectView>,
    game: GameView,
    x: i32,
    y: i32,
    i: int,
)
    requires
        0 <= i < objects.len(),
    ensures
        ({
            let after = fireball_outcome(objects, game, Some((x, y))).objects;
            let o = objects[i];
            let within = distance_sq(o.x as int, o.y as int, x as int, y as int)
                <= FIREBALL_RADIUS * FIREBALL_RADIUS;
            let burned = if o.fighter is Some && within {
                damaged(o, FIREBALL_DAMAGE as int)
            } else {
                o
            };
            &&& after.len() == objects.len()
            &&& i > 0 ==> after[i] == burned
            &&& i == 0 ==> after[i] == with_xp_gain(
                burned,
                burn_xp(objects, x as int, y as int, objects.len() as int),
            )
        }),
{
}

/// Whether no two items of `inventory` are worn in the same slot.
pub open spec fn slots_exclusive(inventory: Seq<ObjectView>) -> bool {
    forall|i: int, j: int|
        0 <= i < inventory.len() && 0 <= j < inventory.len() && i != j && worn(
            #[trigger] inventory[i],
        ) && worn(#[trigger] inventory[j]) ==> inventory[i].equipment->0.slot
            != inventory[j].equipment->0.slot
}

/// Whether everything worn in `inventory` is an item.
pub open spec fn worn_are_items(inventory: Seq<ObjectView>) -> bool {
    forall|i: int| 0 <= i < inventory.len() && worn(#[trigger] inventory[i]) ==> inventory[i].item is Some
}

/// Putting on an item that is not worn leaves exactly one item worn in its
/// slot, the item itself, whether or not the slot was taken before; and no
/// two items are worn in the same slot afterwards.
pub proof fn lemma_equip_is_exclusive(inventory: Seq<ObjectView>, id: int)
    requires
        0 <= id < inventory.len(),
        inventory[id].item is Some,
        inventory[id].equipment is Some,
        !worn(inventory[id]),
        slots_exclusive(inventory),
        worn_are_items(inventory),
    ensures
        forall|j: int|
            0 <= j < inventory.len() ==> (worn_in(
                #[trigger] toggled(inventory, id)[j],
                inventory[id].equipment->0.slot,
            ) <==> j == id),
        slots_exclusive(toggled(inventory, id)),
        worn_are_items(toggled(inventory, id)),
{
    lemma_first_worn_among(inventory, inventory[id].equipment->0.slot, inventory.len() as int);
}

/// Picking up an item that is not worn keeps it so that no two items are
/// worn in the same slot.
pub proof fn lemma_pick_up_is_exclusive(item: ObjectView, inventory: Seq<ObjectView>)
    requires
        !worn(item),
        slots_exclusive(inventory),
    ensures
        slots_exclusive(picked_up(item, inventory)),
{
    let after = picked_up(item, inventory);
    let last = inventory.len() as int;
    if put_on_at_once(item, inventory) {
        let slot = item.equipment->0.slot;
        lemma_first_worn_among(inventory.push(item), slot, last + 1);
        assert forall|i: int, j: int|
            0 <= i < after.len() && 0 <= j < after.len() && i != j && worn(#[trigger] after[i])
                && worn(#[trigger] after[j]) implies after[i].equipment->0.slot
            != after[j].equipment->0.slot by {
            if i == last {
                assert(inventory.push(item)[j] == inventory[j]);
            } else if j == last {
                assert(inventory.push(item)[i] == inventory[i]);
            }
        }
    }
}

} // verus!
