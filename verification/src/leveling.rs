//! Progression: experience turns into levels, and each level into one
//! improvement of the player's choice.

use crate::ai::Fighter;
use crate::color::Color;
use crate::game::Game;
use crate::map::PLAYER;
use crate::object::{hp_in_bounds, views, Object, ObjectView};
use crate::text::{decimal, push_decimal};
use vstd::prelude::*;

verus! {

/// The experience that the first level costs, before the factor.
pub const LEVEL_UP_BASE: i32 = 200;

/// What each level already reached adds to the cost of the next.
pub const LEVEL_UP_FACTOR: i32 = 150;

/// The experience that it takes to rise from `level` to the next.
pub open spec fn level_up_xp(level: int) -> int {
    LEVEL_UP_BASE + level * LEVEL_UP_FACTOR
}

/// The experience that `player` has banked; none without a fighter
/// component.
pub open spec fn banked_xp(player: ObjectView) -> int {
    match player.fighter {
        Some(f) => f.xp as int,
        None => 0,
    }
}

/// Whether `player` has the experience to rise a level.
pub open spec fn ready_to_level(player: ObjectView) -> bool {
    banked_xp(player) >= level_up_xp(player.level as int)
}

/// The fighter after the improvement `choice`: 0 adds 20 to the hit points
/// and to their maximum, 1 adds 1 to power, anything else adds 1 to defense.
pub open spec fn improved(f: Fighter, choice: int) -> Fighter {
    if choice == 0 {
        Fighter { base_max_hp: (f.base_max_hp + 20) as i32, hp: (f.hp + 20) as i32, ..f }
    } else if choice == 1 {
        Fighter { base_power: (f.base_power + 1) as i32, ..f }
    } else {
        Fighter { base_defense: (f.base_defense + 1) as i32, ..f }
    }
}

/// The player one level up: the cost of the level is taken off the
/// experience, what is left over stays, and the improvement `choice` is
/// applied.
pub open spec fn leveled(player: ObjectView, choice: int) -> ObjectView {
    match player.fighter {
        Some(f) => ObjectView {
            level: (player.level + 1) as i32,
            fighter: Some(
                improved(
                    Fighter { xp: (f.xp - level_up_xp(player.level as int)) as i32, ..f },
                    choice,
                ),
            ),
            ..player
        },
        None => player,
    }
}

/// Whether the numbers of the player one level up fit their fields.
pub open spec fn level_up_fits(player: ObjectView, choice: int) -> bool {
    match player.fighter {
        Some(f) => {
            &&& player.level + 1 <= i32::MAX
            &&& f.xp - level_up_xp(player.level as int) <= i32::MAX
            &&& choice == 0 ==> f.base_max_hp + 20 <= i32::MAX && f.hp + 20 <= i32::MAX
            &&& choice == 1 ==> f.base_power + 1 <= i32::MAX
            &&& choice == 2 ==> f.base_defense + 1 <= i32::MAX
        },
        None => false,
    }
}

/// The line logged when the player rises from `level`.
pub open spec fn level_up_message(level: int) -> (Seq<char>, Color) {
    ("Your battle skills grow stronger! You reached level "@ + decimal(level + 1), Color::Yellow)
}

/// The three improvements on offer, as shown to the player.
pub open spec fn improvement_texts(f: Fighter) -> Seq<Seq<char>> {
    seq![
        "Constitution (+20 HP, from "@ + decimal(f.base_max_hp as int) + ")"@,
        "Strength (+1 attack, from "@ + decimal(f.base_power as int) + ")"@,
        "Agility (+1 defense, from "@ + decimal(f.base_defense as int) + ")"@,
    ]
}

/// The experience that it takes to rise from `level` to the next.
pub fn level_up_cost(level: i32) -> (cost: i64)
    ensures
        cost == level_up_xp(level as int),
{
    let factor: i64 = LEVEL_UP_FACTOR as i64;
    LEVEL_UP_BASE as i64 + level as i64 * factor
}

/// Whether the player has the experience to rise a level.
pub fn level_up_pending(objects: &Vec<Object>) -> (pending: bool)
    requires
        objects@.len() >= 1,
    ensures
        pending == ready_to_level(views(objects@)[0]),
{
    let player = &objects[PLAYER];
    let xp: i32 = match player.fighter {
        Some(f) => f.xp,
        None => 0,
    };
    xp as i64 >= level_up_cost(player.level)
}

/// The three improvements on offer, as shown to the player in the order in
/// which `level_up` counts them. Empty if the player cannot fight.
pub fn level_up_options(objects: &Vec<Object>) -> (options: Vec<String>)
    requires
        objects@.len() >= 1,
    ensures
        options@.map_values(|s: String| s@) == match views(objects@)[0].fighter {
            Some(f) => improvement_texts(f),
            None => Seq::empty(),
        },
{
    let mut options: Vec<String> = Vec::new();
    match objects[PLAYER].fighter {
        Some(f) => {
            let mut constitution = String::from_str("Constitution (+20 HP, from ");
            push_decimal(&mut constitution, f.base_max_hp as i64);
            constitution.append(")");
            options.push(constitution);
            let mut strength = String::from_str("Strength (+1 attack, from ");
            push_decimal(&mut strength, f.base_power as i64);
            strength.append(")");
            options.push(strength);
            let mut agility = String::from_str("Agility (+1 defense, from ");
            push_decimal(&mut agility, f.base_defense as i64);
            agility.append(")");
            options.push(agility);
        },
        None => {
        },
    }
    options
}

/// Whether `level_up` can be called with `choice`: it is one of the three
/// improvements, and if the player is to rise, the numbers of the player one
/// level up fit their fields.
pub fn can_level_up(choice: usize, objects: &Vec<Object>) -> (b: bool)
    requires
        objects@.len() >= 1,
    ensures
        b == (choice < 3 && (ready_to_level(views(objects@)[0]) ==> level_up_fits(
            views(objects@)[0],
            choice as int,
        ))),
{
    if choice >= 3 {
        return false;
    }
    if !level_up_pending(objects) {
        return true;
    }
    let player = &objects[PLAYER];
    match player.fighter {
        Some(f) => {
            let cost = level_up_cost(player.level);
            player.level < i32::MAX && f.xp as i64 - cost <= i32::MAX as i64 && (choice != 0 || (
            f.base_max_hp <= i32::MAX - 20 && f.hp <= i32::MAX - 20)) && (choice != 1
                || f.base_power < i32::MAX) && (choice != 2 || f.base_defense < i32::MAX)
        },
        None => false,
    }
}

/// Raises the player a level if the banked experience reaches the cost of
/// the next one: the cost is taken off the experience, the rise is logged,
/// and the improvement `choice` is applied. With less experience nothing
/// changes.
pub fn level_up(choice: usize, game: &mut Game, objects: &mut Vec<Object>)
    requires
        old(objects)@.len() >= 1,
        choice < 3,
        ready_to_level(views(old(objects)@)[0]) ==> level_up_fits(
            views(old(objects)@)[0],
            choice as int,
        ),
    ensures
        ready_to_level(views(old(objects)@)[0]) ==> {
            &&& views(final(objects)@) == views(old(objects)@).update(
                0,
                leveled(views(old(objects)@)[0], choice as int),
            )
            &&& final(game)@ == old(game)@.with_messages(
                seq![level_up_message(views(old(objects)@)[0].level as int)],
            )
        },
        !ready_to_level(views(old(objects)@)[0]) ==> {
            &&& views(final(objects)@) == views(old(objects)@)
            &&& final(game)@ == old(game)@
        },
{
    if level_up_pending(objects) {
        let cost = level_up_cost(objects[PLAYER].level);
        let player = &mut objects[PLAYER];
        player.level = player.level + 1;
        let mut text = String::from_str("Your battle skills grow stronger! You reached level ");
        push_decimal(&mut text, player.level as i64);
        game.messages.add(text, Color::Yellow);
        if let Some(fighter) = player.fighter.as_mut() {
            fighter.xp = (fighter.xp as i64 - cost) as i32;
            if choice == 0 {
                fighter.base_max_hp = fighter.base_max_hp + 20;
                fighter.hp = fighter.hp + 20;
            } else if choice == 1 {
                fighter.base_power = fighter.base_power + 1;
            } else {
                fighter.base_defense = fighter.base_defense + 1;
            }
        }
        assert(game@.messages =~= old(game)@.messages + seq![
            level_up_message(views(old(objects)@)[0].level as int),
        ]);
    }
}

/// With exactly the experience that the next level costs the player rises
/// and keeps none; with one less they do not rise; with more they rise and
/// keep what is over, the cost of one level taken off.
pub proof fn lemma_level_up_xp(player: ObjectView, choice: int)
    requires
        player.fighter is Some,
        level_up_fits(player, choice),
    ensures
        ({
            let xp = player.fighter->0.xp as int;
            let cost = level_up_xp(player.level as int);
            &&& ready_to_level(player) <==> xp >= cost
            &&& xp == cost - 1 ==> !ready_to_level(player)
            &&& xp >= cost ==> leveled(player, choice).fighter->0.xp == xp - cost && leveled(
                player,
                choice,
            ).level == player.level + 1
            &&& xp == cost ==> leveled(player, choice).fighter->0.xp == 0
        }),
{
}

/// Rising a level keeps the hit points within their bounds, whichever
/// improvement is taken.
pub proof fn lemma_level_up_keeps_hp_in_bounds(
    player: ObjectView,
    choice: int,
    inventory: Seq<ObjectView>,
)
    requires
        hp_in_bounds(player, inventory),
        level_up_fits(player, choice),
    ensures
        hp_in_bounds(leveled(player, choice), inventory),
{
}

} // verus!
