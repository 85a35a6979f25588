//! The components that make an entity fight and act.

use crate::color::Color;
use crate::fov::{visible_at, FovCell, FovMap};
use crate::game::{Game, GameView};
use crate::map::{TileMap, PLAYER};
use crate::object::{
    after_attacking, attack_fits, attack_messages, attacked, distance_sq, moved_by, views,
    Object, ObjectView,
};
use crate::rng::random_i32;
use vstd::prelude::*;

verus! {

/// What happens to an entity when its hit points reach zero.
#[derive(Clone, Copy, Debug, PartialEq, Eq, Structural)]
pub enum DeathCallback {
    Player,
    Monster,
}

/// The component of an entity that can fight.
#[derive(Clone, Copy, Debug, PartialEq, Eq, Structural)]
pub struct Fighter {
    pub base_max_hp: i32,
    pub hp: i32,
    pub base_defense: i32,
    pub base_power: i32,
    pub xp: i32,
    pub on_death: DeathCallback,
}

/// The behaviour of a monster. A confused monster keeps the behaviour it had
/// before, to take it up again once the confusion has worn off.
#[derive(Debug, PartialEq, Eq)]
pub enum Ai {
    Basic,
    Confused { previous_ai: Box<Ai>, remaining_turns: i32 },
}

impl Clone for Ai {
    /// A copy of the behaviour, the one set aside included.
    fn clone(&self) -> (r: Ai)
        ensures
            r == *self,
        decreases *self,
    {
        match self {
            Ai::Basic => Ai::Basic,
            Ai::Confused { previous_ai, remaining_turns } => {
                let inner: Ai = (**previous_ai).clone();
                Ai::Confused { previous_ai: Box::new(inner), remaining_turns: *remaining_turns }
            },
        }
    }
}

/// Two entities of one list, to be changed together.
pub fn mut_two<T>(first_index: usize, second_index: usize, items: &mut Vec<T>) -> (pair: (
    &mut T,
    &mut T,
))
    requires
        first_index != second_index,
        first_index < old(items)@.len(),
        second_index < old(items)@.len(),
    ensures
        *pair.0 == old(items)@[first_index as int],
        *pair.1 == old(items)@[second_index as int],
        final(items)@ == old(items)@.update(first_index as int, *final(pair.0)).update(
            second_index as int,
            *final(pair.1),
        ),
{
    if first_index < second_index {
        let (first_slice, second_slice) = items.as_mut_slice().split_at_mut(second_index);
        (&mut first_slice[first_index], &mut second_slice[0])
    } else {
        let (first_slice, second_slice) = items.as_mut_slice().split_at_mut(first_index);
        (&mut second_slice[0], &mut first_slice[second_index])
    }
}

/// The sign of `n`: -1, 0 or 1.
pub open spec fn sign(n: int) -> int {
    if n > 0 {
        1
    } else if n < 0 {
        -1
    } else {
        0
    }
}

/// One coordinate of the step toward a target that lies `d` away along this
/// axis and `other` away along the other: the direction to the target, made
/// a vector of length one, with this coordinate rounded to the nearest whole
/// number. That is a step of one toward the target if `d` makes up at least
/// half of the distance, and none if it makes up less.
pub open spec fn step_toward(d: int, other: int) -> int {
    if 4 * d * d >= d * d + other * other {
        sign(d)
    } else {
        0
    }
}

/// The entity after a step toward `(target_x, target_y)`, unless something
/// stands in the way.
pub open spec fn moved_towards(
    o: ObjectView,
    target_x: int,
    target_y: int,
    map: Seq<Seq<crate::map::Tile>>,
    objects: Seq<ObjectView>,
) -> ObjectView {
    moved_by(
        o,
        step_toward(target_x - o.x, target_y - o.y),
        step_toward(target_y - o.y, target_x - o.x),
        map,
        objects,
    )
}

/// One coordinate of the step toward a target: see `step_toward`.
fn step_component(d: i64, other: i64) -> (s: i32)
    requires
        -0x1_0000_0000 <= d <= 0x1_0000_0000,
        -0x1_0000_0000 <= other <= 0x1_0000_0000,
    ensures
        s == step_toward(d as int, other as int),
{
    let d_wide: i128 = d as i128;
    let other_wide: i128 = other as i128;
    assert(0 <= d_wide * d_wide <= 0x1_0000_0000 * 0x1_0000_0000) by (nonlinear_arith)
        requires
            -0x1_0000_0000 <= d_wide <= 0x1_0000_0000,
    ;
    assert(0 <= other_wide * other_wide <= 0x1_0000_0000 * 0x1_0000_0000) by (nonlinear_arith)
        requires
            -0x1_0000_0000 <= other_wide <= 0x1_0000_0000,
    ;
    let d_sq: i128 = d_wide * d_wide;
    let other_sq: i128 = other_wide * other_wide;
    assert(4 * d * d == 4 * d_sq) by (nonlinear_arith)
        requires
            d_sq == d * d,
    ;
    if 4 * d_sq >= d_sq + other_sq {
        if d > 0 {
            1
        } else if d < 0 {
            -1
        } else {
            0
        }
    } else {
        0
    }
}

/// Moves entity `id` one step toward `(target_x, target_y)`, along the
/// straight line to it, unless something stands in the way.
pub fn move_towards(
    id: usize,
    target_x: i32,
    target_y: i32,
    map: &TileMap,
    objects: &mut Vec<Object>,
)
    requires
        id < old(objects)@.len(),
        map.wf(),
    ensures
        views(final(objects)@) == views(old(objects)@).update(
            id as int,
            moved_towards(
                views(old(objects)@)[id as int],
                target_x as int,
                target_y as int,
                map@,
                views(old(objects)@),
            ),
        ),
{
    let dx: i64 = target_x as i64 - objects[id].x as i64;
    let dy: i64 = target_y as i64 - objects[id].y as i64;
    let step_x = step_component(dx, dy);
    let step_y = step_component(dy, dx);
    Object::move_by(id, step_x, step_y, map, objects);
}

/// The behaviour after one turn: a basic monster stays basic; a confused one
/// has one turn less to go, and with none left takes up the behaviour it had
/// before.
pub open spec fn next_ai(ai: Ai) -> Ai {
    match ai {
        Ai::Basic => Ai::Basic,
        Ai::Confused { previous_ai, remaining_turns } => if remaining_turns <= 1 {
            *previous_ai
        } else {
            Ai::Confused { previous_ai, remaining_turns: (remaining_turns - 1) as i32 }
        },
    }
}

/// What a basic monster at rank `id` does on its turn.
#[derive(Clone, Copy, Debug, PartialEq, Eq, Structural)]
pub enum BasicAction {
    /// Nothing: the monster is out of view, or next to a player that is
    /// dead.
    Idle,
    /// A step toward the player.
    Approach,
    /// An attack on the player.
    Attack,
}

/// What a basic monster at rank `id` does on its turn: out of view nothing;
/// two tiles or more from the player a step toward them; nearer, an attack,
/// if the player has hit points left.
pub open spec fn basic_action(objects: Seq<ObjectView>, fov: Seq<Seq<FovCell>>, id: int) -> BasicAction {
    let monster = objects[id];
    let player = objects[0];
    if !visible_at(fov, monster.x as int, monster.y as int) {
        BasicAction::Idle
    } else if distance_sq(monster.x as int, monster.y as int, player.x as int, player.y as int)
        >= 4 {
        BasicAction::Approach
    } else if player.fighter matches Some(f) && f.hp > 0 {
        BasicAction::Attack
    } else {
        BasicAction::Idle
    }
}

/// The entities and the game after monster `id` has acted on its
/// behaviour `ai`; `dx` and `dy` are the step that a confused monster
/// stumbles.
pub open spec fn acted(
    ai: Ai,
    objects: Seq<ObjectView>,
    game: GameView,
    fov: Seq<Seq<FovCell>>,
    id: int,
    dx: int,
    dy: int,
) -> (Seq<ObjectView>, GameView) {
    let monster = objects[id];
    let player = objects[0];
    match ai {
        Ai::Basic => match basic_action(objects, fov, id) {
            BasicAction::Idle => (objects, game),
            BasicAction::Approach => (
                objects.update(
                    id,
                    moved_towards(monster, player.x as int, player.y as int, game.map, objects),
                ),
                game,
            ),
            BasicAction::Attack => (
                objects.update(id, after_attacking(monster, player, game.inventory)).update(
                    0,
                    attacked(monster, player, game.inventory),
                ),
                game.with_messages(attack_messages(monster, player, game.inventory)),
            ),
        },
        Ai::Confused { previous_ai, remaining_turns } => (
            objects.update(id, moved_by(monster, dx, dy, game.map, objects)),
            if remaining_turns <= 1 {
                game.with_messages(
                    seq![("The "@ + monster.name + " is no longer confused!"@, Color::Red)],
                )
            } else {
                game
            },
        ),
    }
}

/// The entities and the game after the turn of monster `id`: it acts on its
/// behaviour, which then moves on. An entity without behaviour does
/// nothing.
pub open spec fn turn_taken(
    objects: Seq<ObjectView>,
    game: GameView,
    fov: Seq<Seq<FovCell>>,
    id: int,
    dx: int,
    dy: int,
) -> (Seq<ObjectView>, GameView) {
    match objects[id].ai {
        Some(ai) => {
            let (after, game_after) = acted(ai, objects, game, fov, id, dx, dy);
            (after.update(id, ObjectView { ai: Some(next_ai(ai)), ..after[id] }), game_after)
        },
        None => (objects, game),
    }
}

/// Whether the turn of monster `id` can be taken: if it comes to an attack
/// that kills, the monster can bank the experience.
pub open spec fn turn_fits(
    objects: Seq<ObjectView>,
    game: GameView,
    fov: Seq<Seq<FovCell>>,
    id: int,
) -> bool {
    objects[id].ai == Some(Ai::Basic) && basic_action(objects, fov, id) == BasicAction::Attack
        ==> attack_fits(objects[id], objects[0], game.inventory)
}

/// The turn of a basic monster: out of view it does nothing; two tiles or
/// more from the player it steps toward them; nearer, it attacks, if the
/// player has hit points left.
fn ai_basic(monster_id: usize, fov: &FovMap, game: &mut Game, objects: &mut Vec<Object>)
    requires
        0 < monster_id < old(objects)@.len(),
        old(game).wf(),
        fov.wf(),
        basic_action(views(old(objects)@), fov@, monster_id as int) == BasicAction::Attack
            ==> attack_fits(
            views(old(objects)@)[monster_id as int],
            views(old(objects)@)[0],
            old(game)@.inventory,
        ),
    ensures
        final(objects)@.len() == old(objects)@.len(),
        (views(final(objects)@), final(game)@) == acted(
            Ai::Basic,
            views(old(objects)@),
            old(game)@,
            fov@,
            monster_id as int,
            0,
            0,
        ),
        final(game).wf(),
{
    let (monster_x, monster_y) = objects[monster_id].pos();
    if fov.is_in_fov(monster_x, monster_y) {
        if objects[monster_id].distance_sq_to(&objects[PLAYER]) >= 4 {
            let (player_x, player_y) = objects[PLAYER].pos();
            move_towards(monster_id, player_x, player_y, &game.map, objects);
        } else {
            let alive = match objects[PLAYER].fighter {
                Some(f) => f.hp > 0,
                None => false,
            };
            if alive {
                let (monster, player) = mut_two(monster_id, PLAYER, objects);
                monster.attack(player, game);
            }
        }
    }
    assert(views(objects@) =~= acted(
        Ai::Basic,
        views(old(objects)@),
        old(game)@,
        fov@,
        monster_id as int,
        0,
        0,
    ).0);
}

/// The turn of a confused monster: it stumbles by `(dx, dy)` unless
/// something stands in the way, and has one turn less to go; with none left
/// it takes up the behaviour it had before, which is logged.
fn ai_confused(monster_id: usize, dx: i32, dy: i32, game: &mut Game, objects: &mut Vec<Object>)
    requires
        monster_id < old(objects)@.len(),
        old(game).wf(),
        views(old(objects)@)[monster_id as int].ai matches Some(Ai::Confused { .. }),
    ensures
        final(objects)@.len() == old(objects)@.len(),
        forall|fov: Seq<Seq<FovCell>>|
            (views(final(objects)@), final(game)@) == #[trigger] turn_taken(
                views(old(objects)@),
                old(game)@,
                fov,
                monster_id as int,
                dx as int,
                dy as int,
            ),
        final(game).wf(),
{
    let ghost before = views(objects@);
    Object::move_by(monster_id, dx, dy, &game.map, objects);
    match objects[monster_id].ai.take() {
        Some(Ai::Confused { previous_ai, remaining_turns }) => {
            if remaining_turns <= 1 {
                let mut text = String::from_str("The ");
                text.append(objects[monster_id].name.as_str());
                text.append(" is no longer confused!");
                game.messages.add(text, Color::Red);
                assert(game@.messages =~= old(game)@.messages + seq![
                    ("The "@ + before[monster_id as int].name + " is no longer confused!"@, Color::Red),
                ]);
                objects[monster_id].ai = Some(*previous_ai);
            } else {
                objects[monster_id].ai = Some(
                    Ai::Confused { previous_ai, remaining_turns: remaining_turns - 1 },
                );
            }
        },
        _ => {},
    }
}

/// The turn of monster `monster_id`, with `(dx, dy)` as the step that it
/// stumbles if it is confused. It acts on its behaviour, which then moves
/// on; an entity without behaviour does nothing.
pub fn ai_act(
    monster_id: usize,
    dx: i32,
    dy: i32,
    fov: &FovMap,
    game: &mut Game,
    objects: &mut Vec<Object>,
)
    requires
        0 < monster_id < old(objects)@.len(),
        old(game).wf(),
        fov.wf(),
        turn_fits(views(old(objects)@), old(game)@, fov@, monster_id as int),
    ensures
        (views(final(objects)@), final(game)@) == turn_taken(
            views(old(objects)@),
            old(game)@,
            fov@,
            monster_id as int,
            dx as int,
            dy as int,
        ),
        final(objects)@.len() == old(objects)@.len(),
        final(game).wf(),
{
    let confused = match &objects[monster_id].ai {
        Some(Ai::Basic) => Some(false),
        Some(Ai::Confused { .. }) => Some(true),
        None => None,
    };
    match confused {
        Some(false) => ai_basic(monster_id, fov, game, objects),
        Some(true) => ai_confused(monster_id, dx, dy, game, objects),
        None => {},
    }
}

/// The turn of monster `monster_id`. It acts on its behaviour, which then
/// moves on; an entity without behaviour does nothing. A confused monster
/// stumbles one step in a direction drawn at random, which may be no step at
/// all.
pub fn ai_take_turn(
    monster_id: usize,
    fov: &FovMap,
    game: &mut Game,
    objects: &mut Vec<Object>,
    rng: &mut rand::rngs::StdRng,
)
    requires
        0 < monster_id < old(objects)@.len(),
        old(game).wf(),
        fov.wf(),
        turn_fits(views(old(objects)@), old(game)@, fov@, monster_id as int),
    ensures
        exists|dx: int, dy: int|
            -1 <= dx <= 1 && -1 <= dy <= 1 && (views(final(objects)@), final(game)@)
                == #[trigger] turn_taken(
                views(old(objects)@),
                old(game)@,
                fov@,
                monster_id as int,
                dx,
                dy,
            ),
        final(objects)@.len() == old(objects)@.len(),
        final(game).wf(),
{
    let confused = match &objects[monster_id].ai {
        Some(Ai::Confused { .. }) => true,
        _ => false,
    };
    let mut dx: i32 = 0;
    let mut dy: i32 = 0;
    if confused {
        dx = random_i32(rng, -1, 2);
        dy = random_i32(rng, -1, 2);
    }
    ai_act(monster_id, dx, dy, fov, game, objects);
}

/// The behaviour after `turns` turns.
pub open spec fn after_turns(ai: Ai, turns: nat) -> Ai
    decreases turns,
{
    if turns == 0 {
        ai
    } else {
        after_turns(next_ai(ai), (turns - 1) as nat)
    }
}

/// A monster confused for `turns` turns is still confused after fewer turns
/// than that, with as many turns less to go, and after exactly `turns` turns
/// has the behaviour it had before.
pub proof fn lemma_confusion_wears_off(previous: Ai, turns: i32, k: nat)
    requires
        turns >= 1,
        k <= turns,
    ensures
        k < turns ==> after_turns(Ai::Confused { previous_ai: Box::new(previous), remaining_turns: turns }, k)
            == (Ai::Confused { previous_ai: Box::new(previous), remaining_turns: (turns - k) as i32 }),
        k == turns ==> after_turns(
            Ai::Confused { previous_ai: Box::new(previous), remaining_turns: turns },
            k,
        ) == previous,
    decreases k,
{
    if k > 0 {
        if turns > 1 {
            lemma_confusion_wears_off(previous, (turns - 1) as i32, (k - 1) as nat);
        } else {
            assert(after_turns(previous, 0) == previous);
        }
    }
}

/// The turn of a monster moves its behaviour on by one turn, whatever else
/// it does.
pub proof fn lemma_turn_advances_ai(
    objects: Seq<ObjectView>,
    game: GameView,
    fov: Seq<Seq<FovCell>>,
    id: int,
    dx: int,
    dy: int,
)
    requires
        0 < id < objects.len(),
    ensures
        turn_taken(objects, game, fov, id, dx, dy).0[id].ai == match objects[id].ai {
            Some(ai) => Some(next_ai(ai)),
            None => None,
        },
{
}

} // verus!
