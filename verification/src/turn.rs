//! The turn: what the player's input asks for, the player's move or
//! attack, and the monsters' answer.

use crate::ai::{ai_take_turn, mut_two, turn_taken, Ai};
use crate::fov::{visible_at, FovCell, FovMap};
use crate::game::{Game, GameView};
use crate::item::{pick_item_up, pick_up_outcome};
use crate::object::{attack_damage, distance_sq, effective, Stat};
use crate::map::PLAYER;
use crate::object::{
    after_attacking, attack_fits, attack_messages, attacked, blocked_at, is_blocked, moved_by,
    views, Object, ObjectView, PlayerAction,
};
use vstd::prelude::*;

verus! {

/// The keys that the engine tells apart.
#[derive(Clone, Copy, Debug, PartialEq, Eq, Structural)]
pub enum KeyCode {
    Up,
    Down,
    Left,
    Right,
    Enter,
    Escape,
    Text,
    Other,
}

/// A key press: the key, whether Alt was held, and the character typed, if
/// the key types one.
#[derive(Clone, Copy, Debug, PartialEq, Eq, Structural)]
pub struct Key {
    pub code: KeyCode,
    pub alt: bool,
    pub printable: char,
}

/// What a key press asks for.
#[derive(Clone, Copy, Debug, PartialEq, Eq, Structural)]
pub enum Command {
    /// Move or attack by this much along each axis.
    Step(i32, i32),
    /// Choose an item of the inventory and drop it.
    Drop,
    /// Pick up what lies where the player stands.
    PickUp,
    /// Choose an item of the inventory and use it.
    UseItem,
    /// Switch between the window and the full screen.
    ToggleFullscreen,
    /// Leave the game.
    Exit,
    /// Nothing.
    Nothing,
}

/// What `key` asks for. A dead player can neither move nor handle items.
pub open spec fn command_for(key: Key, player_alive: bool) -> Command {
    if player_alive && key.code == KeyCode::Up {
        Command::Step(0, -1i32)
    } else if player_alive && key.code == KeyCode::Down {
        Command::Step(0, 1)
    } else if player_alive && key.code == KeyCode::Left {
        Command::Step(-1i32, 0)
    } else if player_alive && key.code == KeyCode::Right {
        Command::Step(1, 0)
    } else if player_alive && key.code == KeyCode::Text && key.printable == 'd' {
        Command::Drop
    } else if player_alive && key.code == KeyCode::Text && key.printable == 'g' {
        Command::PickUp
    } else if player_alive && key.code == KeyCode::Text && key.printable == 'i' {
        Command::UseItem
    } else if key.code == KeyCode::Enter && key.alt {
        Command::ToggleFullscreen
    } else if key.code == KeyCode::Escape {
        Command::Exit
    } else {
        Command::Nothing
    }
}

/// What `key` asks for. A dead player can neither move nor handle items.
pub fn handle_keys(key: Key, player_alive: bool) -> (command: Command)
    ensures
        command == command_for(key, player_alive),
{
    match (key.code, player_alive) {
        (KeyCode::Up, true) => Command::Step(0, -1),
        (KeyCode::Down, true) => Command::Step(0, 1),
        (KeyCode::Left, true) => Command::Step(-1, 0),
        (KeyCode::Right, true) => Command::Step(1, 0),
        (KeyCode::Text, true) => {
            if key.printable == 'd' {
                Command::Drop
            } else if key.printable == 'g' {
                Command::PickUp
            } else if key.printable == 'i' {
                Command::UseItem
            } else {
                Command::Nothing
            }
        },
        (KeyCode::Enter, _) => {
            if key.alt {
                Command::ToggleFullscreen
            } else {
                Command::Nothing
            }
        },
        (KeyCode::Escape, _) => Command::Exit,
        _ => Command::Nothing,
    }
}

/// Whether entity `i` of `objects` can fight and stands at `(x, y)`.
pub open spec fn fighter_on(objects: Seq<ObjectView>, x: int, y: int, i: int) -> bool {
    0 <= i < objects.len() && objects[i].fighter is Some && objects[i].x == x && objects[i].y == y
}

/// The first of the first `n` entities that can fight and stands at
/// `(x, y)`.
pub open spec fn first_fighter_among(objects: Seq<ObjectView>, x: int, y: int, n: int) -> Option<
    int,
>
    decreases n,
{
    if n <= 0 {
        None
    } else {
        match first_fighter_among(objects, x, y, n - 1) {
            Some(i) => Some(i),
            None => if fighter_on(objects, x, y, n - 1) {
                Some(n - 1)
            } else {
                None
            },
        }
    }
}

/// The first entity that can fight and stands at `(x, y)`.
pub open spec fn first_fighter_at(objects: Seq<ObjectView>, x: int, y: int) -> Option<int> {
    first_fighter_among(objects, x, y, objects.len() as int)
}

/// `first_fighter_among` finds an entity exactly when one that can fight
/// stands there, and then none stands there earlier in the list.
pub proof fn lemma_first_fighter_among(objects: Seq<ObjectView>, x: int, y: int, n: int)
    requires
        0 <= n <= objects.len(),
    ensures
        match first_fighter_among(objects, x, y, n) {
            Some(i) => 0 <= i < n && fighter_on(objects, x, y, i) && forall|j: int|
                0 <= j < i ==> !#[trigger] fighter_on(objects, x, y, j),
            None => forall|j: int| 0 <= j < n ==> !#[trigger] fighter_on(objects, x, y, j),
        },
    decreases n,
{
    if n > 0 {
        lemma_first_fighter_among(objects, x, y, n - 1);
    }
}

/// Once found, the first fighter on a tile stays the first however far the
/// search goes on.
proof fn lemma_first_fighter_from(objects: Seq<ObjectView>, x: int, y: int, i: int, n: int)
    requires
        0 <= i < n <= objects.len(),
        first_fighter_among(objects, x, y, i) is None,
        fighter_on(objects, x, y, i),
    ensures
        first_fighter_among(objects, x, y, n) == Some(i),
    decreases n,
{
    if n > i + 1 {
        lemma_first_fighter_from(objects, x, y, i, n - 1);
    }
}

/// The first entity that can fight and stands at `(x, y)`.
pub fn fighter_at(x: i64, y: i64, objects: &Vec<Object>) -> (found: Option<usize>)
    ensures
        match found {
            Some(id) => id < objects@.len() && first_fighter_at(
                views(objects@),
                x as int,
                y as int,
            ) == Some(id as int),
            None => first_fighter_at(views(objects@), x as int, y as int) is None,
        },
{
    let mut id: usize = 0;
    while id < objects.len()
        invariant
            id <= objects.len(),
            first_fighter_among(views(objects@), x as int, y as int, id as int) is None,
        decreases objects.len() - id,
    {
        if objects[id].fighter.is_some() && objects[id].x as i64 == x && objects[id].y as i64
            == y {
            proof {
                lemma_first_fighter_from(
                    views(objects@),
                    x as int,
                    y as int,
                    id as int,
                    objects@.len() as int,
                );
            }
            return Some(id);
        }
        id += 1;
    }
    None
}

/// The entities and the game after the player tried to step by `(dx, dy)`,
/// and what the try amounted to: an attack on the first fighter standing
/// there, which takes the turn; else a move, which takes the turn unless
/// something stood in the way.
pub open spec fn player_stepped(
    objects: Seq<ObjectView>,
    game: GameView,
    dx: int,
    dy: int,
) -> (Seq<ObjectView>, GameView, PlayerAction) {
    let player = objects[0];
    match first_fighter_at(objects, player.x + dx, player.y + dy) {
        Some(target) => (
            objects.update(0, after_attacking(player, objects[target], game.inventory)).update(
                target,
                attacked(player, objects[target], game.inventory),
            ),
            game.with_messages(attack_messages(player, objects[target], game.inventory)),
            PlayerAction::TookTurn,
        ),
        None => (
            objects.update(0, moved_by(player, dx, dy, game.map, objects)),
            game,
            if blocked_at(player.x + dx, player.y + dy, game.map, objects) {
                PlayerAction::DidntTakeTurn
            } else {
                PlayerAction::TookTurn
            },
        ),
    }
}

/// Whether the player's step by `(dx, dy)` can be taken: it does not aim at
/// the player's own tile, and if it comes to an attack that kills, the
/// player can bank the experience.
pub open spec fn step_fits(objects: Seq<ObjectView>, game: GameView, dx: int, dy: int) -> bool {
    match first_fighter_at(objects, objects[0].x + dx, objects[0].y + dy) {
        Some(target) => target != 0 && attack_fits(objects[0], objects[target], game.inventory),
        None => true,
    }
}

/// Whether the player's step by `(dx, dy)` can be taken.
pub fn can_step(dx: i32, dy: i32, game: &Game, objects: &Vec<Object>) -> (b: bool)
    requires
        objects@.len() >= 1,
        game.wf(),
    ensures
        b == step_fits(views(objects@), game@, dx as int, dy as int),
{
    let x: i64 = objects[PLAYER].x as i64 + dx as i64;
    let y: i64 = objects[PLAYER].y as i64 + dy as i64;
    match fighter_at(x, y, objects) {
        Some(target) => {
            target != PLAYER && objects[PLAYER].can_attack(&objects[target], game)
        },
        None => true,
    }
}

/// The player steps by `(dx, dy)`: onto a tile where a fighter stands, that
/// is an attack on the first such fighter; else it is a move, if nothing
/// stands in the way. An attack or a move takes the turn; a step that was
/// blocked does not.
pub fn player_move_or_attack(dx: i32, dy: i32, game: &mut Game, objects: &mut Vec<Object>) -> (action:
    PlayerAction)
    requires
        old(objects)@.len() >= 1,
        old(game).wf(),
        step_fits(views(old(objects)@), old(game)@, dx as int, dy as int),
    ensures
        (views(final(objects)@), final(game)@, action) == player_stepped(
            views(old(objects)@),
            old(game)@,
            dx as int,
            dy as int,
        ),
        final(objects)@.len() == old(objects)@.len(),
        final(game).wf(),
{
    let x: i64 = objects[PLAYER].x as i64 + dx as i64;
    let y: i64 = objects[PLAYER].y as i64 + dy as i64;
    let target_id = fighter_at(x, y, objects);
    match target_id {
        Some(target_id) => {
            let (player, target) = mut_two(PLAYER, target_id, objects);
            player.attack(target, game);
            PlayerAction::TookTurn
        },
        None => {
            let blocked = if x < i32::MIN as i64 || x > i32::MAX as i64 || y < i32::MIN as i64 || y
                > i32::MAX as i64 {
                true
            } else {
                is_blocked(x as i32, y as i32, &game.map, objects)
            };
            Object::move_by(PLAYER, dx, dy, &game.map, objects);
            if blocked {
                PlayerAction::DidntTakeTurn
            } else {
                PlayerAction::TookTurn
            }
        },
    }
}

/// Whether entity `i` stands where a basic monster attacks from: it is
/// alive, in view, and less than two tiles from the player.
pub open spec fn poised(objects: Seq<ObjectView>, fov: Seq<Seq<FovCell>>, i: int) -> bool {
    &&& objects[i].alive
    &&& visible_at(fov, objects[i].x as int, objects[i].y as int)
    &&& distance_sq(
        objects[i].x as int,
        objects[i].y as int,
        objects[0].x as int,
        objects[0].y as int,
    ) < 4
}

/// Whether every basic monster that is poised to attack, and whose attack
/// could hurt the player, can bank the player's experience: it can fight,
/// and the sum fits. Nothing is asked of the monsters that are out of view
/// or farther away: they do not attack this turn.
pub open spec fn phase_fits(objects: Seq<ObjectView>, game: GameView, fov: Seq<Seq<FovCell>>) -> bool {
    forall|i: int|
        0 < i < objects.len() && (#[trigger] objects[i]).ai == Some(Ai::Basic) && poised(
            objects,
            fov,
            i,
        ) && attack_damage(objects[i], objects[0], game.inventory) > 0 ==> (
        objects[i].fighter matches Some(f) && (objects[0].fighter matches Some(p) ==> i32::MIN
            <= f.xp + p.xp <= i32::MAX))
}

/// Whether the monsters can answer: see `phase_fits`.
pub fn monsters_can_answer(fov: &FovMap, game: &Game, objects: &Vec<Object>) -> (b: bool)
    requires
        objects@.len() >= 1,
        game.wf(),
        fov.wf(),
    ensures
        b == phase_fits(views(objects@), game@, fov@),
{
    let defense = objects[PLAYER].defense(game);
    let mut i: usize = 1;
    while i < objects.len()
        invariant
            1 <= i <= objects@.len(),
            game.wf(),
            fov.wf(),
            defense == effective(views(objects@)[0], game@.inventory, Stat::Defense),
            -0x8000_0000 * 27 <= defense <= 0x8000_0000 * 27,
            forall|k: int|
                0 < k < i && (#[trigger] views(objects@)[k]).ai == Some(Ai::Basic) && poised(
                    views(objects@),
                    fov@,
                    k,
                ) && attack_damage(views(objects@)[k], views(objects@)[0], game@.inventory) > 0
                    ==> (views(objects@)[k].fighter matches Some(f) && (views(
                    objects@,
                )[0].fighter matches Some(p) ==> i32::MIN <= f.xp + p.xp <= i32::MAX)),
        decreases objects@.len() - i,
    {
        assert(views(objects@)[i as int] == objects@[i as int]@);
        let monster = &objects[i];
        let basic = match &monster.ai {
            Some(Ai::Basic) => true,
            _ => false,
        };
        if basic && monster.alive && fov.is_in_fov(monster.x, monster.y)
            && monster.distance_sq_to(&objects[PLAYER]) < 4 && monster.power(game) - defense > 0 {
            let fits = match monster.fighter {
                Some(f) => match objects[PLAYER].fighter {
                    Some(p) => {
                        let sum: i64 = f.xp as i64 + p.xp as i64;
                        i32::MIN as i64 <= sum && sum <= i32::MAX as i64
                    },
                    None => true,
                },
                None => false,
            };
            if !fits {
                return false;
            }
        }
        i += 1;
    }
    true
}

/// The entities and the game after entity `id` has had its place in the
/// monsters' answer: it takes its turn if it is alive, and none if it is
/// not.
pub open spec fn monster_answered(
    objects: Seq<ObjectView>,
    game: GameView,
    fov: Seq<Seq<FovCell>>,
    id: int,
    dx: int,
    dy: int,
) -> (Seq<ObjectView>, GameView) {
    if objects[id].alive {
        turn_taken(objects, game, fov, id, dx, dy)
    } else {
        (objects, game)
    }
}

/// Whether `objects` and `game` can be what the monsters before rank `n`
/// make of `start` and `start_game` when each in turn, in list order, takes
/// its turn; the player, first in the list, takes none here.
pub open spec fn phase_upto(
    start: Seq<ObjectView>,
    start_game: GameView,
    fov: Seq<Seq<FovCell>>,
    n: int,
    objects: Seq<ObjectView>,
    game: GameView,
) -> bool
    decreases n,
{
    if n <= 1 {
        objects == start && game == start_game
    } else {
        exists|mid: Seq<ObjectView>, mid_game: GameView, dx: int, dy: int|
            phase_upto(start, start_game, fov, n - 1, mid, mid_game) && -1 <= dx <= 1 && -1 <= dy
                <= 1 && (objects, game) == #[trigger] monster_answered(
                mid,
                mid_game,
                fov,
                n - 1,
                dx,
                dy,
            )
    }
}

/// What the monsters' answer to the player's `action` can make of the
/// entities and the game: nothing unless the player took a turn and is
/// alive; else what the monsters make of them, each taking its turn.
pub open spec fn monsters_answered(
    action: PlayerAction,
    start: Seq<ObjectView>,
    start_game: GameView,
    fov: Seq<Seq<FovCell>>,
    objects: Seq<ObjectView>,
    game: GameView,
) -> bool {
    if action == PlayerAction::TookTurn && start[0].alive {
        phase_upto(start, start_game, fov, start.len() as int, objects, game)
    } else {
        objects == start && game == start_game
    }
}

/// What the player keeps through a monster's turn, as far as the monsters
/// after it depend on it.
pub open spec fn player_kept(before: ObjectView, after: ObjectView) -> bool {
    &&& after.x == before.x
    &&& after.y == before.y
    &&& after.fighter matches Some(p2) ==> (before.fighter matches Some(p) && p2.xp == p.xp
        && p2.base_defense == p.base_defense && after.name == before.name)
}

/// The turn of monster `id` leaves the list as long as it was, touches no
/// entity but the monster itself and the player, leaves the player where
/// they stand, and leaves the player's experience, defense and name alone as
/// long as the player can fight; the map, the inventory and the depth of the
/// game stay as they were.
pub proof fn lemma_turn_frame(
    objects: Seq<ObjectView>,
    game: GameView,
    fov: Seq<Seq<FovCell>>,
    id: int,
    dx: int,
    dy: int,
)
    requires
        0 < id < objects.len(),
    ensures
        ({
            let (after, game_after) = turn_taken(objects, game, fov, id, dx, dy);
            &&& after.len() == objects.len()
            &&& forall|j: int| 0 < j < objects.len() && j != id ==> #[trigger] after[j] == objects[j]
            &&& player_kept(objects[0], after[0])
            &&& game_after.inventory == game.inventory
            &&& game_after.map == game.map
            &&& game_after.dungeon_level == game.dungeon_level
        }),
{
}

/// The monsters' answer to the player's `action`. Unless the player took a
/// turn and is alive, nothing happens. Else every entity after the player
/// that is alive and has a behaviour takes its turn, in list order.
pub fn monsters_take_turn(
    action: PlayerAction,
    fov: &FovMap,
    game: &mut Game,
    objects: &mut Vec<Object>,
    rng: &mut rand::rngs::StdRng,
)
    requires
        old(objects)@.len() >= 1,
        old(game).wf(),
        fov.wf(),
        action == PlayerAction::TookTurn && views(old(objects)@)[0].alive ==> phase_fits(
            views(old(objects)@),
            old(game)@,
            fov@,
        ),
    ensures
        monsters_answered(
            action,
            views(old(objects)@),
            old(game)@,
            fov@,
            views(final(objects)@),
            final(game)@,
        ),
        final(objects)@.len() == old(objects)@.len(),
        final(game).wf(),
{
    let ghost start = views(objects@);
    let ghost start_game = game@;
    let took_turn = match action {
        PlayerAction::TookTurn => true,
        _ => false,
    };
    if objects[PLAYER].alive && took_turn {
        let mut id: usize = 1;
        while id < objects.len()
            invariant
                1 <= id <= objects@.len() == start.len(),
                game.wf(),
                fov.wf(),
                phase_fits(start, start_game, fov@),
                phase_upto(start, start_game, fov@, id as int, views(objects@), game@),
                forall|j: int| id <= j < start.len() ==> #[trigger] views(objects@)[j] == start[j],
                player_kept(start[0], views(objects@)[0]),
                game@.inventory == start_game.inventory,
            decreases objects@.len() - id,
        {
            let ghost mid = views(objects@);
            let ghost mid_game = game@;
            let ghost mut dx: int = 0;
            let ghost mut dy: int = 0;
            if objects[id].alive {
                ai_take_turn(id, fov, game, objects, rng);
                proof {
                    let drawn = choose|a: int, b: int|
                        -1 <= a <= 1 && -1 <= b <= 1 && (views(objects@), game@)
                            == #[trigger] turn_taken(mid, mid_game, fov@, id as int, a, b);
                    dx = drawn.0;
                    dy = drawn.1;
                }
            }
            proof {
                let n = id as int + 1;
                assert((views(objects@), game@) == monster_answered(
                    mid,
                    mid_game,
                    fov@,
                    n - 1,
                    dx,
                    dy,
                ));
            }
            id += 1;
        }
    }
}

/// Whether entity `i` of `objects` is an item lying where the player
/// stands. The player is no item.
pub open spec fn item_here(objects: Seq<ObjectView>, i: int) -> bool {
    0 < i < objects.len() && objects[i].item is Some && objects[i].x == objects[0].x
        && objects[i].y == objects[0].y
}

/// The first of the first `n` entities that is an item lying where the
/// player stands.
pub open spec fn first_item_among(objects: Seq<ObjectView>, n: int) -> Option<int>
    decreases n,
{
    if n <= 0 {
        None
    } else {
        match first_item_among(objects, n - 1) {
            Some(i) => Some(i),
            None => if item_here(objects, n - 1) {
                Some(n - 1)
            } else {
                None
            },
        }
    }
}

/// `first_item_among` finds an entity exactly when an item lies where the
/// player stands, and then none lies there earlier in the list.
pub proof fn lemma_first_item_among(objects: Seq<ObjectView>, n: int)
    requires
        0 <= n <= objects.len(),
    ensures
        match first_item_among(objects, n) {
            Some(i) => 0 <= i < n && item_here(objects, i) && forall|j: int|
                0 <= j < i ==> !#[trigger] item_here(objects, j),
            None => forall|j: int| 0 <= j < n ==> !#[trigger] item_here(objects, j),
        },
    decreases n,
{
    if n > 0 {
        lemma_first_item_among(objects, n - 1);
    }
}

/// Once found, the first item under the player stays the first however far
/// the search goes on.
proof fn lemma_first_item_from(objects: Seq<ObjectView>, i: int, n: int)
    requires
        0 <= i < n <= objects.len(),
        first_item_among(objects, i) is None,
        item_here(objects, i),
    ensures
        first_item_among(objects, n) == Some(i),
    decreases n,
{
    if n > i + 1 {
        lemma_first_item_from(objects, i, n - 1);
    }
}

/// The first item that lies where the player stands.
pub fn item_under_player(objects: &Vec<Object>) -> (found: Option<usize>)
    requires
        objects@.len() >= 1,
    ensures
        match found {
            Some(id) => 0 < id < objects@.len() && first_item_among(
                views(objects@),
                objects@.len() as int,
            ) == Some(id as int),
            None => first_item_among(views(objects@), objects@.len() as int) is None,
        },
{
    let mut id: usize = 0;
    while id < objects.len()
        invariant
            id <= objects.len(),
            objects@.len() >= 1,
            first_item_among(views(objects@), id as int) is None,
        decreases objects.len() - id,
    {
        if id != PLAYER && objects[id].x == objects[PLAYER].x && objects[id].y
            == objects[PLAYER].y && objects[id].item.is_some() {
            proof {
                lemma_first_item_from(views(objects@), id as int, objects@.len() as int);
            }
            return Some(id);
        }
        id += 1;
    }
    None
}

/// The player picks up the first item that lies where they stand, if there
/// is one. This takes no turn.
pub fn pick_up(game: &mut Game, objects: &mut Vec<Object>) -> (action: PlayerAction)
    requires
        old(objects)@.len() >= 1,
    ensures
        action == PlayerAction::DidntTakeTurn,
        (views(final(objects)@), final(game)@) == match first_item_among(
            views(old(objects)@),
            old(objects)@.len() as int,
        ) {
            Some(id) => pick_up_outcome(views(old(objects)@), old(game)@, id),
            None => (views(old(objects)@), old(game)@),
        },
{
    if let Some(item_id) = item_under_player(objects) {
        pick_item_up(item_id, game, objects);
    }
    PlayerAction::DidntTakeTurn
}

} // verus!
