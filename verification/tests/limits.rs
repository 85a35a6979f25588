use roguelike::ai::{Ai, DeathCallback, Fighter};
use roguelike::color::Color;
use roguelike::fov::FovMap;
use roguelike::game::Game;
use roguelike::item::{can_use, Item, Target};
use roguelike::leveling::can_level_up;
use roguelike::log::Messages;
use roguelike::map::{Tile, TileMap, MAP_HEIGHT, MAP_WIDTH};
use roguelike::object::Object;
use roguelike::population::{make_item, make_monster, MonsterKind};
use roguelike::turn::{can_step, monsters_can_answer};

fn plain() -> Game {
    let mut map = TileMap::new();
    for x in 1..MAP_WIDTH - 1 {
        for y in 1..MAP_HEIGHT - 1 {
            map.set_tile(x, y, Tile::empty());
        }
    }
    Game { map, messages: Messages::new(), inventory: vec![], dungeon_level: 1 }
}

fn lit() -> FovMap {
    let mut fov = FovMap::new();
    for x in 0..MAP_WIDTH {
        for y in 0..MAP_HEIGHT {
            fov.set_in_fov(x, y, true);
        }
    }
    fov
}

fn veteran(x: i32, y: i32, xp: i32) -> Object {
    let mut p = Object::new(x, y, '@', "Player", Color::White, true);
    p.alive = true;
    p.fighter = Some(Fighter {
        base_max_hp: 30,
        hp: 30,
        base_defense: 2,
        base_power: 5,
        xp,
        on_death: DeathCallback::Player,
    });
    p
}

fn weak_orc(x: i32, y: i32) -> Object {
    let mut o = make_monster(MonsterKind::Orc, x, y);
    o.fighter.as_mut().unwrap().hp = 1;
    o
}

#[test]
fn maps_of_other_sizes_are_not_well_formed() {
    assert!(TileMap::new().is_well_formed());
    assert!(!TileMap { tiles: vec![] }.is_well_formed());
    let mut short = TileMap::new();
    short.tiles[79].pop();
    assert!(!short.is_well_formed());
    let mut narrow = TileMap::new();
    narrow.tiles.pop();
    assert!(!narrow.is_well_formed());
    assert!(FovMap::new().is_well_formed());
    assert!(!FovMap { cells: vec![] }.is_well_formed());
    let mut ragged = FovMap::new();
    ragged.cells[0].clear();
    assert!(!ragged.is_well_formed());
}

#[test]
fn a_game_holds_no_more_than_its_inventory_can() {
    let mut game = plain();
    assert!(game.is_well_formed());
    for _ in 0..26 {
        game.inventory.push(make_item(Item::Heal, 0, 0));
    }
    assert!(game.is_well_formed());
    game.inventory.push(make_item(Item::Heal, 0, 0));
    assert!(!game.is_well_formed());
    game.inventory.clear();
    game.map.tiles.clear();
    assert!(!game.is_well_formed());
}

#[test]
fn a_kill_must_fit_the_experience() {
    let game = plain();
    let rich = veteran(10, 10, i32::MAX - 34);
    assert!(!rich.can_attack(&weak_orc(11, 10), &game));
    assert!(rich.can_attack(&make_monster(MonsterKind::Orc, 11, 10), &game));
    let richer = veteran(10, 10, i32::MAX - 35);
    assert!(richer.can_attack(&weak_orc(11, 10), &game));
    let stairs = Object::new(0, 0, '<', "Stairs", Color::White, false);
    assert!(rich.can_attack(&stairs, &game));
    assert!(stairs.can_attack(&weak_orc(11, 10), &game));
    let mut feeble = weak_orc(0, 0);
    feeble.fighter.as_mut().unwrap().base_defense = -1;
    assert!(!stairs.can_attack(&feeble, &game));
}

#[test]
fn a_step_must_not_aim_at_the_player() {
    let game = plain();
    let objects = vec![veteran(10, 10, 0), weak_orc(11, 10)];
    assert!(!can_step(0, 0, &game, &objects));
    assert!(can_step(1, 0, &game, &objects));
    assert!(can_step(-1, 0, &game, &objects));
    assert!(can_step(i32::MAX, i32::MIN, &game, &objects));
    let rich = vec![veteran(10, 10, i32::MAX), weak_orc(11, 10)];
    assert!(!can_step(1, 0, &game, &rich));
    assert!(can_step(0, 1, &game, &rich));
    let ghost = vec![Object::new(10, 10, '@', "Player", Color::White, true)];
    assert!(can_step(0, 0, &game, &ghost));
}

#[test]
fn monsters_next_to_the_player_must_be_able_to_bank_them() {
    let game = plain();
    let fov = lit();
    let mut objects = vec![veteran(10, 10, 100), make_monster(MonsterKind::Orc, 11, 11)];
    assert!(monsters_can_answer(&fov, &game, &objects));
    objects[1].fighter.as_mut().unwrap().xp = i32::MAX - 99;
    assert!(!monsters_can_answer(&fov, &game, &objects));
    objects[1].fighter.as_mut().unwrap().xp = i32::MAX - 100;
    assert!(monsters_can_answer(&fov, &game, &objects));
    objects[1].fighter.as_mut().unwrap().xp = i32::MAX;
    objects[1].fighter.as_mut().unwrap().base_power = 2;
    assert!(monsters_can_answer(&fov, &game, &objects));
    objects[1].fighter.as_mut().unwrap().base_power = 3;
    assert!(!monsters_can_answer(&fov, &game, &objects));
    objects[1].ai = Some(Ai::Confused { previous_ai: Box::new(Ai::Basic), remaining_turns: 3 });
    assert!(monsters_can_answer(&fov, &game, &objects));
    objects[1].ai = None;
    assert!(monsters_can_answer(&fov, &game, &objects));
    let mut unarmed = make_monster(MonsterKind::Orc, 10, 11);
    unarmed.fighter = None;
    assert!(monsters_can_answer(&fov, &game, &vec![veteran(10, 10, 0), unarmed]));
    let mut exposed = veteran(10, 10, 0);
    exposed.fighter.as_mut().unwrap().base_defense = -1;
    let mut unarmed = make_monster(MonsterKind::Orc, 10, 11);
    unarmed.fighter = None;
    assert!(!monsters_can_answer(&fov, &game, &vec![exposed, unarmed]));
    assert!(monsters_can_answer(&fov, &game, &vec![veteran(10, 10, 0)]));
}

#[test]
fn nothing_is_asked_of_monsters_that_do_not_attack() {
    let game = plain();
    let fov = lit();
    let mut rich = make_monster(MonsterKind::Orc, 12, 10);
    rich.fighter.as_mut().unwrap().xp = i32::MAX;
    assert!(monsters_can_answer(&fov, &game, &vec![veteran(10, 10, 100), rich]));
    let mut far = make_monster(MonsterKind::Orc, 40, 30);
    far.fighter.as_mut().unwrap().xp = i32::MAX;
    assert!(monsters_can_answer(&fov, &game, &vec![veteran(10, 10, 100), far]));
    let mut hidden = make_monster(MonsterKind::Orc, 11, 10);
    hidden.fighter.as_mut().unwrap().xp = i32::MAX;
    let mut dark = lit();
    dark.set_in_fov(11, 10, false);
    let objects = vec![veteran(10, 10, 100), hidden];
    assert!(monsters_can_answer(&dark, &game, &objects));
    assert!(!monsters_can_answer(&fov, &game, &objects));
    let mut asleep = make_monster(MonsterKind::Orc, 11, 10);
    asleep.fighter.as_mut().unwrap().xp = i32::MAX;
    asleep.alive = false;
    assert!(monsters_can_answer(&fov, &game, &vec![veteran(10, 10, 100), asleep]));
}

#[test]
fn items_can_be_used_within_limits() {
    let mut game = plain();
    let fov = lit();
    for item in [Item::Heal, Item::Lightning, Item::Confuse, Item::Fireball, Item::Sword, Item::Shield] {
        game.inventory.push(make_item(item, 0, 0));
    }
    game.inventory.push(Object::new(0, 0, '*', "rock", Color::White, false));
    let objects = vec![veteran(10, 10, 0), weak_orc(11, 10), weak_orc(12, 10)];
    for id in 0..7 {
        assert!(can_use(id, Target::Nothing, &fov, &game, &objects));
        assert!(can_use(id, Target::Monster(2), &fov, &game, &objects));
        assert!(can_use(id, Target::Tile(11, 10), &fov, &game, &objects));
    }
    assert!(!can_use(7, Target::Nothing, &fov, &game, &objects));
    assert!(!can_use(2, Target::Monster(3), &fov, &game, &objects));
    assert!(can_use(3, Target::Monster(3), &fov, &game, &objects));
}

#[test]
fn effects_must_fit_the_experience() {
    let mut game = plain();
    let fov = lit();
    game.inventory.push(make_item(Item::Lightning, 0, 0));
    game.inventory.push(make_item(Item::Fireball, 0, 0));
    game.inventory.push(make_item(Item::Heal, 0, 0));
    let rich = vec![veteran(10, 10, i32::MAX - 69), weak_orc(11, 10), weak_orc(12, 10)];
    assert!(can_use(0, Target::Nothing, &fov, &game, &rich));
    assert!(can_use(1, Target::Tile(30, 30), &fov, &game, &rich));
    assert!(can_use(1, Target::Tile(15, 10), &fov, &game, &rich));
    assert!(!can_use(1, Target::Tile(14, 10), &fov, &game, &rich));
    assert!(!can_use(1, Target::Tile(11, 10), &fov, &game, &rich));
    let richer = vec![veteran(10, 10, i32::MAX - 34), weak_orc(11, 10)];
    assert!(!can_use(0, Target::Nothing, &fov, &game, &richer));
    let dark = FovMap::new();
    assert!(can_use(0, Target::Nothing, &dark, &game, &richer));
    let nobody = vec![Object::new(10, 10, '@', "Player", Color::White, true), weak_orc(11, 10)];
    assert!(!can_use(0, Target::Nothing, &fov, &game, &nobody));
    assert!(!can_use(1, Target::Tile(30, 30), &fov, &game, &nobody));
    assert!(can_use(1, Target::Nothing, &fov, &game, &nobody));
    assert!(can_use(2, Target::Nothing, &fov, &game, &nobody));
    let mut mortal = veteran(10, 10, 0);
    mortal.fighter.as_mut().unwrap().on_death = DeathCallback::Monster;
    mortal.fighter.as_mut().unwrap().hp = 25;
    assert!(!can_use(1, Target::Tile(10, 10), &fov, &game, &vec![mortal]));
    let mut tough = veteran(10, 10, 0);
    tough.fighter.as_mut().unwrap().on_death = DeathCallback::Monster;
    tough.fighter.as_mut().unwrap().hp = 26;
    assert!(can_use(1, Target::Tile(10, 10), &fov, &game, &vec![tough]));
    let mut huge = veteran(10, 10, 0);
    huge.fighter.as_mut().unwrap().hp = i32::MAX - 39;
    huge.fighter.as_mut().unwrap().base_max_hp = i32::MAX;
    assert!(can_use(2, Target::Nothing, &fov, &game, &vec![huge]));
}

#[test]
fn a_level_must_fit_its_numbers() {
    let mut objects = vec![veteran(0, 0, 350)];
    assert!(can_level_up(0, &objects));
    assert!(can_level_up(1, &objects));
    assert!(can_level_up(2, &objects));
    assert!(!can_level_up(3, &objects));
    objects[0].fighter.as_mut().unwrap().base_power = i32::MAX;
    assert!(can_level_up(0, &objects));
    assert!(!can_level_up(1, &objects));
    objects[0].fighter.as_mut().unwrap().hp = i32::MAX - 19;
    assert!(!can_level_up(0, &objects));
    assert!(can_level_up(2, &objects));
    objects[0].fighter.as_mut().unwrap().xp = 349;
    assert!(can_level_up(0, &objects));
    assert!(can_level_up(1, &objects));
    objects[0].fighter = None;
    objects[0].level = -2;
    assert!(!can_level_up(0, &objects));
    objects[0].level = 1;
    assert!(can_level_up(0, &objects));
}
