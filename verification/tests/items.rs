use roguelike::ai::{ai_act, Ai, DeathCallback, Fighter};
use roguelike::color::Color;
use roguelike::equipment::Slot;
use roguelike::fov::FovMap;
use roguelike::game::Game;
use roguelike::item::{
    aim_item, cast_confuse, cast_fireball, cast_heal, cast_lightning, drop_item,
    get_equipped_in_slot, pick_item_up, toggle_equipment, use_item, Aim, Item, Target, UseResult,
};
use roguelike::log::Messages;
use roguelike::map::{Tile, TileMap, MAP_HEIGHT, MAP_WIDTH};
use roguelike::object::Object;
use roguelike::population::{make_item, make_monster, MonsterKind};

fn open_game() -> Game {
    let mut map = TileMap::new();
    for x in 1..MAP_WIDTH - 1 {
        for y in 1..MAP_HEIGHT - 1 {
            map.set_tile(x, y, Tile::empty());
        }
    }
    Game { map, messages: Messages::new(), inventory: vec![], dungeon_level: 1 }
}

fn all_in_view() -> FovMap {
    let mut fov = FovMap::new();
    for x in 0..MAP_WIDTH {
        for y in 0..MAP_HEIGHT {
            fov.set_in_fov(x, y, true);
        }
    }
    fov
}

fn player_at(x: i32, y: i32) -> Object {
    let mut p = Object::new(x, y, '@', "Player", Color::White, true);
    p.alive = true;
    p.fighter = Some(Fighter {
        base_max_hp: 30,
        hp: 30,
        base_defense: 2,
        base_power: 5,
        xp: 0,
        on_death: DeathCallback::Player,
    });
    p
}

fn last_text(game: &Game) -> String {
    game.messages.text(game.messages.len() - 1)
}

#[test]
fn heal_at_full_health_is_cancelled() {
    let mut game = open_game();
    let mut objects = vec![player_at(5, 5)];
    assert_eq!(cast_heal(&mut game, &mut objects), UseResult::Cancelled);
    assert_eq!(objects[0].fighter.unwrap().hp, 30);
    assert_eq!(game.messages.len(), 1);
    assert_eq!(game.messages.text(0), "You are already at full health.");
    assert_eq!(game.messages.color(0), Color::Red);
}

#[test]
fn heal_raises_hp_up_to_the_maximum() {
    let mut game = open_game();
    let mut objects = vec![player_at(5, 5)];
    objects[0].fighter.as_mut().unwrap().hp = 1;
    objects[0].fighter.as_mut().unwrap().base_max_hp = 100;
    assert_eq!(cast_heal(&mut game, &mut objects), UseResult::UsedUp);
    assert_eq!(objects[0].fighter.unwrap().hp, 41);
    assert_eq!(game.messages.text(0), "Your wounds start to feel better!");
    assert_eq!(game.messages.color(0), Color::LightViolet);
    objects[0].fighter.as_mut().unwrap().hp = 99;
    assert_eq!(cast_heal(&mut game, &mut objects), UseResult::UsedUp);
    assert_eq!(objects[0].fighter.unwrap().hp, 100);
}

#[test]
fn heal_counts_equipment_toward_the_maximum() {
    let mut game = open_game();
    let mut helmet = make_item(Item::Shield, 0, 0);
    helmet.equipment.as_mut().unwrap().max_hp_bonus = 5;
    helmet.equipment.as_mut().unwrap().equipped = true;
    game.inventory.push(helmet);
    let mut objects = vec![player_at(5, 5)];
    assert_eq!(cast_heal(&mut game, &mut objects), UseResult::UsedUp);
    assert_eq!(objects[0].fighter.unwrap().hp, 35);
    assert_eq!(cast_heal(&mut game, &mut objects), UseResult::Cancelled);
}

#[test]
fn heal_without_a_fighter_is_cancelled_silently() {
    let mut game = open_game();
    let mut objects = vec![Object::new(5, 5, '@', "Player", Color::White, true)];
    assert_eq!(cast_heal(&mut game, &mut objects), UseResult::Cancelled);
    assert_eq!(game.messages.len(), 0);
}

#[test]
fn lightning_strikes_the_nearest_monster() {
    let mut game = open_game();
    let fov = all_in_view();
    let mut objects = vec![
        player_at(10, 10),
        make_monster(MonsterKind::Troll, 14, 10),
        make_monster(MonsterKind::Orc, 12, 11),
        make_monster(MonsterKind::Troll, 11, 12),
    ];
    assert_eq!(cast_lightning(&fov, &mut game, &mut objects), UseResult::UsedUp);
    assert_eq!(objects[1].fighter.unwrap().hp, 30);
    assert_eq!(objects[3].fighter.unwrap().hp, 30);
    assert_eq!(objects[2].name, "remains of Orc");
    assert_eq!(objects[0].fighter.unwrap().xp, 35);
    assert_eq!(
        game.messages.text(0),
        "A lightning bolt strikes the Orc with a loud thunder! The damage is 40 hit points."
    );
    assert_eq!(game.messages.color(0), Color::LightBlue);
    assert_eq!(game.messages.text(1), "Orc is dead! You gain 35 experience points.");
    assert_eq!(game.messages.len(), 2);
}

#[test]
fn lightning_ignores_defense() {
    let mut game = open_game();
    let fov = all_in_view();
    let mut troll = make_monster(MonsterKind::Troll, 11, 10);
    troll.fighter.as_mut().unwrap().base_defense = 1000;
    troll.fighter.as_mut().unwrap().hp = 45;
    let mut objects = vec![player_at(10, 10), troll];
    assert_eq!(cast_lightning(&fov, &mut game, &mut objects), UseResult::UsedUp);
    assert_eq!(objects[1].fighter.unwrap().hp, 5);
    assert_eq!(objects[0].fighter.unwrap().xp, 0);
}

#[test]
fn lightning_without_a_monster_in_reach_is_cancelled() {
    let mut game = open_game();
    let mut fov = all_in_view();
    let mut objects = vec![
        player_at(10, 10),
        make_monster(MonsterKind::Orc, 16, 10),
        make_monster(MonsterKind::Orc, 11, 10),
        make_item(Item::Heal, 10, 11),
    ];
    fov.set_in_fov(11, 10, false);
    assert_eq!(cast_lightning(&fov, &mut game, &mut objects), UseResult::Cancelled);
    assert_eq!(objects[1].fighter.unwrap().hp, 20);
    assert_eq!(objects[2].fighter.unwrap().hp, 20);
    assert_eq!(game.messages.text(0), "No enemy is close enough to strike.");
    assert_eq!(game.messages.color(0), Color::Red);
}

#[test]
fn confuse_sets_the_behaviour_aside() {
    let mut game = open_game();
    let mut objects = vec![player_at(10, 10), make_monster(MonsterKind::Orc, 12, 10)];
    assert_eq!(cast_confuse(Some(1), &mut game, &mut objects), UseResult::UsedUp);
    assert_eq!(
        objects[1].ai,
        Some(Ai::Confused { previous_ai: Box::new(Ai::Basic), remaining_turns: 10 })
    );
    assert_eq!(
        game.messages.text(0),
        "The eyes of Orc look vacant, as he starts to stumble around!"
    );
    assert_eq!(game.messages.color(0), Color::LightGreen);
}

#[test]
fn confuse_without_a_target_is_cancelled() {
    let mut game = open_game();
    let mut objects = vec![player_at(10, 10), make_monster(MonsterKind::Orc, 12, 10)];
    assert_eq!(cast_confuse(None, &mut game, &mut objects), UseResult::Cancelled);
    assert_eq!(objects[1].ai, Some(Ai::Basic));
    assert_eq!(game.messages.text(0), "No enemy is close enough to strike.");
}

#[test]
fn confusion_of_what_has_no_behaviour_restores_the_basic_one() {
    let mut game = open_game();
    let mut dummy = make_monster(MonsterKind::Orc, 12, 10);
    dummy.ai = None;
    let mut objects = vec![player_at(10, 10), dummy];
    cast_confuse(Some(1), &mut game, &mut objects);
    assert_eq!(
        objects[1].ai,
        Some(Ai::Confused { previous_ai: Box::new(Ai::Basic), remaining_turns: 10 })
    );
}

#[test]
fn confusion_wears_off_after_ten_turns() {
    let mut game = open_game();
    let fov = all_in_view();
    let mut objects = vec![player_at(10, 10), make_monster(MonsterKind::Orc, 30, 30)];
    cast_confuse(Some(1), &mut game, &mut objects);
    for turn in 1..10 {
        ai_act(1, 0, 0, &fov, &mut game, &mut objects);
        assert_eq!(
            objects[1].ai,
            Some(Ai::Confused { previous_ai: Box::new(Ai::Basic), remaining_turns: 10 - turn })
        );
        assert_eq!(game.messages.len(), 1);
    }
    ai_act(1, 0, 0, &fov, &mut game, &mut objects);
    assert_eq!(objects[1].ai, Some(Ai::Basic));
    assert_eq!(game.messages.len(), 2);
    assert_eq!(game.messages.text(1), "The Orc is no longer confused!");
    assert_eq!(game.messages.color(1), Color::Red);
    assert_eq!(objects[1].pos(), (30, 30));
}

#[test]
fn confusion_on_confusion_restores_the_first() {
    let mut game = open_game();
    let fov = all_in_view();
    let mut objects = vec![player_at(10, 10), make_monster(MonsterKind::Orc, 30, 30)];
    cast_confuse(Some(1), &mut game, &mut objects);
    ai_act(1, 0, 0, &fov, &mut game, &mut objects);
    let first = Ai::Confused { previous_ai: Box::new(Ai::Basic), remaining_turns: 9 };
    assert_eq!(objects[1].ai, Some(first.clone()));
    cast_confuse(Some(1), &mut game, &mut objects);
    for _ in 0..10 {
        ai_act(1, 0, 0, &fov, &mut game, &mut objects);
    }
    assert_eq!(objects[1].ai, Some(first));
}

#[test]
fn fireball_burns_within_three_tiles() {
    let mut game = open_game();
    let mut objects = vec![
        player_at(10, 13),
        make_monster(MonsterKind::Orc, 13, 10),
        make_monster(MonsterKind::Troll, 12, 12),
        make_monster(MonsterKind::Orc, 13, 11),
        make_monster(MonsterKind::Orc, 10, 10),
        make_item(Item::Heal, 10, 10),
        make_monster(MonsterKind::Orc, 7, 10),
        make_monster(MonsterKind::Orc, 6, 10),
    ];
    assert_eq!(cast_fireball(Some((10, 10)), &mut game, &mut objects), UseResult::UsedUp);
    assert_eq!(objects[0].fighter.unwrap().hp, 5);
    assert!(objects[0].alive);
    assert_eq!(objects[1].name, "remains of Orc");
    assert_eq!(objects[2].fighter.unwrap().hp, 5);
    assert_eq!(objects[3].fighter.unwrap().hp, 20);
    assert_eq!(objects[4].name, "remains of Orc");
    assert_eq!(objects[5], make_item(Item::Heal, 10, 10));
    assert_eq!(objects[6].name, "remains of Orc");
    assert_eq!(objects[7].fighter.unwrap().hp, 20);
    assert_eq!(objects[0].fighter.unwrap().xp, 105);
    assert_eq!(
        game.messages.text(0),
        "The fireball explodes, burning everything within 3 tiles!"
    );
    assert_eq!(game.messages.color(0), Color::Orange);
    assert_eq!(game.messages.text(1), "The Player gets burned for 25 hit points.");
    assert_eq!(game.messages.text(2), "The Orc gets burned for 25 hit points.");
    assert_eq!(game.messages.text(3), "Orc is dead! You gain 35 experience points.");
    assert_eq!(game.messages.text(4), "The Troll gets burned for 25 hit points.");
    assert_eq!(game.messages.len(), 9);
}

#[test]
fn fireball_can_kill_the_player_without_reward() {
    let mut game = open_game();
    let mut p = player_at(10, 10);
    p.fighter.as_mut().unwrap().hp = 20;
    p.fighter.as_mut().unwrap().xp = 7;
    let mut objects = vec![p, make_monster(MonsterKind::Troll, 11, 10)];
    assert_eq!(cast_fireball(Some((10, 10)), &mut game, &mut objects), UseResult::UsedUp);
    assert!(!objects[0].alive);
    assert_eq!(objects[0].fighter.unwrap().hp, 0);
    assert_eq!(objects[0].fighter.unwrap().xp, 7);
    assert_eq!(objects[1].fighter.unwrap().hp, 5);
    assert_eq!(game.messages.text(2), "You died!");
}

#[test]
fn fireball_without_a_tile_is_cancelled() {
    let mut game = open_game();
    let mut objects = vec![player_at(10, 10), make_monster(MonsterKind::Orc, 11, 10)];
    assert_eq!(cast_fireball(None, &mut game, &mut objects), UseResult::Cancelled);
    assert_eq!(objects[1].fighter.unwrap().hp, 20);
    assert_eq!(game.messages.len(), 0);
}

#[test]
fn the_first_item_worn_in_a_slot_is_found() {
    let mut a = make_item(Item::Sword, 0, 0);
    let mut b = make_item(Item::Sword, 0, 0);
    let mut c = make_item(Item::Shield, 0, 0);
    assert_eq!(get_equipped_in_slot(Slot::RightHand, &vec![]), None);
    b.equipment.as_mut().unwrap().equipped = true;
    c.equipment.as_mut().unwrap().equipped = true;
    let inventory = vec![make_item(Item::Heal, 0, 0), a, b, c];
    assert_eq!(get_equipped_in_slot(Slot::RightHand, &inventory), Some(2));
    assert_eq!(get_equipped_in_slot(Slot::LeftHand, &inventory), Some(3));
    assert_eq!(get_equipped_in_slot(Slot::Head, &inventory), None);
    a = make_item(Item::Sword, 0, 0);
    a.equipment.as_mut().unwrap().equipped = true;
    let mut both = inventory;
    both[1] = a;
    assert_eq!(get_equipped_in_slot(Slot::RightHand, &both), Some(1));
}

#[test]
fn equipping_takes_off_what_was_in_the_slot() {
    let mut game = open_game();
    game.inventory.push(make_item(Item::Sword, 0, 0));
    game.inventory.push(make_item(Item::Shield, 0, 0));
    let mut axe = make_item(Item::Sword, 0, 0);
    axe.name = String::from("Axe");
    game.inventory.push(axe);
    assert_eq!(toggle_equipment(0, &mut game), UseResult::UsedAndKept);
    assert_eq!(toggle_equipment(1, &mut game), UseResult::UsedAndKept);
    assert_eq!(game.messages.len(), 2);
    assert_eq!(toggle_equipment(2, &mut game), UseResult::UsedAndKept);
    assert!(!game.inventory[0].equipment.unwrap().equipped);
    assert!(game.inventory[1].equipment.unwrap().equipped);
    assert!(game.inventory[2].equipment.unwrap().equipped);
    let worn_in_right: Vec<usize> = (0..3)
        .filter(|i| {
            let e = game.inventory[*i].equipment.unwrap();
            e.equipped && e.slot == Slot::RightHand
        })
        .collect();
    assert_eq!(worn_in_right, vec![2]);
    assert_eq!(game.messages.text(2), "Dequipped Sword on right hand");
    assert_eq!(game.messages.text(3), "Equipped Axe on right hand");
    assert_eq!(game.messages.len(), 4);
    assert_eq!(game.inventory.len(), 3);
}

#[test]
fn toggling_worn_equipment_takes_it_off() {
    let mut game = open_game();
    game.inventory.push(make_item(Item::Shield, 0, 0));
    toggle_equipment(0, &mut game);
    assert!(game.inventory[0].equipment.unwrap().equipped);
    assert_eq!(toggle_equipment(0, &mut game), UseResult::UsedAndKept);
    assert!(!game.inventory[0].equipment.unwrap().equipped);
    assert_eq!(game.messages.text(1), "Dequipped shield on left hand");
}

#[test]
fn toggling_what_is_no_equipment_keeps_it() {
    let mut game = open_game();
    game.inventory.push(make_item(Item::Heal, 0, 0));
    let mut bare = make_item(Item::Sword, 0, 0);
    bare.equipment = None;
    game.inventory.push(bare);
    assert_eq!(toggle_equipment(0, &mut game), UseResult::UsedAndKept);
    assert_eq!(toggle_equipment(1, &mut game), UseResult::UsedAndKept);
    assert_eq!(game.messages.len(), 0);
    assert_eq!(game.inventory[0], make_item(Item::Heal, 0, 0));
    let fov = all_in_view();
    let mut objects = vec![player_at(10, 10)];
    use_item(1, Target::Nothing, &fov, &mut game, &mut objects);
    assert_eq!(game.messages.len(), 0);
    assert_eq!(game.inventory.len(), 2);
}

#[test]
fn use_item_removes_what_is_used_up() {
    let mut game = open_game();
    let fov = all_in_view();
    game.inventory.push(make_item(Item::Sword, 0, 0));
    game.inventory.push(make_item(Item::Heal, 0, 0));
    game.inventory.push(make_item(Item::Lightning, 0, 0));
    let mut objects = vec![player_at(10, 10)];
    objects[0].fighter.as_mut().unwrap().hp = 3;
    use_item(1, Target::Nothing, &fov, &mut game, &mut objects);
    assert_eq!(objects[0].fighter.unwrap().hp, 30);
    assert_eq!(game.inventory.len(), 2);
    assert_eq!(game.inventory[0].name, "Sword");
    assert_eq!(game.inventory[1].name, "Scroll of Lightning Bolt");
    assert_eq!(game.messages.len(), 1);
}

#[test]
fn use_item_keeps_what_was_cancelled() {
    let mut game = open_game();
    let fov = all_in_view();
    game.inventory.push(make_item(Item::Heal, 0, 0));
    game.inventory.push(make_item(Item::Lightning, 0, 0));
    game.inventory.push(make_item(Item::Confuse, 0, 0));
    game.inventory.push(make_item(Item::Fireball, 0, 0));
    let mut objects = vec![player_at(10, 10)];
    use_item(0, Target::Nothing, &fov, &mut game, &mut objects);
    assert_eq!(game.messages.text(0), "You are already at full health.");
    assert_eq!(game.messages.text(1), "Cancelled");
    assert_eq!(game.messages.color(1), Color::White);
    use_item(1, Target::Nothing, &fov, &mut game, &mut objects);
    assert_eq!(game.messages.text(2), "No enemy is close enough to strike.");
    assert_eq!(game.messages.text(3), "Cancelled");
    use_item(2, Target::Nothing, &fov, &mut game, &mut objects);
    assert_eq!(game.messages.text(4), "No enemy is close enough to strike.");
    assert_eq!(game.messages.text(5), "Cancelled");
    use_item(3, Target::Nothing, &fov, &mut game, &mut objects);
    assert_eq!(game.messages.text(6), "Cancelled");
    use_item(3, Target::Monster(0), &fov, &mut game, &mut objects);
    assert_eq!(game.messages.len(), 8);
    assert_eq!(game.inventory.len(), 4);
}

#[test]
fn use_item_aims_scrolls_at_their_target() {
    let mut game = open_game();
    let fov = all_in_view();
    game.inventory.push(make_item(Item::Confuse, 0, 0));
    game.inventory.push(make_item(Item::Fireball, 0, 0));
    let mut objects = vec![
        player_at(10, 10),
        make_monster(MonsterKind::Orc, 20, 20),
        make_monster(MonsterKind::Orc, 25, 20),
    ];
    use_item(0, Target::Monster(2), &fov, &mut game, &mut objects);
    assert_eq!(objects[1].ai, Some(Ai::Basic));
    assert!(matches!(objects[2].ai, Some(Ai::Confused { .. })));
    assert_eq!(game.inventory.len(), 1);
    use_item(0, Target::Tile(20, 21), &fov, &mut game, &mut objects);
    assert_eq!(objects[1].name, "remains of Orc");
    assert_eq!(objects[2].fighter.unwrap().hp, 20);
    assert_eq!(objects[0].fighter.unwrap().xp, 35);
    assert!(game.inventory.is_empty());
}

#[test]
fn use_item_keeps_equipment() {
    let mut game = open_game();
    let fov = all_in_view();
    game.inventory.push(make_item(Item::Sword, 0, 0));
    game.inventory.push(make_item(Item::Shield, 0, 0));
    let mut objects = vec![player_at(10, 10)];
    use_item(0, Target::Nothing, &fov, &mut game, &mut objects);
    use_item(1, Target::Nothing, &fov, &mut game, &mut objects);
    assert_eq!(game.inventory.len(), 2);
    assert!(game.inventory[0].equipment.unwrap().equipped);
    assert!(game.inventory[1].equipment.unwrap().equipped);
    assert_eq!(objects[0].power(&game), 8);
    assert_eq!(objects[0].defense(&game), 3);
    assert_eq!(game.messages.len(), 2);
}

#[test]
fn what_is_no_item_cannot_be_used() {
    let mut game = open_game();
    let fov = all_in_view();
    game.inventory.push(Object::new(0, 0, '*', "rock", Color::White, false));
    let mut objects = vec![player_at(10, 10)];
    use_item(0, Target::Nothing, &fov, &mut game, &mut objects);
    assert_eq!(last_text(&game), "The rock cannot be used.");
    assert_eq!(game.messages.color(0), Color::White);
    assert_eq!(game.messages.len(), 1);
    assert_eq!(game.inventory.len(), 1);
}

#[test]
fn items_say_what_they_are_aimed_at() {
    let mut game = open_game();
    for item in [Item::Heal, Item::Lightning, Item::Confuse, Item::Fireball, Item::Sword, Item::Shield] {
        game.inventory.push(make_item(item, 0, 0));
    }
    game.inventory.push(Object::new(0, 0, '*', "rock", Color::White, false));
    assert_eq!(aim_item(0, &mut game), Aim::Unaimed);
    assert_eq!(aim_item(1, &mut game), Aim::Unaimed);
    assert_eq!(aim_item(2, &mut game), Aim::MonsterWithin(8));
    assert_eq!(aim_item(4, &mut game), Aim::Unaimed);
    assert_eq!(aim_item(5, &mut game), Aim::Unaimed);
    assert_eq!(aim_item(6, &mut game), Aim::Unaimed);
    assert_eq!(game.messages.len(), 0);
    assert_eq!(aim_item(3, &mut game), Aim::AnyTile);
    assert_eq!(
        game.messages.text(0),
        "Left-click a target tile for the fireball, or right-click to cancel"
    );
    assert_eq!(game.messages.color(0), Color::LightCyan);
}

#[test]
fn targets_tell_monsters_from_tiles() {
    assert_eq!(Target::Nothing.monster(), None);
    assert_eq!(Target::Nothing.tile(), None);
    assert_eq!(Target::Monster(4).monster(), Some(4));
    assert_eq!(Target::Monster(4).tile(), None);
    assert_eq!(Target::Tile(1, -2).tile(), Some((1, -2)));
    assert_eq!(Target::Tile(1, -2).monster(), None);
}

#[test]
fn picking_up_moves_the_item_to_the_inventory() {
    let mut game = open_game();
    let mut objects = vec![
        player_at(10, 10),
        make_item(Item::Heal, 10, 10),
        make_monster(MonsterKind::Orc, 12, 10),
        make_item(Item::Confuse, 3, 3),
    ];
    pick_item_up(1, &mut game, &mut objects);
    assert_eq!(objects.len(), 3);
    assert_eq!(objects[0].name, "Player");
    assert_eq!(objects[1].name, "Scroll of Confusion");
    assert_eq!(objects[2].name, "Orc");
    assert_eq!(game.inventory.len(), 1);
    assert_eq!(game.inventory[0], make_item(Item::Heal, 10, 10));
    assert_eq!(game.messages.text(0), "You picked up a Healing Potion!");
    assert_eq!(game.messages.color(0), Color::Green);
    assert_eq!(game.messages.len(), 1);
}

#[test]
fn a_full_inventory_takes_nothing_more() {
    let mut game = open_game();
    for _ in 0..26 {
        game.inventory.push(make_item(Item::Heal, 0, 0));
    }
    let mut objects = vec![player_at(10, 10), make_item(Item::Sword, 10, 10)];
    pick_item_up(1, &mut game, &mut objects);
    assert_eq!(objects.len(), 2);
    assert_eq!(objects[1], make_item(Item::Sword, 10, 10));
    assert_eq!(game.inventory.len(), 26);
    assert_eq!(game.messages.text(0), "Your inventory is full, cannot pick up Sword");
    assert_eq!(game.messages.color(0), Color::Red);
}

#[test]
fn the_twenty_sixth_item_still_fits() {
    let mut game = open_game();
    for _ in 0..25 {
        game.inventory.push(make_item(Item::Heal, 0, 0));
    }
    let mut objects = vec![player_at(10, 10), make_item(Item::Confuse, 10, 10)];
    pick_item_up(1, &mut game, &mut objects);
    assert_eq!(objects.len(), 1);
    assert_eq!(game.inventory.len(), 26);
    assert_eq!(game.inventory[25].name, "Scroll of Confusion");
}

#[test]
fn equipment_is_put_on_when_its_slot_is_free() {
    let mut game = open_game();
    let mut objects = vec![
        player_at(10, 10),
        make_item(Item::Sword, 10, 10),
        make_item(Item::Sword, 10, 10),
        make_item(Item::Shield, 10, 10),
    ];
    pick_item_up(1, &mut game, &mut objects);
    assert!(game.inventory[0].equipment.unwrap().equipped);
    assert_eq!(game.messages.text(0), "You picked up a Sword!");
    assert_eq!(game.messages.text(1), "Equipped Sword on right hand");
    assert_eq!(objects[1].name, "shield");
    pick_item_up(2, &mut game, &mut objects);
    assert!(!game.inventory[1].equipment.unwrap().equipped);
    assert_eq!(game.messages.len(), 3);
    pick_item_up(1, &mut game, &mut objects);
    assert!(game.inventory[2].equipment.unwrap().equipped);
    assert_eq!(game.messages.text(4), "Equipped shield on left hand");
    assert_eq!(objects.len(), 1);
}

#[test]
fn dropping_puts_the_item_under_the_player() {
    let mut game = open_game();
    game.inventory.push(make_item(Item::Heal, 1, 1));
    game.inventory.push(make_item(Item::Sword, 2, 2));
    toggle_equipment(1, &mut game);
    let mut objects = vec![player_at(10, 12)];
    drop_item(0, &mut game, &mut objects);
    assert_eq!(objects[1], make_item(Item::Heal, 10, 12));
    assert_eq!(game.messages.text(1), "You dropped a Healing Potion.");
    assert_eq!(game.messages.color(1), Color::Yellow);
    drop_item(0, &mut game, &mut objects);
    assert_eq!(objects[2], make_item(Item::Sword, 10, 12));
    assert_eq!(game.messages.text(2), "Dequipped Sword on right hand");
    assert_eq!(game.messages.text(3), "You dropped a Sword.");
    assert!(game.inventory.is_empty());
    assert_eq!(objects.len(), 3);
}

#[test]
fn fireball_pays_nothing_for_what_had_no_hit_points() {
    let mut game = open_game();
    let mut spent = make_monster(MonsterKind::Orc, 11, 10);
    spent.fighter.as_mut().unwrap().hp = 0;
    spent.fighter.as_mut().unwrap().xp = 7;
    let mut objects = vec![player_at(20, 20), spent, make_monster(MonsterKind::Orc, 10, 11)];
    assert_eq!(cast_fireball(Some((10, 10)), &mut game, &mut objects), UseResult::UsedUp);
    assert_eq!(objects[0].fighter.unwrap().xp, 35);
    assert_eq!(objects[1].name, "Orc");
    assert_eq!(objects[1].fighter.unwrap().hp, 0);
    assert_eq!(objects[2].name, "remains of Orc");
    assert_eq!(game.messages.len(), 4);
    assert_eq!(game.messages.text(1), "The Orc gets burned for 25 hit points.");
    assert_eq!(game.messages.text(2), "The Orc gets burned for 25 hit points.");
    assert_eq!(game.messages.text(3), "Orc is dead! You gain 35 experience points.");
}

#[test]
fn lightning_reaches_the_range_and_no_farther() {
    let fov = all_in_view();
    let mut game = open_game();
    let mut objects = vec![player_at(10, 10), make_monster(MonsterKind::Orc, 15, 12)];
    assert_eq!(cast_lightning(&fov, &mut game, &mut objects), UseResult::Cancelled);
    assert_eq!(objects[1].fighter.unwrap().hp, 20);
    assert_eq!(game.messages.text(0), "No enemy is close enough to strike.");
    let mut objects = vec![player_at(10, 10), make_monster(MonsterKind::Orc, 14, 13)];
    assert_eq!(cast_lightning(&fov, &mut game, &mut objects), UseResult::UsedUp);
    assert_eq!(objects[1].name, "remains of Orc");
    assert_eq!(objects[0].fighter.unwrap().xp, 35);
}

#[test]
fn lightning_pays_nothing_for_what_had_no_hit_points() {
    let fov = all_in_view();
    let mut game = open_game();
    let mut spent = make_monster(MonsterKind::Orc, 11, 10);
    spent.fighter.as_mut().unwrap().hp = 0;
    let mut objects = vec![player_at(10, 10), spent];
    assert_eq!(cast_lightning(&fov, &mut game, &mut objects), UseResult::UsedUp);
    assert_eq!(objects[0].fighter.unwrap().xp, 0);
    assert_eq!(objects[1].name, "Orc");
    assert_eq!(game.messages.len(), 1);
}
