use rand::rngs::StdRng;
use rand::SeedableRng;
use roguelike::ai::{Ai, DeathCallback, Fighter};
use roguelike::color::Color;
use roguelike::equipment::{Equipment, Slot};
use roguelike::item::{from_dungeon_level, Item, Potion, Scroll, Transition};
use roguelike::map::{create_room, Rect, TileMap};
use roguelike::object::Object;
use roguelike::population::{
    draw_population, item_chances, make_item, make_monster, max_items_at, max_monsters_at,
    monster_chances, place_item, place_monster, place_objects, populate, Draw, MonsterKind,
};

fn table() -> Vec<Transition> {
    vec![
        Transition { level: 3, value: 15 },
        Transition { level: 5, value: 30 },
        Transition { level: 7, value: 60 },
    ]
}

fn room_map(room: Rect) -> TileMap {
    let mut map = TileMap::new();
    create_room(room, &mut map);
    map
}

#[test]
fn threshold_table_is_a_step_function() {
    let t = table();
    assert_eq!(from_dungeon_level(&t, 0), 0);
    assert_eq!(from_dungeon_level(&t, 2), 0);
    assert_eq!(from_dungeon_level(&t, 3), 15);
    assert_eq!(from_dungeon_level(&t, 4), 15);
    assert_eq!(from_dungeon_level(&t, 5), 30);
    assert_eq!(from_dungeon_level(&t, 6), 30);
    assert_eq!(from_dungeon_level(&t, 7), 60);
    assert_eq!(from_dungeon_level(&t, u32::MAX), 60);
}

#[test]
fn empty_threshold_table_gives_zero() {
    assert_eq!(from_dungeon_level(&[], 0), 0);
    assert_eq!(from_dungeon_level(&[], 9), 0);
}

#[test]
fn the_last_entry_that_applies_wins() {
    let unsorted = [
        Transition { level: 5, value: 1 },
        Transition { level: 2, value: 2 },
        Transition { level: 9, value: 3 },
    ];
    assert_eq!(from_dungeon_level(&unsorted, 1), 0);
    assert_eq!(from_dungeon_level(&unsorted, 2), 2);
    assert_eq!(from_dungeon_level(&unsorted, 5), 2);
    assert_eq!(from_dungeon_level(&unsorted, 9), 3);
}

#[test]
fn room_capacity_grows_with_depth() {
    let monsters: Vec<u32> = (0..8).map(max_monsters_at).collect();
    assert_eq!(monsters, vec![0, 2, 2, 2, 3, 3, 5, 5]);
    let items: Vec<u32> = (0..6).map(max_items_at).collect();
    assert_eq!(items, vec![0, 1, 1, 1, 2, 2]);
}

#[test]
fn monster_weights_by_depth() {
    assert_eq!(monster_chances(1), vec![80, 0]);
    assert_eq!(monster_chances(2), vec![80, 0]);
    assert_eq!(monster_chances(3), vec![80, 15]);
    assert_eq!(monster_chances(5), vec![80, 30]);
    assert_eq!(monster_chances(6), vec![80, 30]);
    assert_eq!(monster_chances(7), vec![80, 60]);
    assert_eq!(monster_chances(100), vec![80, 60]);
}

#[test]
fn item_weights_by_depth() {
    assert_eq!(item_chances(1), vec![35, 0, 0, 0, 0, 0]);
    assert_eq!(item_chances(2), vec![35, 0, 0, 10, 0, 0]);
    assert_eq!(item_chances(4), vec![35, 25, 0, 10, 5, 0]);
    assert_eq!(item_chances(6), vec![35, 25, 25, 10, 5, 0]);
    assert_eq!(item_chances(8), vec![35, 25, 25, 10, 5, 15]);
}

#[test]
fn an_orc_and_a_troll() {
    let orc = make_monster(MonsterKind::Orc, 3, 4);
    assert_eq!((orc.x, orc.y, orc.glyph), (3, 4, 'o'));
    assert_eq!(orc.name, "Orc");
    assert_eq!(orc.color, Color::DesaturatedGreen);
    assert!(orc.blocks && orc.alive && !orc.always_visible);
    assert_eq!(
        orc.fighter,
        Some(Fighter {
            base_max_hp: 20,
            hp: 20,
            base_defense: 0,
            base_power: 4,
            xp: 35,
            on_death: DeathCallback::Monster,
        })
    );
    assert_eq!(orc.ai, Some(Ai::Basic));
    let troll = make_monster(MonsterKind::Troll, -1, 0);
    assert_eq!((troll.x, troll.y, troll.glyph), (-1, 0, 'T'));
    assert_eq!(troll.name, "Troll");
    assert_eq!(troll.color, Color::DarkerGreen);
    assert_eq!(
        troll.fighter,
        Some(Fighter {
            base_max_hp: 30,
            hp: 30,
            base_defense: 2,
            base_power: 8,
            xp: 100,
            on_death: DeathCallback::Monster,
        })
    );
    assert_eq!(troll.ai, Some(Ai::Basic));
}

#[test]
fn potions_and_scrolls() {
    let potion = Potion::new(1, 2, "Healing", Item::Heal);
    assert_eq!(potion.name, "Healing Potion");
    assert_eq!((potion.glyph, potion.color), ('!', Color::Violet));
    assert_eq!(potion.item, Some(Item::Heal));
    assert!(potion.always_visible && !potion.blocks && !potion.alive);
    let scroll = Scroll::new(1, 2, "Fireball", Item::Fireball);
    assert_eq!(scroll.name, "Scroll of Fireball");
    assert_eq!((scroll.glyph, scroll.color), ('#', Color::LightYellow));
    assert_eq!(scroll.item, Some(Item::Fireball));
    assert!(scroll.always_visible && !scroll.blocks);
    assert_eq!(scroll.pos(), (1, 2));
}

#[test]
fn every_kind_of_item() {
    assert_eq!(make_item(Item::Heal, 0, 0).name, "Healing Potion");
    assert_eq!(make_item(Item::Lightning, 0, 0).name, "Scroll of Lightning Bolt");
    assert_eq!(make_item(Item::Fireball, 0, 0).name, "Scroll of Fireball");
    assert_eq!(make_item(Item::Confuse, 0, 0).name, "Scroll of Confusion");
    let sword = make_item(Item::Sword, 5, 6);
    assert_eq!(sword.name, "Sword");
    assert_eq!((sword.glyph, sword.color, sword.pos()), ('/', Color::Sky, (5, 6)));
    assert_eq!(
        sword.equipment,
        Some(Equipment {
            slot: Slot::RightHand,
            equipped: false,
            max_hp_bonus: 0,
            defense_bonus: 0,
            power_bonus: 3,
        })
    );
    let shield = make_item(Item::Shield, 5, 6);
    assert_eq!(shield.name, "shield");
    assert_eq!((shield.glyph, shield.color), ('[', Color::DarkerOrange));
    assert_eq!(
        shield.equipment,
        Some(Equipment {
            slot: Slot::LeftHand,
            equipped: false,
            max_hp_bonus: 0,
            defense_bonus: 1,
            power_bonus: 0,
        })
    );
    for item in [Item::Heal, Item::Lightning, Item::Fireball, Item::Confuse, Item::Sword, Item::Shield] {
        let o = make_item(item, 1, 1);
        assert_eq!(o.item, Some(item));
        assert!(o.always_visible);
        assert!(!o.blocks);
    }
}

#[test]
fn a_monster_is_not_placed_where_something_blocks() {
    let map = room_map(Rect::new(0, 0, 6, 6));
    let mut objects = vec![make_monster(MonsterKind::Orc, 2, 2)];
    assert!(!place_monster(1, 2, 2, &map, &mut objects));
    assert!(!place_monster(0, 0, 0, &map, &mut objects));
    assert!(!place_monster(0, 6, 3, &map, &mut objects));
    assert_eq!(objects.len(), 1);
    assert!(place_monster(1, 3, 2, &map, &mut objects));
    assert_eq!(objects.len(), 2);
    assert_eq!(objects[1], make_monster(MonsterKind::Troll, 3, 2));
    assert!(place_monster(0, 1, 1, &map, &mut objects));
    assert_eq!(objects[2], make_monster(MonsterKind::Orc, 1, 1));
}

#[test]
fn an_item_can_lie_under_another_item() {
    let map = room_map(Rect::new(0, 0, 6, 6));
    let mut objects = vec![];
    let kinds = [Item::Heal, Item::Lightning, Item::Fireball, Item::Confuse, Item::Sword, Item::Shield];
    for (choice, kind) in kinds.iter().enumerate() {
        assert!(place_item(choice, 2, 2, &map, &mut objects));
        assert_eq!(objects[choice], make_item(*kind, 2, 2));
    }
    objects.push(make_monster(MonsterKind::Orc, 3, 3));
    assert!(!place_item(0, 3, 3, &map, &mut objects));
    assert!(!place_item(0, 0, 3, &map, &mut objects));
    assert_eq!(objects.len(), 7);
}

#[test]
fn the_first_level_has_orcs_and_healing_potions_only() {
    let room = Rect::new(10, 10, 8, 8);
    let map = room_map(room);
    let mut monsters = 0;
    let mut items = 0;
    for seed in 0..200 {
        let mut rng = StdRng::seed_from_u64(seed);
        let mut objects = vec![];
        place_objects(room, &map, &mut objects, 1, &mut rng);
        assert!(objects.len() <= 3);
        let mut seen_item = false;
        for o in &objects {
            assert!(room.x1 < o.x && o.x < room.x2 && room.y1 < o.y && o.y < room.y2);
            if o.fighter.is_some() {
                assert!(!seen_item);
                assert_eq!(*o, make_monster(MonsterKind::Orc, o.x, o.y));
                monsters += 1;
            } else {
                seen_item = true;
                assert_eq!(*o, make_item(Item::Heal, o.x, o.y));
                items += 1;
            }
        }
        assert!(objects.iter().filter(|o| o.fighter.is_some()).count() <= 2);
        assert!(objects.iter().filter(|o| o.item.is_some()).count() <= 1);
    }
    assert!(monsters > 0);
    assert!(items > 0);
}

#[test]
fn deep_levels_have_every_kind() {
    let room = Rect::new(10, 10, 10, 10);
    let map = room_map(room);
    let mut names: Vec<String> = vec![];
    let mut most = 0;
    for seed in 0..400 {
        let mut rng = StdRng::seed_from_u64(seed);
        let mut objects = vec![];
        place_objects(room, &map, &mut objects, 8, &mut rng);
        assert!(objects.len() <= 7);
        most = most.max(objects.len());
        for o in objects {
            if !names.contains(&o.name) {
                names.push(o.name.clone());
            }
        }
    }
    for name in [
        "Orc",
        "Troll",
        "Healing Potion",
        "Scroll of Lightning Bolt",
        "Scroll of Fireball",
        "Scroll of Confusion",
        "Sword",
        "shield",
    ] {
        assert!(names.iter().any(|n| n == name));
    }
    assert!(most >= 4);
}

#[test]
fn depth_zero_places_nothing() {
    let room = Rect::new(10, 10, 8, 8);
    let map = room_map(room);
    let mut rng = StdRng::seed_from_u64(1);
    let mut objects = vec![make_monster(MonsterKind::Orc, 1, 1)];
    place_objects(room, &map, &mut objects, 0, &mut rng);
    place_objects(Rect::new(3, 3, 0, 0), &map, &mut objects, 0, &mut rng);
    assert_eq!(objects.len(), 1);
}

#[test]
fn monsters_do_not_share_a_tile() {
    let room = Rect::new(10, 10, 3, 3);
    let map = room_map(room);
    for seed in 0..100 {
        let mut rng = StdRng::seed_from_u64(seed);
        let mut objects = vec![];
        place_objects(room, &map, &mut objects, 7, &mut rng);
        let blockers: Vec<&Object> = objects.iter().filter(|o| o.blocks).collect();
        for (i, a) in blockers.iter().enumerate() {
            for b in &blockers[..i] {
                assert_ne!(a.pos(), b.pos());
            }
        }
        for o in &objects {
            assert!(11 <= o.x && o.x <= 12 && 11 <= o.y && o.y <= 12);
        }
    }
}

#[test]
fn a_population_is_what_its_draws_say() {
    let map = room_map(Rect::new(0, 0, 6, 6));
    let mut objects = vec![make_monster(MonsterKind::Orc, 2, 2)];
    let monsters = vec![
        Draw { x: 3, y: 3, choice: 1 },
        Draw { x: 2, y: 2, choice: 0 },
        Draw { x: 3, y: 3, choice: 0 },
        Draw { x: 0, y: 3, choice: 0 },
        Draw { x: 4, y: 1, choice: 0 },
    ];
    let items = vec![
        Draw { x: 5, y: 5, choice: 4 },
        Draw { x: 3, y: 3, choice: 0 },
        Draw { x: 5, y: 5, choice: 2 },
        Draw { x: 6, y: 2, choice: 1 },
    ];
    populate(&monsters, &items, &map, &mut objects);
    assert_eq!(
        objects,
        vec![
            make_monster(MonsterKind::Orc, 2, 2),
            make_monster(MonsterKind::Troll, 3, 3),
            make_monster(MonsterKind::Orc, 4, 1),
            make_item(Item::Sword, 5, 5),
            make_item(Item::Fireball, 5, 5),
        ]
    );
}

#[test]
fn no_draws_place_nothing() {
    let map = room_map(Rect::new(0, 0, 6, 6));
    let mut objects = vec![make_monster(MonsterKind::Orc, 2, 2)];
    populate(&vec![], &vec![], &map, &mut objects);
    assert_eq!(objects, vec![make_monster(MonsterKind::Orc, 2, 2)]);
}

#[test]
fn draws_stay_inside_the_room_and_within_the_depth() {
    let room = Rect::new(10, 10, 7, 9);
    let mut seen_monsters = 0;
    let mut seen_trolls = 0;
    for seed in 0..100 {
        let mut rng = StdRng::seed_from_u64(seed);
        let (monsters, items) = draw_population(room, 1, &mut rng);
        assert!(monsters.len() <= 2 && items.len() <= 1);
        for d in monsters.iter().chain(items.iter()) {
            assert!(10 < d.x && d.x < 17 && 10 < d.y && d.y < 19);
            assert_eq!(d.choice, 0);
        }
        let mut rng = StdRng::seed_from_u64(seed);
        let (monsters, items) = draw_population(room, 9, &mut rng);
        assert!(monsters.len() <= 5 && items.len() <= 2);
        assert!(monsters.iter().all(|d| d.choice < 2));
        assert!(items.iter().all(|d| d.choice < 6));
        seen_monsters += monsters.len();
        seen_trolls += monsters.iter().filter(|d| d.choice == 1).count();
    }
    assert!(seen_monsters > 100);
    assert!(seen_trolls > 0 && seen_trolls < seen_monsters);
    let mut rng = StdRng::seed_from_u64(1);
    let (monsters, items) = draw_population(Rect::new(3, 3, 0, 0), 0, &mut rng);
    assert!(monsters.is_empty() && items.is_empty());
}

#[test]
fn place_objects_is_its_draws_populated() {
    let room = Rect::new(10, 10, 8, 8);
    let map = room_map(room);
    for seed in 0..30 {
        let mut rng = StdRng::seed_from_u64(seed);
        let mut placed = vec![make_monster(MonsterKind::Orc, 12, 12)];
        place_objects(room, &map, &mut placed, 6, &mut rng);
        let mut rng = StdRng::seed_from_u64(seed);
        let (monsters, items) = draw_population(room, 6, &mut rng);
        let mut expected = vec![make_monster(MonsterKind::Orc, 12, 12)];
        populate(&monsters, &items, &map, &mut expected);
        assert_eq!(placed, expected);
    }
}
