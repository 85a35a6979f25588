use roguelike::color::Color;
use roguelike::equipment::Slot;
use roguelike::fov::{initialize_fov, FovCell, FovMap};
use roguelike::item::Item;
use roguelike::map::{create_room, Rect, Tile, TileMap, MAP_HEIGHT, MAP_WIDTH};
use roguelike::menu::{inventory_choice, inventory_options, menu_choice, menu_letter};
use roguelike::object::Object;
use roguelike::population::{make_item, make_monster, MonsterKind};
use roguelike::render::{
    draw_order, fov_recompute, get_names_under_mouse, mark_explored, tile_color,
};
use roguelike::targeting::{
    closest_monster, monster_at, target_monster, target_tile, Pointer, Selection,
};

fn seeing_all() -> FovMap {
    let mut fov = FovMap::new();
    for x in 0..MAP_WIDTH {
        for y in 0..MAP_HEIGHT {
            fov.set_in_fov(x, y, true);
        }
    }
    fov
}

fn me(x: i32, y: i32) -> Object {
    let mut p = make_monster(MonsterKind::Orc, x, y);
    p.name = String::from("Player");
    p.ai = None;
    p
}

fn click(x: i32, y: i32) -> Pointer {
    Pointer { x, y, left_pressed: true, right_pressed: false, escape_pressed: false }
}

#[test]
fn a_new_fov_map_sees_nothing() {
    let fov = FovMap::new();
    assert_eq!(fov.cells.len(), MAP_WIDTH as usize);
    assert_eq!(fov.cells[0].len(), MAP_HEIGHT as usize);
    assert_eq!(fov.cell(3, 4), FovCell { transparent: false, walkable: false, in_fov: false });
    assert!(!fov.is_in_fov(3, 4));
}

#[test]
fn nothing_off_the_grid_is_in_view() {
    let fov = seeing_all();
    assert!(fov.is_in_fov(0, 0));
    assert!(fov.is_in_fov(79, 42));
    assert!(!fov.is_in_fov(-1, 0));
    assert!(!fov.is_in_fov(0, -1));
    assert!(!fov.is_in_fov(80, 0));
    assert!(!fov.is_in_fov(0, 43));
}

#[test]
fn set_in_fov_keeps_the_rest_of_the_cell() {
    let mut fov = FovMap::new();
    fov.set_cell(2, 2, FovCell { transparent: true, walkable: false, in_fov: false });
    fov.set_in_fov(2, 2, true);
    assert_eq!(fov.cell(2, 2), FovCell { transparent: true, walkable: false, in_fov: true });
    assert!(!fov.is_in_fov(2, 3));
}

#[test]
fn the_fov_map_follows_the_tiles() {
    let mut map = TileMap::new();
    create_room(Rect::new(2, 2, 4, 4), &mut map);
    map.set_tile(9, 9, Tile { blocked: true, block_sight: false, explored: true });
    let mut fov = seeing_all();
    initialize_fov(&mut fov, &map);
    assert_eq!(fov.cell(3, 3), FovCell { transparent: true, walkable: true, in_fov: false });
    assert_eq!(fov.cell(2, 2), FovCell { transparent: false, walkable: false, in_fov: false });
    assert_eq!(fov.cell(9, 9), FovCell { transparent: true, walkable: false, in_fov: false });
    assert_eq!(fov.cell(79, 42), FovCell { transparent: false, walkable: false, in_fov: false });
}

#[test]
fn tiles_have_four_colours() {
    assert_eq!(tile_color(false, true), Color::DarkWall);
    assert_eq!(tile_color(false, false), Color::DarkGround);
    assert_eq!(tile_color(true, true), Color::LightWall);
    assert_eq!(tile_color(true, false), Color::LightGround);
}

#[test]
fn tiles_in_view_become_explored_and_stay_so() {
    let mut map = TileMap::new();
    create_room(Rect::new(2, 2, 4, 4), &mut map);
    let mut fov = FovMap::new();
    fov.set_in_fov(3, 3, true);
    fov.set_in_fov(2, 2, true);
    mark_explored(&mut map, &fov);
    assert_eq!(map.tile(3, 3), Tile { blocked: false, block_sight: false, explored: true });
    assert_eq!(map.tile(2, 2), Tile { blocked: true, block_sight: true, explored: true });
    assert_eq!(map.tile(4, 4), Tile::empty());
    let mut later = FovMap::new();
    later.set_in_fov(4, 4, true);
    mark_explored(&mut map, &later);
    assert!(map.tile(3, 3).explored);
    assert!(map.tile(4, 4).explored);
    assert!(!map.tile(5, 5).explored);
}

#[test]
fn what_lies_is_drawn_before_what_stands() {
    let mut map = TileMap::new();
    let fov = seeing_all();
    let objects = vec![
        me(5, 5),
        make_item(Item::Heal, 5, 5),
        make_monster(MonsterKind::Orc, 6, 5),
        make_item(Item::Sword, 6, 5),
    ];
    assert_eq!(draw_order(&objects, &fov, &map), vec![1, 3, 0, 2]);
    assert_eq!(draw_order(&vec![], &fov, &map), vec![]);
    let dark = FovMap::new();
    assert_eq!(draw_order(&objects, &dark, &map), vec![]);
    map.set_tile(5, 5, Tile { blocked: false, block_sight: false, explored: true });
    assert_eq!(draw_order(&objects, &dark, &map), vec![1]);
    let mut off = make_item(Item::Heal, -1, 5);
    off.always_visible = true;
    assert_eq!(draw_order(&vec![off], &dark, &map), vec![]);
}

#[test]
fn names_under_the_pointer_are_joined() {
    let mut fov = seeing_all();
    let objects = vec![
        me(5, 5),
        make_item(Item::Heal, 6, 5),
        make_monster(MonsterKind::Orc, 6, 5),
        make_item(Item::Sword, 6, 5),
        make_monster(MonsterKind::Troll, 7, 5),
    ];
    assert_eq!(get_names_under_mouse(6, 5, &objects, &fov), "Healing Potion, Orc, Sword");
    assert_eq!(get_names_under_mouse(5, 5, &objects, &fov), "Player");
    assert_eq!(get_names_under_mouse(8, 5, &objects, &fov), "");
    fov.set_in_fov(6, 5, false);
    assert_eq!(get_names_under_mouse(6, 5, &objects, &fov), "");
    assert_eq!(get_names_under_mouse(7, 5, &objects, &fov), "Troll");
}

#[test]
fn the_view_is_stale_once_the_player_has_moved() {
    let objects = vec![me(5, 5)];
    assert!(fov_recompute((-1, -1), &objects));
    assert!(!fov_recompute((5, 5), &objects));
    assert!(fov_recompute((5, 6), &objects));
    assert!(fov_recompute((4, 5), &objects));
}

#[test]
fn menu_letters_pick_options() {
    assert_eq!(menu_choice('a', 3), Some(0));
    assert_eq!(menu_choice('c', 3), Some(2));
    assert_eq!(menu_choice('d', 3), None);
    assert_eq!(menu_choice('B', 3), Some(1));
    assert_eq!(menu_choice('z', 26), Some(25));
    assert_eq!(menu_choice('Z', 26), Some(25));
    assert_eq!(menu_choice('z', 25), None);
    assert_eq!(menu_choice('a', 0), None);
    assert_eq!(menu_choice('1', 3), None);
    assert_eq!(menu_choice(' ', 26), None);
    assert_eq!(menu_choice('\u{e9}', 26), None);
    assert_eq!(menu_choice('`', 26), None);
    assert_eq!(menu_choice('{', 26), None);
    assert_eq!(menu_choice('@', 26), None);
    assert_eq!(menu_choice('[', 26), None);
}

#[test]
fn options_are_lettered_from_a() {
    assert_eq!(menu_letter(0), 'a');
    assert_eq!(menu_letter(1), 'b');
    assert_eq!(menu_letter(25), 'z');
}

#[test]
fn the_inventory_lists_what_is_worn() {
    let mut sword = make_item(Item::Sword, 0, 0);
    sword.equipment.as_mut().unwrap().equipped = true;
    let mut helmet = make_item(Item::Shield, 0, 0);
    helmet.name = String::from("helmet");
    helmet.equipment.as_mut().unwrap().slot = Slot::Head;
    helmet.equipment.as_mut().unwrap().equipped = true;
    let inventory = vec![make_item(Item::Heal, 0, 0), sword, make_item(Item::Shield, 0, 0), helmet];
    assert_eq!(
        inventory_options(&inventory),
        vec!["Healing Potion", "Sword (on right hand)", "shield", "helmet (on head)"]
    );
    assert_eq!(inventory_options(&vec![]), vec!["Inventory is empty."]);
}

#[test]
fn an_empty_inventory_offers_no_choice() {
    assert_eq!(inventory_choice(Some(0), &vec![]), None);
    assert_eq!(inventory_choice(None, &vec![]), None);
    let inventory = vec![make_item(Item::Heal, 0, 0)];
    assert_eq!(inventory_choice(Some(0), &inventory), Some(0));
    assert_eq!(inventory_choice(None, &inventory), None);
}

#[test]
fn the_closest_monster_in_view_and_range() {
    let mut fov = seeing_all();
    let mut objects = vec![
        me(10, 10),
        make_monster(MonsterKind::Orc, 13, 14),
        make_item(Item::Heal, 10, 11),
        make_monster(MonsterKind::Troll, 12, 10),
        make_monster(MonsterKind::Orc, 10, 12),
    ];
    assert_eq!(closest_monster(&fov, &objects, 5), Some(3));
    assert_eq!(closest_monster(&fov, &objects, 1), None);
    assert_eq!(closest_monster(&fov, &objects, 2), Some(3));
    fov.set_in_fov(12, 10, false);
    assert_eq!(closest_monster(&fov, &objects, 5), Some(4));
    objects[4].ai = None;
    assert_eq!(closest_monster(&fov, &objects, 5), Some(1));
    assert_eq!(closest_monster(&fov, &objects, 4), None);
    assert_eq!(closest_monster(&fov, &objects, -1), None);
    assert_eq!(closest_monster(&fov, &objects, i32::MIN), None);
    assert_eq!(closest_monster(&fov, &objects, i32::MAX), Some(1));
    assert_eq!(closest_monster(&fov, &vec![], 5), None);
    assert_eq!(closest_monster(&fov, &vec![me(1, 1)], 5), None);
}

#[test]
fn the_range_itself_is_in_reach_and_nothing_beyond() {
    let fov = seeing_all();
    let straight = vec![me(10, 10), make_monster(MonsterKind::Orc, 15, 10)];
    assert_eq!(closest_monster(&fov, &straight, 5), Some(1));
    let slanted = vec![me(10, 10), make_monster(MonsterKind::Orc, 13, 14)];
    assert_eq!(closest_monster(&fov, &slanted, 5), Some(1));
    let just_beyond = vec![me(10, 10), make_monster(MonsterKind::Orc, 15, 11)];
    assert_eq!(closest_monster(&fov, &just_beyond, 5), None);
    let beyond = vec![me(10, 10), make_monster(MonsterKind::Orc, 15, 12)];
    assert_eq!(closest_monster(&fov, &beyond, 5), None);
    let edge = vec![me(10, 10), make_monster(MonsterKind::Orc, 16, 10)];
    assert_eq!(closest_monster(&fov, &edge, 5), None);
    let diagonal = vec![me(10, 10), make_monster(MonsterKind::Orc, 14, 14)];
    assert_eq!(closest_monster(&fov, &diagonal, 5), None);
    let on_top = vec![me(10, 10), make_monster(MonsterKind::Orc, 10, 10)];
    assert_eq!(closest_monster(&fov, &on_top, 0), Some(1));
    assert_eq!(closest_monster(&fov, &straight, 4), None);
}

#[test]
fn the_first_monster_on_a_tile() {
    let objects = vec![
        me(10, 10),
        make_item(Item::Heal, 11, 10),
        make_monster(MonsterKind::Orc, 11, 10),
        make_monster(MonsterKind::Troll, 11, 10),
    ];
    assert_eq!(monster_at(11, 10, &objects), Some(2));
    assert_eq!(monster_at(10, 10, &objects), None);
    assert_eq!(monster_at(12, 10, &objects), None);
    assert_eq!(monster_at(11, 10, &vec![]), None);
}

#[test]
fn choosing_a_tile_step_by_step() {
    let mut fov = seeing_all();
    fov.set_in_fov(20, 20, false);
    let objects = vec![me(10, 10)];
    assert_eq!(target_tile(click(13, 14), &fov, &objects, None), Selection::Chosen((13, 14)));
    assert_eq!(target_tile(click(60, 40), &fov, &objects, None), Selection::Chosen((60, 40)));
    assert_eq!(target_tile(click(20, 20), &fov, &objects, None), Selection::Pending);
    assert_eq!(target_tile(click(80, 20), &fov, &objects, None), Selection::Pending);
    assert_eq!(target_tile(click(10, 18), &fov, &objects, Some(8)), Selection::Chosen((10, 18)));
    assert_eq!(target_tile(click(10, 19), &fov, &objects, Some(8)), Selection::Pending);
    assert_eq!(target_tile(click(15, 16), &fov, &objects, Some(8)), Selection::Chosen((15, 16)));
    assert_eq!(target_tile(click(16, 16), &fov, &objects, Some(8)), Selection::Pending);
    assert_eq!(target_tile(click(10, 10), &fov, &objects, Some(0)), Selection::Chosen((10, 10)));
    assert_eq!(target_tile(click(10, 10), &fov, &objects, Some(-1)), Selection::Pending);
    let idle = Pointer { x: 13, y: 14, left_pressed: false, right_pressed: false, escape_pressed: false };
    assert_eq!(target_tile(idle, &fov, &objects, None), Selection::Pending);
    let right = Pointer { right_pressed: true, ..idle };
    assert_eq!(target_tile(right, &fov, &objects, None), Selection::Cancelled);
    let escape = Pointer { escape_pressed: true, ..idle };
    assert_eq!(target_tile(escape, &fov, &objects, None), Selection::Cancelled);
    let both = Pointer { left_pressed: true, right_pressed: true, ..idle };
    assert_eq!(target_tile(both, &fov, &objects, None), Selection::Chosen((13, 14)));
    let out_of_range = Pointer { x: 10, y: 30, left_pressed: true, right_pressed: true, escape_pressed: false };
    assert_eq!(target_tile(out_of_range, &fov, &objects, Some(8)), Selection::Cancelled);
}

#[test]
fn choosing_a_monster_waits_for_one() {
    let fov = seeing_all();
    let objects = vec![
        me(10, 10),
        make_item(Item::Heal, 12, 10),
        make_monster(MonsterKind::Orc, 13, 10),
        make_monster(MonsterKind::Orc, 30, 10),
    ];
    assert_eq!(target_monster(click(13, 10), &fov, &objects, Some(8)), Selection::Chosen(2));
    assert_eq!(target_monster(click(12, 10), &fov, &objects, Some(8)), Selection::Pending);
    assert_eq!(target_monster(click(10, 10), &fov, &objects, Some(8)), Selection::Pending);
    assert_eq!(target_monster(click(30, 10), &fov, &objects, Some(8)), Selection::Pending);
    assert_eq!(target_monster(click(30, 10), &fov, &objects, None), Selection::Chosen(3));
    let give_up = Pointer { x: 13, y: 10, left_pressed: false, right_pressed: true, escape_pressed: false };
    assert_eq!(target_monster(give_up, &fov, &objects, Some(8)), Selection::Cancelled);
}
