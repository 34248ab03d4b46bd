use crablike::ai::move_towards;
use crablike::color::Color;
use crablike::game::{Game, PlayerAction};
use crablike::grid::{
    create_h_tunnel, create_room, create_v_tunnel, is_blocked, new_wall_grid, update_explored,
    Fov, Grid, Rect, Tile,
};
use crablike::messages::{decimal_string, Messages};
use crablike::object::{DeathCallback, Fighter, Item, Object};
use crablike::render::{draw_order, inventory_options, menu_letter_index};

fn open_room_grid() -> Grid {
    let mut grid = new_wall_grid();
    create_room(&Rect::new(0, 0, 30, 20), &mut grid);
    grid
}

fn player_at(x: i32, y: i32) -> Object {
    let mut p = Object::new(x, y, '@', "player", Color::White, true);
    p.alive = true;
    p.fighter = Some(Fighter {
        max_hp: 30,
        hp: 30,
        defense: 2,
        power: 5,
        on_death: DeathCallback::Player,
    });
    p
}

fn orc_at(x: i32, y: i32) -> Object {
    let mut o = Object::new(x, y, 'o', "orc", Color::DesaturatedGreen, true);
    o.alive = true;
    o.fighter = Some(Fighter {
        max_hp: 10,
        hp: 10,
        defense: 0,
        power: 3,
        on_death: DeathCallback::Monster,
    });
    o.ai = Some(crablike::object::Ai::Basic);
    o
}

#[test]
fn is_blocked_matches_walls_and_blocking_entities() {
    let grid = open_room_grid();
    let mut item = Object::new(4, 4, '!', "potion", Color::LightViolet, false);
    item.item = Some(Item::Heal);
    let objects = vec![player_at(2, 2), item];

    // A wall tile blocks regardless of entities.
    assert!(is_blocked(0, 0, &grid, &objects));
    // A floor tile with a blocking entity on it blocks.
    assert!(is_blocked(2, 2, &grid, &objects));
    // A floor tile with only a non-blocking entity does not block.
    assert!(!is_blocked(4, 4, &grid, &objects));
    // A bare floor tile does not block.
    assert!(!is_blocked(7, 7, &grid, &objects));
}

#[test]
fn tunnels_carve_inclusive_spans() {
    let mut grid = new_wall_grid();
    create_h_tunnel(10, 3, 5, &mut grid);
    for x in 3..=10 {
        assert!(!grid[x as usize][5].blocked);
    }
    assert!(grid[2][5].blocked);
    assert!(grid[11][5].blocked);

    create_v_tunnel(8, 2, 20, &mut grid);
    for y in 2..=8 {
        assert!(!grid[20][y as usize].blocked);
    }
    assert!(grid[20][1].blocked);
    assert!(grid[20][9].blocked);
}

#[test]
fn tile_color_keys_on_visibility_and_wall() {
    let w = Tile::wall();
    let f = Tile::empty();
    assert_eq!(w.color(false), Color::DarkWall);
    assert_eq!(w.color(true), Color::LightWall);
    assert_eq!(f.color(false), Color::DarkGround);
    assert_eq!(f.color(true), Color::LightGround);
    assert_eq!(Color::DarkWall.rgb(), (0, 0, 100));
    assert_eq!(Color::LightGround.rgb(), (200, 180, 50));
    assert_eq!(Color::Red.rgb(), (255, 0, 0));
}

#[test]
fn explored_flips_once_visible_and_sticks() {
    let mut grid = open_room_grid();
    let mut fov = Fov::new_dark();
    fov.set(5, 5, true);
    update_explored(&mut grid, &fov);
    assert!(grid[5][5].explored);
    assert!(!grid[6][5].explored);

    // Once explored, a tile stays explored even out of view.
    let dark = Fov::new_dark();
    update_explored(&mut grid, &dark);
    assert!(grid[5][5].explored);
}

#[test]
fn distance_sq_is_exact() {
    let a = player_at(1, 1);
    let b = orc_at(4, 5);
    assert_eq!(a.distance_sq(&b), 25);
    assert_eq!(b.distance_sq(&a), 25);
    assert_eq!(a.distance_sq(&a), 0);
}

#[test]
fn move_by_and_set_pos() {
    let mut o = orc_at(4, 5);
    o.move_by(-1, 2);
    assert_eq!(o.pos(), (3, 7));
    o.set_pos(9, 9);
    assert_eq!(o.pos(), (9, 9));
}

#[test]
fn move_towards_takes_rounded_unit_steps() {
    let grid = open_room_grid();

    // Straight line: a full step along the axis.
    let mut objects = vec![orc_at(10, 10)];
    move_towards(0, 14, 10, &grid, &mut objects);
    assert_eq!((objects[0].x, objects[0].y), (11, 10));

    // Exact diagonal: a step on both axes.
    let mut objects = vec![orc_at(10, 10)];
    move_towards(0, 14, 14, &grid, &mut objects);
    assert_eq!((objects[0].x, objects[0].y), (11, 11));

    // A shallow slope rounds the minor axis away.
    let mut objects = vec![orc_at(10, 10)];
    move_towards(0, 18, 11, &grid, &mut objects);
    assert_eq!((objects[0].x, objects[0].y), (11, 10));
}

#[test]
fn move_towards_blocked_destination_stays_put() {
    let grid = open_room_grid();
    // The orc stands beside the room wall at x == 29; the tile at x == 30
    // is a wall, so a step toward it is skipped.
    let mut objects = vec![orc_at(28, 10)];
    move_towards(0, 32, 10, &grid, &mut objects);
    assert_eq!((objects[0].x, objects[0].y), (29, 10));
    move_towards(0, 32, 10, &grid, &mut objects);
    assert_eq!((objects[0].x, objects[0].y), (29, 10));
}

#[test]
fn player_move_or_attack_moves_or_bumps() {
    let mut game = Game {
        map: open_room_grid(),
        inventory: Vec::new(),
        messages: Messages::new(),
    };
    let mut objects = vec![player_at(5, 5), orc_at(7, 5)];

    // Free tile: the player steps.
    let action = game.player_move_or_attack(&mut objects, 1, 0);
    assert_eq!(action, PlayerAction::TookTurn);
    assert_eq!((objects[0].x, objects[0].y), (6, 5));
    assert_eq!(game.messages.len(), 0);

    // Fighter on the destination: the step becomes an attack.
    let action = game.player_move_or_attack(&mut objects, 1, 0);
    assert_eq!(action, PlayerAction::TookTurn);
    assert_eq!((objects[0].x, objects[0].y), (6, 5));
    assert_eq!(objects[1].fighter.unwrap().hp, 5);
    assert_eq!(game.messages.get(0).0.as_str(), "player attacks orc for 5 hit points");
}

#[test]
fn player_blocked_by_wall_does_not_move() {
    let mut game = Game {
        map: open_room_grid(),
        inventory: Vec::new(),
        messages: Messages::new(),
    };
    let mut objects = vec![player_at(1, 1)];
    let action = game.player_move_or_attack(&mut objects, -1, 0);
    assert_eq!(action, PlayerAction::TookTurn);
    assert_eq!((objects[0].x, objects[0].y), (1, 1));
}

#[test]
fn draw_order_puts_blocking_entities_last() {
    let mut fov = Fov::new_dark();
    fov.set(2, 2, true);
    fov.set(3, 3, true);
    fov.set(4, 4, true);
    let mut corpse = Object::new(3, 3, '%', "remains of orc", Color::DarkRed, false);
    corpse.alive = false;
    let objects = vec![player_at(2, 2), corpse, orc_at(4, 4), orc_at(9, 9)];

    let order = draw_order(&objects, &fov);

    // The invisible orc at (9, 9) is skipped; the non-blocking corpse
    // comes before both blocking entities, which keep list order.
    assert_eq!(order, vec![1, 0, 2]);
}

#[test]
fn inventory_options_lists_names_or_placeholder() {
    let empty: Vec<Object> = Vec::new();
    let options = inventory_options(&empty);
    assert_eq!(options.len(), 1);
    assert_eq!(options[0].as_str(), "Inventory is empty.");

    let mut potion = Object::new(0, 0, '!', "healing potion", Color::LightViolet, false);
    potion.item = Some(Item::Heal);
    let mut scroll = Object::new(0, 0, '#', "scroll of confusion", Color::LightGreen, false);
    scroll.item = Some(Item::Confuse);
    let inv = vec![potion, scroll];
    let options = inventory_options(&inv);
    assert_eq!(options.len(), 2);
    assert_eq!(options[0].as_str(), "healing potion");
    assert_eq!(options[1].as_str(), "scroll of confusion");
}

#[test]
fn menu_letters_map_one_to_one_onto_slots() {
    assert_eq!(menu_letter_index('a', 26), Some(0));
    assert_eq!(menu_letter_index('c', 26), Some(2));
    assert_eq!(menu_letter_index('z', 26), Some(25));
    assert_eq!(menu_letter_index('C', 26), Some(2));
    assert_eq!(menu_letter_index('d', 3), None);
    assert_eq!(menu_letter_index('1', 26), None);
    assert_eq!(menu_letter_index(' ', 26), None);
    assert_eq!(menu_letter_index('é', 26), None);
}

#[test]
fn decimal_rendering_is_exact() {
    assert_eq!(decimal_string(0).as_str(), "0");
    assert_eq!(decimal_string(7).as_str(), "7");
    assert_eq!(decimal_string(40).as_str(), "40");
    assert_eq!(decimal_string(12345).as_str(), "12345");
    assert_eq!(decimal_string(i32::MAX).as_str(), "2147483647");
}

#[test]
fn message_log_appends_in_order() {
    let mut messages = Messages::new();
    assert_eq!(messages.len(), 0);
    messages.add(String::from("Welcome, prepare to get died!"), Color::Red);
    messages.add(String::from("second"), Color::White);
    assert_eq!(messages.len(), 2);
    assert_eq!(messages.get(0).0.as_str(), "Welcome, prepare to get died!");
    assert_eq!(messages.get(0).1, Color::Red);
    assert_eq!(messages.get(1).0.as_str(), "second");
}

#[test]
fn object_new_starts_bare() {
    let o = Object::new(3, 4, '?', "thing", Color::White, false);
    assert_eq!(o.pos(), (3, 4));
    assert_eq!(o.glyph, '?');
    assert_eq!(o.name.as_str(), "thing");
    assert!(!o.blocks && !o.alive);
    assert!(o.fighter.is_none() && o.ai.is_none() && o.item.is_none());
}
