use crablike::color::Color;
use crablike::game::Game;
use crablike::grid::{create_room, new_wall_grid, Fov, Grid, Rect};
use crablike::items::{player_pick_up, use_item};
use crablike::messages::Messages;
use crablike::object::{Ai, DeathCallback, Fighter, Item, Object};

fn open_room_grid() -> Grid {
    let mut grid = new_wall_grid();
    create_room(&Rect::new(0, 0, 30, 20), &mut grid);
    grid
}

fn player_at(x: i32, y: i32) -> Object {
    let mut p = Object::new(x, y, '@', "player", Color::White, true);
    p.alive = true;
    p.fighter = Some(Fighter {
        max_hp: 30,
        hp: 30,
        defense: 2,
        power: 5,
        on_death: DeathCallback::Player,
    });
    p
}

fn orc_at(x: i32, y: i32) -> Object {
    let mut o = Object::new(x, y, 'o', "orc", Color::DesaturatedGreen, true);
    o.alive = true;
    o.fighter = Some(Fighter {
        max_hp: 10,
        hp: 10,
        defense: 0,
        power: 3,
        on_death: DeathCallback::Monster,
    });
    o.ai = Some(Ai::Basic);
    o
}

fn potion_at(x: i32, y: i32) -> Object {
    let mut it = Object::new(x, y, '!', "healing potion", Color::LightViolet, false);
    it.item = Some(Item::Heal);
    it
}

fn scroll_at(x: i32, y: i32, kind: Item, name: &str) -> Object {
    let mut it = Object::new(x, y, '#', name, Color::LightBlue, false);
    it.item = Some(kind);
    it
}

fn game_with(grid: Grid) -> Game {
    Game { map: grid, inventory: Vec::new(), messages: Messages::new() }
}

#[test]
fn pickup_moves_item_into_inventory() {
    let mut game = game_with(open_room_grid());
    let mut objects = vec![player_at(5, 5), potion_at(5, 5)];

    let action = player_pick_up(&mut game, &mut objects);

    assert_eq!(action, crablike::game::PlayerAction::TookTurn);
    assert_eq!(objects.len(), 1);
    assert_eq!(game.inventory.len(), 1);
    assert_eq!(game.inventory[0].name.as_str(), "healing potion");
    assert_eq!(game.messages.len(), 1);
    assert_eq!(game.messages.get(0).0.as_str(), "You picked up a healing potion!");
    assert_eq!(game.messages.get(0).1, Color::Green);
}

#[test]
fn pickup_without_item_is_a_quiet_turn() {
    let mut game = game_with(open_room_grid());
    let mut objects = vec![player_at(5, 5), potion_at(9, 9)];

    let action = player_pick_up(&mut game, &mut objects);

    assert_eq!(action, crablike::game::PlayerAction::TookTurn);
    assert_eq!(objects.len(), 2);
    assert_eq!(game.inventory.len(), 0);
    assert_eq!(game.messages.len(), 0);
}

#[test]
fn twenty_seventh_pickup_fails_and_leaves_floor_item() {
    let mut game = game_with(open_room_grid());
    for _ in 0..26 {
        game.inventory.push(potion_at(0, 0));
    }
    let mut objects = vec![player_at(5, 5), potion_at(5, 5)];

    player_pick_up(&mut game, &mut objects);

    // The floor item is unmoved and the inventory untouched.
    assert_eq!(objects.len(), 2);
    assert_eq!(objects[1].name.as_str(), "healing potion");
    assert_eq!((objects[1].x, objects[1].y), (5, 5));
    assert_eq!(game.inventory.len(), 26);
    assert_eq!(game.messages.len(), 1);
    assert_eq!(
        game.messages.get(0).0.as_str(),
        "Your inventory is full, cannot pick up healing potion."
    );
    assert_eq!(game.messages.get(0).1, Color::Red);
}

#[test]
fn lightning_without_target_keeps_the_item() {
    let mut game = game_with(open_room_grid());
    game.inventory.push(scroll_at(0, 0, Item::Lightning, "scroll of lightning bolt"));
    let fov = Fov::new_dark();
    let mut objects = vec![player_at(5, 5), orc_at(7, 5)];

    use_item(0, &fov, &mut game, &mut objects);

    // No visible enemy in range: the item stays in the inventory.
    assert_eq!(game.inventory.len(), 1);
    assert_eq!(objects[1].fighter.unwrap().hp, 10);
    assert_eq!(game.messages.len(), 2);
    assert_eq!(game.messages.get(0).0.as_str(), "No enemy is close enough to strike.");
    assert_eq!(game.messages.get(1).0.as_str(), "Cancelled");
}

#[test]
fn lightning_strikes_exactly_the_nearest_visible_fighter() {
    let mut game = game_with(open_room_grid());
    game.inventory.push(scroll_at(0, 0, Item::Lightning, "scroll of lightning bolt"));
    let mut fov = Fov::new_dark();
    fov.set(7, 5, true);
    fov.set(9, 5, true);
    let near = orc_at(7, 5);
    let far = orc_at(9, 5);
    let mut objects = vec![player_at(5, 5), far, near];

    use_item(0, &fov, &mut game, &mut objects);

    // The item is consumed, the nearest visible fighter takes 40 damage
    // (death for an orc), and the farther one is untouched.
    assert_eq!(game.inventory.len(), 0);
    assert_eq!(objects[1].fighter.unwrap().hp, 10);
    assert!(objects[2].fighter.is_none());
    assert!(!objects[2].alive);
    assert_eq!(objects[2].name.as_str(), "remains of orc");
    assert_eq!(
        game.messages.get(0).0.as_str(),
        "A lightning bolt strikes the orc with a loud thunder! for 40 hit points."
    );
    assert_eq!(game.messages.get(1).0.as_str(), "orc died!");
}

#[test]
fn lightning_range_boundary_is_exclusive() {
    // The search accepts squared distances strictly below (range + 1)^2.
    // At range 5 that bound is 36: distance 6 misses, distance 5 hits.
    let mut game = game_with(open_room_grid());
    game.inventory.push(scroll_at(0, 0, Item::Lightning, "scroll of lightning bolt"));
    game.inventory.push(scroll_at(0, 0, Item::Lightning, "scroll of lightning bolt"));
    let mut fov = Fov::new_dark();
    fov.set(11, 5, true);
    let mut objects = vec![player_at(5, 5), orc_at(11, 5)];

    use_item(0, &fov, &mut game, &mut objects);
    assert_eq!(game.inventory.len(), 2);
    assert_eq!(objects[1].fighter.unwrap().hp, 10);

    // One tile closer, the bolt lands.
    objects[1].set_pos(10, 5);
    fov.set(10, 5, true);
    use_item(0, &fov, &mut game, &mut objects);
    assert_eq!(game.inventory.len(), 1);
    assert!(objects[1].fighter.is_none());
}

#[test]
fn heal_at_full_health_is_cancelled() {
    let mut game = game_with(open_room_grid());
    game.inventory.push(potion_at(0, 0));
    let fov = Fov::new_dark();
    let mut objects = vec![player_at(5, 5)];

    use_item(0, &fov, &mut game, &mut objects);

    assert_eq!(game.inventory.len(), 1);
    assert_eq!(objects[0].fighter.unwrap().hp, 30);
    assert_eq!(game.messages.get(0).0.as_str(), "You are already at full health.");
    assert_eq!(game.messages.get(1).0.as_str(), "Cancelled");
}

#[test]
fn heal_restores_fixed_amount_capped() {
    let mut game = game_with(open_room_grid());
    game.inventory.push(potion_at(0, 0));
    game.inventory.push(potion_at(0, 0));
    let fov = Fov::new_dark();
    let mut objects = vec![player_at(5, 5)];
    objects[0].fighter = Some(Fighter {
        max_hp: 30,
        hp: 23,
        defense: 2,
        power: 5,
        on_death: DeathCallback::Player,
    });

    use_item(0, &fov, &mut game, &mut objects);
    assert_eq!(objects[0].fighter.unwrap().hp, 27);
    assert_eq!(game.inventory.len(), 1);

    use_item(0, &fov, &mut game, &mut objects);
    // 27 + 4 caps at the maximum of 30.
    assert_eq!(objects[0].fighter.unwrap().hp, 30);
    assert_eq!(game.inventory.len(), 0);
}

#[test]
fn confuse_wraps_target_ai_and_is_consumed() {
    let mut game = game_with(open_room_grid());
    game.inventory.push(scroll_at(0, 0, Item::Confuse, "scroll of confusion"));
    let mut fov = Fov::new_dark();
    fov.set(7, 5, true);
    let mut objects = vec![player_at(5, 5), orc_at(7, 5)];

    use_item(0, &fov, &mut game, &mut objects);

    assert_eq!(game.inventory.len(), 0);
    match &objects[1].ai {
        Some(Ai::Confused { previous_ai, num_turns }) => {
            assert!(matches!(**previous_ai, Ai::Basic));
            assert_eq!(*num_turns, crablike::CONFUSE_NUM_TURNS);
        },
        other => panic!("expected confusion, got {:?}", other),
    }
    assert_eq!(game.messages.get(0).0.as_str(), "orc looks confused");
    assert_eq!(game.messages.get(0).1, Color::LightGreen);
}

#[test]
fn confuse_without_target_keeps_the_item() {
    let mut game = game_with(open_room_grid());
    game.inventory.push(scroll_at(0, 0, Item::Confuse, "scroll of confusion"));
    let fov = Fov::new_dark();
    let mut objects = vec![player_at(5, 5), orc_at(7, 5)];

    use_item(0, &fov, &mut game, &mut objects);

    assert_eq!(game.inventory.len(), 1);
    assert!(matches!(objects[1].ai, Some(Ai::Basic)));
    assert_eq!(game.messages.get(0).0.as_str(), "No enemy is close enough to strike.");
    assert_eq!(game.messages.get(1).0.as_str(), "Cancelled");
}

#[test]
fn entity_without_item_tag_cannot_be_used() {
    let mut game = game_with(open_room_grid());
    game.inventory.push(Object::new(0, 0, '?', "strange rock", Color::White, false));
    let fov = Fov::new_dark();
    let mut objects = vec![player_at(5, 5)];

    use_item(0, &fov, &mut game, &mut objects);

    assert_eq!(game.inventory.len(), 1);
    assert_eq!(game.messages.get(0).0.as_str(), "The strange rock cannot be used.");
    assert_eq!(game.messages.get(0).1, Color::White);
}
