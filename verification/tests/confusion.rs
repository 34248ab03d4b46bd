use crablike::ai::ai_take_turn;
use crablike::color::Color;
use crablike::game::Game;
use crablike::grid::{create_room, new_wall_grid, Fov, Grid, Rect};
use crablike::messages::Messages;
use crablike::object::{Ai, DeathCallback, Fighter, Object};

fn open_room_grid() -> Grid {
    let mut grid = new_wall_grid();
    create_room(&Rect::new(0, 0, 30, 20), &mut grid);
    grid
}

fn player_at(x: i32, y: i32) -> Object {
    let mut p = Object::new(x, y, '@', "player", Color::White, true);
    p.alive = true;
    p.fighter = Some(Fighter {
        max_hp: 30,
        hp: 30,
        defense: 2,
        power: 5,
        on_death: DeathCallback::Player,
    });
    p
}

fn orc_at(x: i32, y: i32) -> Object {
    let mut o = Object::new(x, y, 'o', "orc", Color::DesaturatedGreen, true);
    o.alive = true;
    o.fighter = Some(Fighter {
        max_hp: 10,
        hp: 10,
        defense: 0,
        power: 3,
        on_death: DeathCallback::Monster,
    });
    o.ai = Some(Ai::Basic);
    o
}

fn confusion_count(messages: &Messages) -> usize {
    let mut n = 0;
    for i in 0..messages.len() {
        if messages.get(i).0.as_str() == "The orc is no longer confused!" {
            n += 1;
        }
    }
    n
}

#[test]
fn confusion_counts_down_and_reverts_to_basic() {
    // A confused monster staggers while its counter is non-negative and
    // reverts to its wrapped previous state once the counter has gone
    // negative, logging the reversion exactly once.
    let mut game = Game {
        map: open_room_grid(),
        inventory: Vec::new(),
        messages: Messages::new(),
    };
    let fov = Fov::new_dark();
    let mut monster = orc_at(10, 10);
    monster.ai = Some(Ai::Confused { previous_ai: Box::new(Ai::Basic), num_turns: 2 });
    let mut objects = vec![player_at(3, 3), monster];

    ai_take_turn(1, &fov, &mut objects, &mut game);
    match &objects[1].ai {
        Some(Ai::Confused { num_turns, .. }) => assert_eq!(*num_turns, 1),
        other => panic!("expected confusion, got {:?}", other),
    }

    ai_take_turn(1, &fov, &mut objects, &mut game);
    match &objects[1].ai {
        Some(Ai::Confused { num_turns, .. }) => assert_eq!(*num_turns, 0),
        other => panic!("expected confusion, got {:?}", other),
    }

    ai_take_turn(1, &fov, &mut objects, &mut game);
    match &objects[1].ai {
        Some(Ai::Confused { num_turns, .. }) => assert_eq!(*num_turns, -1),
        other => panic!("expected confusion, got {:?}", other),
    }
    assert_eq!(confusion_count(&game.messages), 0);

    // The turn that sees the negative counter restores the previous state
    // and logs the reversion message exactly once.
    ai_take_turn(1, &fov, &mut objects, &mut game);
    assert!(matches!(objects[1].ai, Some(Ai::Basic)));
    assert_eq!(confusion_count(&game.messages), 1);

    // Processing further never logs it again.
    ai_take_turn(1, &fov, &mut objects, &mut game);
    assert_eq!(confusion_count(&game.messages), 1);
}

#[test]
fn confused_monster_stays_within_one_step() {
    let mut game = Game {
        map: open_room_grid(),
        inventory: Vec::new(),
        messages: Messages::new(),
    };
    let fov = Fov::new_dark();
    let mut monster = orc_at(10, 10);
    monster.ai = Some(Ai::Confused { previous_ai: Box::new(Ai::Basic), num_turns: 5 });
    let mut objects = vec![player_at(3, 3), monster];

    let (x0, y0) = (objects[1].x, objects[1].y);
    ai_take_turn(1, &fov, &mut objects, &mut game);
    assert!((objects[1].x - x0).abs() <= 1);
    assert!((objects[1].y - y0).abs() <= 1);
}

#[test]
fn confusion_wraps_and_restores_nested_state() {
    // Confusion owns the prior state; reversion restores it by value.
    let mut game = Game {
        map: open_room_grid(),
        inventory: Vec::new(),
        messages: Messages::new(),
    };
    let fov = Fov::new_dark();
    let mut monster = orc_at(10, 10);
    monster.ai = Some(Ai::Confused {
        previous_ai: Box::new(Ai::Confused {
            previous_ai: Box::new(Ai::Basic),
            num_turns: 7,
        }),
        num_turns: -1,
    });
    let mut objects = vec![player_at(3, 3), monster];

    ai_take_turn(1, &fov, &mut objects, &mut game);
    match &objects[1].ai {
        Some(Ai::Confused { previous_ai, num_turns }) => {
            assert_eq!(*num_turns, 7);
            assert!(matches!(**previous_ai, Ai::Basic));
        },
        other => panic!("expected the inner confusion back, got {:?}", other),
    }
}

#[test]
fn invisible_basic_monster_does_nothing() {
    let mut game = Game {
        map: open_room_grid(),
        inventory: Vec::new(),
        messages: Messages::new(),
    };
    let fov = Fov::new_dark();
    let mut objects = vec![player_at(3, 3), orc_at(10, 10)];

    ai_take_turn(1, &fov, &mut objects, &mut game);

    assert_eq!((objects[1].x, objects[1].y), (10, 10));
    assert_eq!(game.messages.len(), 0);
    assert_eq!(objects[0].fighter.unwrap().hp, 30);
}

#[test]
fn visible_adjacent_monster_attacks_the_player() {
    let mut game = Game {
        map: open_room_grid(),
        inventory: Vec::new(),
        messages: Messages::new(),
    };
    let mut fov = Fov::new_dark();
    fov.set(4, 3, true);
    let mut objects = vec![player_at(3, 3), orc_at(4, 3)];

    ai_take_turn(1, &fov, &mut objects, &mut game);

    // Orc power 3 against player defense 2: one hit point.
    assert_eq!(objects[0].fighter.unwrap().hp, 29);
    assert_eq!(game.messages.get(0).0.as_str(), "orc attacks player for 1 hit points");
}

#[test]
fn visible_distant_monster_steps_toward_the_player() {
    let mut game = Game {
        map: open_room_grid(),
        inventory: Vec::new(),
        messages: Messages::new(),
    };
    let mut fov = Fov::new_dark();
    fov.set(10, 3, true);
    let mut objects = vec![player_at(3, 3), orc_at(10, 3)];

    ai_take_turn(1, &fov, &mut objects, &mut game);

    // A straight-line pursuit moves one tile along the x axis.
    assert_eq!((objects[1].x, objects[1].y), (9, 3));
    assert_eq!(objects[0].fighter.unwrap().hp, 30);
}
