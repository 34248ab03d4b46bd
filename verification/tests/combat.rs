use crablike::color::Color;
use crablike::combat::attack;
use crablike::messages::Messages;
use crablike::object::{Ai, DeathCallback, Fighter, Object};

fn fighter(max_hp: i32, hp: i32, defense: i32, power: i32, on_death: DeathCallback) -> Fighter {
    Fighter { max_hp, hp, defense, power, on_death }
}

fn player_at(x: i32, y: i32) -> Object {
    let mut p = Object::new(x, y, '@', "player", Color::White, true);
    p.alive = true;
    p.fighter = Some(fighter(30, 30, 2, 5, DeathCallback::Player));
    p
}

fn orc_at(x: i32, y: i32) -> Object {
    let mut o = Object::new(x, y, 'o', "orc", Color::DesaturatedGreen, true);
    o.alive = true;
    o.fighter = Some(fighter(10, 10, 0, 3, DeathCallback::Monster));
    o.ai = Some(Ai::Basic);
    o
}

#[test]
fn attack_power_5_defense_2_deals_3_damage() {
    let mut messages = Messages::new();
    let mut p = player_at(1, 1);
    p.fighter = Some(fighter(30, 30, 2, 5, DeathCallback::Player));
    let mut t = orc_at(2, 1);
    t.fighter = Some(fighter(10, 10, 2, 1, DeathCallback::Monster));
    let mut objects = vec![p, t];

    attack(&mut objects, 0, 1, &mut messages);

    assert_eq!(objects[1].fighter.unwrap().hp, 7);
    assert_eq!(messages.len(), 1);
    let (text, color) = messages.get(0);
    assert_eq!(text.as_str(), "player attacks orc for 3 hit points");
    assert_eq!(*color, Color::Red);
}

#[test]
fn attack_power_2_defense_5_has_no_effect() {
    let mut messages = Messages::new();
    let mut a = orc_at(1, 1);
    a.fighter = Some(fighter(10, 10, 0, 2, DeathCallback::Monster));
    let mut t = player_at(2, 1);
    t.fighter = Some(fighter(30, 30, 5, 5, DeathCallback::Player));
    let mut objects = vec![a, t];

    attack(&mut objects, 0, 1, &mut messages);

    assert_eq!(objects[1].fighter.unwrap().hp, 30);
    assert_eq!(messages.len(), 1);
    let (text, color) = messages.get(0);
    assert_eq!(text.as_str(), "orc attacks player but it has no effect!");
    assert_eq!(*color, Color::Green);
}

#[test]
fn monster_death_transition() {
    let mut messages = Messages::new();
    let mut m = orc_at(3, 3);
    m.fighter = Some(fighter(10, 1, 0, 3, DeathCallback::Monster));

    m.take_damage(5, &mut messages);

    assert!(!m.alive);
    assert!(!m.blocks);
    assert!(m.fighter.is_none());
    assert!(m.ai.is_none());
    assert_eq!(m.glyph, '%');
    assert_eq!(m.color, Color::DarkRed);
    assert_eq!(m.name.as_str(), "remains of orc");
    assert_eq!(messages.len(), 1);
    assert_eq!(messages.get(0).0.as_str(), "orc died!");
    assert_eq!(messages.get(0).1, Color::Orange);
}

#[test]
fn player_death_transition() {
    let mut messages = Messages::new();
    let mut p = player_at(3, 3);
    p.fighter = Some(fighter(30, 2, 0, 5, DeathCallback::Player));

    p.take_damage(4, &mut messages);

    assert!(!p.alive);
    // The player entity stays in place with its fighter attached.
    assert!(p.fighter.is_some());
    assert_eq!(p.fighter.unwrap().hp, -2);
    assert_eq!(p.glyph, '%');
    assert_eq!(p.color, Color::DarkRed);
    assert_eq!(messages.len(), 1);
    assert_eq!(messages.get(0).0.as_str(), "You died");
    assert_eq!(messages.get(0).1, Color::Red);
}

#[test]
fn death_callback_runs_only_once() {
    let mut messages = Messages::new();
    let mut p = player_at(3, 3);
    p.fighter = Some(fighter(30, 1, 0, 5, DeathCallback::Player));

    p.take_damage(10, &mut messages);
    assert!(!p.alive);
    assert_eq!(messages.len(), 1);

    // Further damage on a dead entity must not re-trigger the callback.
    p.take_damage(10, &mut messages);
    p.take_damage(10, &mut messages);
    assert_eq!(messages.len(), 1);
    assert_eq!(p.fighter.unwrap().hp, -29);
    assert_eq!(p.glyph, '%');
}

#[test]
fn dead_monster_takes_no_further_damage_effects() {
    let mut messages = Messages::new();
    let mut m = orc_at(3, 3);
    m.fighter = Some(fighter(10, 1, 0, 3, DeathCallback::Monster));

    m.take_damage(5, &mut messages);
    assert_eq!(messages.len(), 1);

    // The corpse has no fighter left: nothing happens at all.
    m.take_damage(5, &mut messages);
    assert_eq!(messages.len(), 1);
    assert_eq!(m.name.as_str(), "remains of orc");
}

#[test]
fn nonpositive_damage_leaves_hp_unchanged() {
    let mut messages = Messages::new();
    let mut m = orc_at(3, 3);
    m.take_damage(0, &mut messages);
    m.take_damage(-7, &mut messages);
    assert_eq!(m.fighter.unwrap().hp, 10);
    assert!(m.alive);
    assert_eq!(messages.len(), 0);
}

#[test]
fn heal_restores_and_caps_at_max() {
    let mut p = player_at(1, 1);
    p.fighter = Some(fighter(30, 25, 2, 5, DeathCallback::Player));
    p.heal(4);
    assert_eq!(p.fighter.unwrap().hp, 29);
    p.heal(4);
    assert_eq!(p.fighter.unwrap().hp, 30);
}
