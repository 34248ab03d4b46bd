use crablike::color::Color;
use crablike::grid::{is_blocked, Rect, Tile};
use crablike::mapgen::{generate_dungeon, make_map};
use crablike::object::{DeathCallback, Fighter, Object};
use crablike::{MAP_HEIGHT, MAP_WIDTH};

fn fresh_player() -> Object {
    let mut p = Object::new(0, 0, '@', "player", Color::White, true);
    p.alive = true;
    p.fighter = Some(Fighter {
        max_hp: 30,
        hp: 30,
        defense: 2,
        power: 5,
        on_death: DeathCallback::Player,
    });
    p
}

#[test]
fn accepted_rooms_pairwise_do_not_intersect() {
    let mut objects = vec![fresh_player()];
    let (_grid, rooms) = generate_dungeon(&mut objects);
    assert!(rooms.len() >= 1);
    for i in 0..rooms.len() {
        for j in (i + 1)..rooms.len() {
            assert!(!rooms[i].intersects_with(&rooms[j]));
        }
    }
}

#[test]
fn room_interiors_are_carved() {
    let mut objects = vec![fresh_player()];
    let (grid, rooms) = generate_dungeon(&mut objects);
    for room in &rooms {
        for x in (room.x1 + 1)..room.x2 {
            for y in (room.y1 + 1)..room.y2 {
                assert!(!grid[x as usize][y as usize].blocked);
                assert!(!grid[x as usize][y as usize].block_sight);
            }
        }
    }
}

#[test]
fn player_spawns_at_first_room_center() {
    let mut objects = vec![fresh_player()];
    let (grid, rooms) = generate_dungeon(&mut objects);
    let (cx, cy) = rooms[0].center();
    assert_eq!(objects[0].x, cx);
    assert_eq!(objects[0].y, cy);
    assert!(!grid[cx as usize][cy as usize].blocked);
}

#[test]
fn generated_room_tiles_round_trip_through_is_blocked() {
    // Carving then querying: on every interior room tile with no blocking
    // entity on it, is_blocked answers false.
    let mut objects = vec![fresh_player()];
    let (grid, rooms) = generate_dungeon(&mut objects);
    for room in &rooms {
        for x in (room.x1 + 1)..room.x2 {
            for y in (room.y1 + 1)..room.y2 {
                let occupied = objects.iter().any(|o| o.blocks && o.x == x && o.y == y);
                if !occupied {
                    assert!(!is_blocked(x, y, &grid, &objects));
                }
            }
        }
    }
}

#[test]
fn consecutive_room_centers_are_connected_by_a_carved_bend() {
    let mut objects = vec![fresh_player()];
    let (grid, rooms) = generate_dungeon(&mut objects);

    let h_clear = |y: i32, x1: i32, x2: i32| -> bool {
        let (lo, hi) = if x1 < x2 { (x1, x2) } else { (x2, x1) };
        (lo..=hi).all(|x| !grid[x as usize][y as usize].blocked)
    };
    let v_clear = |x: i32, y1: i32, y2: i32| -> bool {
        let (lo, hi) = if y1 < y2 { (y1, y2) } else { (y2, y1) };
        (lo..=hi).all(|y| !grid[x as usize][y as usize].blocked)
    };

    for k in 1..rooms.len() {
        let (px, py) = rooms[k - 1].center();
        let (nx, ny) = rooms[k].center();
        let horizontal_first = h_clear(py, px, nx) && v_clear(nx, py, ny);
        let vertical_first = v_clear(px, py, ny) && h_clear(ny, px, nx);
        assert!(horizontal_first || vertical_first);
    }
}

#[test]
fn border_stays_walled() {
    let mut objects = vec![fresh_player()];
    let (grid, _rooms) = generate_dungeon(&mut objects);
    for x in 0..MAP_WIDTH {
        assert!(grid[x as usize][0].blocked);
        assert!(grid[x as usize][(MAP_HEIGHT - 1) as usize].blocked);
    }
    for y in 0..MAP_HEIGHT {
        assert!(grid[0][y as usize].blocked);
        assert!(grid[(MAP_WIDTH - 1) as usize][y as usize].blocked);
    }
}

#[test]
fn monsters_spawn_alive_on_free_tiles() {
    let mut objects = vec![fresh_player()];
    let (grid, _rooms) = generate_dungeon(&mut objects);
    for k in 1..objects.len() {
        let m = &objects[k];
        assert!(m.alive && m.blocks);
        assert!(m.fighter.is_some() && m.ai.is_some());
        assert!(!grid[m.x as usize][m.y as usize].blocked);
        let f = m.fighter.unwrap();
        assert_eq!(f.hp, f.max_hp);
        assert!(m.name == "orc" || m.name == "troll");
    }
    // No two monsters share a tile.
    for a in 1..objects.len() {
        for b in (a + 1)..objects.len() {
            assert!(objects[a].x != objects[b].x || objects[a].y != objects[b].y);
        }
    }
}

#[test]
fn make_map_places_the_player_on_a_free_tile() {
    let mut objects = vec![fresh_player()];
    let grid = make_map(&mut objects);
    let p = &objects[0];
    assert!(p.x >= 0 && p.x < MAP_WIDTH && p.y >= 0 && p.y < MAP_HEIGHT);
    assert!(!grid[p.x as usize][p.y as usize].blocked);
    // The patch changes only the position.
    assert_eq!(p.name.as_str(), "player");
    assert!(p.alive && p.blocks);
}

#[test]
fn touching_rooms_count_as_intersecting() {
    let a = Rect::new(1, 1, 5, 5);
    let b = Rect::new(6, 1, 5, 5);
    // b starts exactly where a ends: the inclusive test rejects this pair.
    assert!(a.intersects_with(&b));
    let c = Rect::new(7, 1, 5, 5);
    assert!(!a.intersects_with(&c));
}

#[test]
fn rect_center_rounds_down() {
    let r = Rect::new(2, 3, 7, 5);
    // x2 == 9, y2 == 8; centers are (2+9)/2 == 5 and (3+8)/2 == 5.
    assert_eq!(r.center(), (5, 5));
}

#[test]
fn tile_constructors() {
    let e = Tile::empty();
    assert!(!e.blocked && !e.block_sight && !e.explored);
    let w = Tile::wall();
    assert!(w.blocked && w.block_sight && !w.explored);
}
