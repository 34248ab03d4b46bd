//! The dungeon generator: random non-overlapping rooms carved into a wall
//! grid, L-shaped corridors between consecutive room centers, the player
//! spawn at the first room's center, and random monster placement.

use vstd::prelude::*;

use crate::color::Color;
use crate::grid::{
    border_walls, create_h_tunnel, create_room, create_v_tunnel, grid_wf, in_grid, is_blocked,
    new_wall_grid, rect_in_bounds, rect_interior, spec_center, spec_intersects, tile_at, Grid,
    Rect, Tile,
};
use crate::object::{
    blocks_tile, objects_ok, DeathCallback, Ai, Fighter, Object,
};
use crate::rng::{random_flip, random_in_range};
use crate::{MAP_HEIGHT, MAP_WIDTH, MAX_ROOMS, MAX_ROOM_MONSTERS, ROOM_MAX_SIZE, ROOM_MIN_SIZE};

verus! {

/// The weak monster archetype: an orc.
pub open spec fn orc_like(o: Object) -> bool {
    &&& o.glyph == 'o'
    &&& o.name@ == "orc"@
    &&& o.color == Color::DesaturatedGreen
    &&& o.fighter == Some(
        Fighter { max_hp: 10, hp: 10, defense: 0, power: 3, on_death: DeathCallback::Monster },
    )
}

/// The strong monster archetype: a troll.
pub open spec fn troll_like(o: Object) -> bool {
    &&& o.glyph == 'T'
    &&& o.name@ == "troll"@
    &&& o.color == Color::DarkerGreen
    &&& o.fighter == Some(
        Fighter { max_hp: 16, hp: 16, defense: 1, power: 4, on_death: DeathCallback::Monster },
    )
}

/// A monster as the generator spawns it: one of the two archetypes, alive
/// and blocking, with `Basic` AI, full hit points, standing inside the grid
/// on a carved (non-wall) tile.
pub open spec fn spec_spawned_monster(o: Object, g: Seq<Vec<Tile>>) -> bool {
    &&& in_grid(o.x as int, o.y as int)
    &&& !tile_at(g, o.x as int, o.y as int).blocked
    &&& o.blocks
    &&& o.alive
    &&& o.item is None
    &&& (o.ai matches Some(a) && a is Basic)
    &&& (orc_like(o) || troll_like(o))
}

/// Place 0 to 3 monsters (picked uniformly) inside `room`: each candidate
/// tile is drawn from the room interior and rejected if already blocked;
/// accepted monsters are appended to the entity list, roughly 80% orcs and
/// 20% trolls.
///
/// Existing entries are untouched.  Every appended monster satisfies
/// [`spec_spawned_monster`], stands strictly inside `room`, and collides
/// with no blocking entity placed before it.
pub fn place_objects(room: &Rect, grid: &Grid, objects: &mut Vec<Object>)
    requires
        grid_wf(grid@),
        rect_in_bounds(*room),
        room.x1 + 2 <= room.x2,
        room.y1 + 2 <= room.y2,
    ensures
        final(objects)@.len() >= old(objects)@.len(),
        forall|k: int| 0 <= k < old(objects)@.len() ==> final(objects)@[k] == old(objects)@[k],
        forall|k: int|
            old(objects)@.len() <= k < final(objects)@.len() ==> spec_spawned_monster(
                #[trigger] final(objects)@[k],
                grid@,
            ) && rect_interior(*room, final(objects)@[k].x as int, final(objects)@[k].y as int),
        forall|j: int, k: int|
            #![trigger final(objects)@[j], final(objects)@[k]]
            old(objects)@.len() <= k < final(objects)@.len() && 0 <= j < k ==> !blocks_tile(
                final(objects)@[j],
                final(objects)@[k].x as int,
                final(objects)@[k].y as int,
            ),
{
    let ghost n0 = objects@.len();
    let num_monsters = random_in_range(0, MAX_ROOM_MONSTERS + 1);
    let mut placed: i32 = 0;
    while placed < num_monsters
        invariant
            grid_wf(grid@),
            rect_in_bounds(*room),
            room.x1 + 2 <= room.x2,
            room.y1 + 2 <= room.y2,
            objects@.len() >= n0,
            forall|k: int| 0 <= k < n0 ==> objects@[k] == old(objects)@[k],
            forall|k: int|
                n0 <= k < objects@.len() ==> spec_spawned_monster(#[trigger] objects@[k], grid@)
                    && rect_interior(*room, objects@[k].x as int, objects@[k].y as int),
            forall|j: int, k: int|
                #![trigger objects@[j], objects@[k]]
                n0 <= k < objects@.len() && 0 <= j < k ==> !blocks_tile(
                    objects@[j],
                    objects@[k].x as int,
                    objects@[k].y as int,
                ),
        decreases num_monsters - placed,
    {
        let x = random_in_range(room.x1 + 1, room.x2);
        let y = random_in_range(room.y1 + 1, room.y2);

        if !is_blocked(x, y, grid, objects) {
            let ghost objs_before = objects@;
            let strong = random_in_range(0, 100) >= 80;
            let mut monster = if !strong {
                let mut orc = Object::new(x, y, 'o', "orc", Color::DesaturatedGreen, true);
                orc.fighter = Some(
                    Fighter {
                        max_hp: 10,
                        hp: 10,
                        defense: 0,
                        power: 3,
                        on_death: DeathCallback::Monster,
                    },
                );
                orc.ai = Some(Ai::Basic);
                orc
            } else {
                let mut troll = Object::new(x, y, 'T', "troll", Color::DarkerGreen, true);
                troll.fighter = Some(
                    Fighter {
                        max_hp: 16,
                        hp: 16,
                        defense: 1,
                        power: 4,
                        on_death: DeathCallback::Monster,
                    },
                );
                troll.ai = Some(Ai::Basic);
                troll
            };
            monster.alive = true;
            objects.push(monster);
        }
        placed = placed + 1;
    }
}

/// Every in-grid tile of the horizontal segment at row `y` between columns
/// `x1` and `x2` (endpoints included) is carved.
pub open spec fn h_clear(g: Seq<Vec<Tile>>, x1: int, x2: int, y: int) -> bool {
    forall|xi: int, yi: int|
        #![trigger tile_at(g, xi, yi)]
        crate::grid::h_span(x1, x2, y, xi, yi) && in_grid(xi, yi) ==> !tile_at(g, xi, yi).blocked
}

/// Every in-grid tile of the vertical segment at column `x` between rows
/// `y1` and `y2` (endpoints included) is carved.
pub open spec fn v_clear(g: Seq<Vec<Tile>>, y1: int, y2: int, x: int) -> bool {
    forall|xi: int, yi: int|
        #![trigger tile_at(g, xi, yi)]
        crate::grid::v_span(y1, y2, x, xi, yi) && in_grid(xi, yi) ==> !tile_at(g, xi, yi).blocked
}

/// An L-shaped corridor between `a` and `b` is carved: either the
/// horizontal-then-vertical bend or the vertical-then-horizontal one.
pub open spec fn corridor_clear(g: Seq<Vec<Tile>>, a: (int, int), b: (int, int)) -> bool {
    ||| (h_clear(g, a.0, b.0, a.1) && v_clear(g, a.1, b.1, b.0))
    ||| (v_clear(g, a.1, b.1, a.0) && h_clear(g, a.0, b.0, b.1))
}

/// A room the generator can accept: fully inside the grid, with at least
/// one interior tile on each axis.
pub open spec fn room_ok(r: Rect) -> bool {
    &&& rect_in_bounds(r)
    &&& r.x1 + 2 <= r.x2
    &&& r.y1 + 2 <= r.y2
}

/// What generation guarantees of the carved grid and the accepted rooms:
/// walls on the border, every accepted room in bounds, pairwise
/// non-intersecting (inclusive test), every room interior carved, and an
/// L-shaped carved corridor between each pair of consecutive room centers.
pub open spec fn dungeon_wf(g: Seq<Vec<Tile>>, rooms: Seq<Rect>) -> bool {
    &&& grid_wf(g)
    &&& border_walls(g)
    &&& rooms.len() >= 1
    &&& forall|k: int| 0 <= k < rooms.len() ==> room_ok(#[trigger] rooms[k])
    &&& forall|i: int, j: int|
        #![trigger rooms[i], rooms[j]]
        0 <= i < j < rooms.len() ==> !spec_intersects(rooms[i], rooms[j])
    &&& forall|k: int, x: int, y: int|
        #![trigger rect_interior(rooms[k], x, y)]
        0 <= k < rooms.len() && rect_interior(rooms[k], x, y) ==> !tile_at(g, x, y).blocked
    &&& forall|k: int|
        1 <= k < rooms.len() ==> corridor_clear(
            g,
            spec_center(#[trigger] rooms[k - 1]),
            spec_center(rooms[k]),
        )
}

/// The rounded-down center of an acceptable room lies strictly inside it.
pub proof fn lemma_center_in_interior(r: Rect)
    requires
        room_ok(r),
    ensures
        rect_interior(r, spec_center(r).0, spec_center(r).1),
        in_grid(spec_center(r).0, spec_center(r).1),
{
}

/// Carving only turns walls into floor: any step that never blocks a tile
/// keeps room interiors carved, corridors clear, and spawned monsters on
/// carved tiles.
proof fn lemma_carve_step(
    g1: Seq<Vec<Tile>>,
    g2: Seq<Vec<Tile>>,
    rooms: Seq<Rect>,
    objs: Seq<Object>,
)
    requires
        forall|x: int, y: int|
            #![trigger tile_at(g2, x, y)]
            in_grid(x, y) && !tile_at(g1, x, y).blocked ==> !tile_at(g2, x, y).blocked,
        forall|k: int| 0 <= k < rooms.len() ==> room_ok(#[trigger] rooms[k]),
        forall|k: int, x: int, y: int|
            #![trigger rect_interior(rooms[k], x, y)]
            0 <= k < rooms.len() && rect_interior(rooms[k], x, y) ==> !tile_at(g1, x, y).blocked,
        forall|k: int|
            1 <= k < rooms.len() ==> corridor_clear(
                g1,
                spec_center(#[trigger] rooms[k - 1]),
                spec_center(rooms[k]),
            ),
        forall|k: int| 1 <= k < objs.len() ==> spec_spawned_monster(#[trigger] objs[k], g1),
    ensures
        forall|k: int, x: int, y: int|
            #![trigger rect_interior(rooms[k], x, y)]
            0 <= k < rooms.len() && rect_interior(rooms[k], x, y) ==> !tile_at(g2, x, y).blocked,
        forall|k: int|
            1 <= k < rooms.len() ==> corridor_clear(
                g2,
                spec_center(#[trigger] rooms[k - 1]),
                spec_center(rooms[k]),
            ),
        forall|k: int| 1 <= k < objs.len() ==> spec_spawned_monster(#[trigger] objs[k], g2),
{
    assert forall|k: int, x: int, y: int|
        #![trigger rect_interior(rooms[k], x, y)]
        0 <= k < rooms.len() && rect_interior(rooms[k], x, y) implies !tile_at(
        g2,
        x,
        y,
    ).blocked by {
        assert(room_ok(rooms[k]));
        assert(in_grid(x, y));
        assert(!tile_at(g1, x, y).blocked);
    }
    assert forall|k: int| 1 <= k < rooms.len() implies corridor_clear(
        g2,
        spec_center(#[trigger] rooms[k - 1]),
        spec_center(rooms[k]),
    ) by {
        let a = spec_center(rooms[k - 1]);
        let b = spec_center(rooms[k]);
        assert(corridor_clear(g1, a, b));
        if h_clear(g1, a.0, b.0, a.1) && v_clear(g1, a.1, b.1, b.0) {
            lemma_h_clear_mono(g1, g2, a.0, b.0, a.1);
            lemma_v_clear_mono(g1, g2, a.1, b.1, b.0);
        } else {
            lemma_v_clear_mono(g1, g2, a.1, b.1, a.0);
            lemma_h_clear_mono(g1, g2, a.0, b.0, b.1);
        }
    }
    assert forall|k: int| 1 <= k < objs.len() implies spec_spawned_monster(
        #[trigger] objs[k],
        g2,
    ) by {
        assert(spec_spawned_monster(objs[k], g1));
        assert(!tile_at(g1, objs[k].x as int, objs[k].y as int).blocked);
    }
}

/// A clear horizontal segment stays clear under a step that never blocks.
proof fn lemma_h_clear_mono(g1: Seq<Vec<Tile>>, g2: Seq<Vec<Tile>>, x1: int, x2: int, y: int)
    requires
        forall|x: int, y2: int|
            #![trigger tile_at(g2, x, y2)]
            in_grid(x, y2) && !tile_at(g1, x, y2).blocked ==> !tile_at(g2, x, y2).blocked,
        h_clear(g1, x1, x2, y),
    ensures
        h_clear(g2, x1, x2, y),
{
    assert forall|xi: int, yi: int|
        #![trigger tile_at(g2, xi, yi)]
        crate::grid::h_span(x1, x2, y, xi, yi) && in_grid(xi, yi) implies !tile_at(
        g2,
        xi,
        yi,
    ).blocked by {
        assert(!tile_at(g1, xi, yi).blocked);
    }
}

/// A clear vertical segment stays clear under a step that never blocks.
proof fn lemma_v_clear_mono(g1: Seq<Vec<Tile>>, g2: Seq<Vec<Tile>>, y1: int, y2: int, x: int)
    requires
        forall|x2: int, yy: int|
            #![trigger tile_at(g2, x2, yy)]
            in_grid(x2, yy) && !tile_at(g1, x2, yy).blocked ==> !tile_at(g2, x2, yy).blocked,
        v_clear(g1, y1, y2, x),
    ensures
        v_clear(g2, y1, y2, x),
{
    assert forall|xi: int, yi: int|
        #![trigger tile_at(g2, xi, yi)]
        crate::grid::v_span(y1, y2, x, xi, yi) && in_grid(xi, yi) implies !tile_at(
        g2,
        xi,
        yi,
    ).blocked by {
        assert(!tile_at(g1, xi, yi).blocked);
    }
}

/// Carve a fresh dungeon and seed the entity list, returning the grid and
/// the accepted rooms.
///
/// Up to [`MAX_ROOMS`] random rooms are attempted; a room intersecting any
/// previously accepted room is rejected and leaves no trace.  Each accepted
/// room is carved and populated with monsters, and connected to the
/// previous accepted room's center by an L-shaped corridor — except the
/// first, whose center becomes the player spawn, patched onto the
/// caller-supplied player entity at the end.
pub fn generate_dungeon(objects: &mut Vec<Object>) -> (r: (Grid, Vec<Rect>))
    requires
        old(objects)@.len() == 1,
        objects_ok(old(objects)@),
    ensures
        dungeon_wf(r.0@, r.1@),
        objects_ok(final(objects)@),
        crate::game::placed_ok(r.0@, final(objects)@),
        final(objects)@.len() >= 1,
        final(objects)@[0] == (Object {
            x: final(objects)@[0].x,
            y: final(objects)@[0].y,
            ..old(objects)@[0]
        }),
        final(objects)@[0].x == spec_center(r.1@[0]).0,
        final(objects)@[0].y == spec_center(r.1@[0]).1,
        rect_interior(r.1@[0], final(objects)@[0].x as int, final(objects)@[0].y as int),
        forall|k: int|
            1 <= k < final(objects)@.len() ==> spec_spawned_monster(
                #[trigger] final(objects)@[k],
                r.0@,
            ),
        forall|j: int, k: int|
            #![trigger final(objects)@[j], final(objects)@[k]]
            1 <= j < k < final(objects)@.len() ==> (final(objects)@[j].x != final(objects)@[k].x
                || final(objects)@[j].y != final(objects)@[k].y),
{
    let ghost objs0 = objects@;
    let mut grid = new_wall_grid();
    let mut rooms: Vec<Rect> = Vec::new();
    let mut player_x: i32 = 0;
    let mut player_y: i32 = 0;
    let mut attempt: i32 = 0;
    while attempt < MAX_ROOMS
        invariant
            grid_wf(grid@),
            border_walls(grid@),
            objects@.len() >= 1,
            objects@[0] == objs0[0],
            objects_ok(objs0),
            forall|k: int|
                1 <= k < objects@.len() ==> spec_spawned_monster(#[trigger] objects@[k], grid@),
            forall|j: int, k: int|
                #![trigger objects@[j], objects@[k]]
                1 <= k < objects@.len() && 0 <= j < k ==> !blocks_tile(
                    objects@[j],
                    objects@[k].x as int,
                    objects@[k].y as int,
                ),
            forall|k: int| 0 <= k < rooms@.len() ==> room_ok(#[trigger] rooms@[k]),
            forall|i: int, j: int|
                #![trigger rooms@[i], rooms@[j]]
                0 <= i < j < rooms@.len() ==> !spec_intersects(rooms@[i], rooms@[j]),
            forall|k: int, x: int, y: int|
                #![trigger rect_interior(rooms@[k], x, y)]
                0 <= k < rooms@.len() && rect_interior(rooms@[k], x, y) ==> !tile_at(
                    grid@,
                    x,
                    y,
                ).blocked,
            forall|k: int|
                1 <= k < rooms@.len() ==> corridor_clear(
                    grid@,
                    spec_center(#[trigger] rooms@[k - 1]),
                    spec_center(rooms@[k]),
                ),
            rooms@.len() >= 1 ==> (player_x == spec_center(rooms@[0]).0 && player_y == spec_center(
                rooms@[0],
            ).1 && rect_interior(rooms@[0], player_x as int, player_y as int)),
            attempt >= 1 ==> rooms@.len() >= 1,
            0 <= attempt,
        decreases MAX_ROOMS - attempt,
    {
        let w = random_in_range(ROOM_MIN_SIZE, ROOM_MAX_SIZE + 1);
        let h = random_in_range(ROOM_MIN_SIZE, ROOM_MAX_SIZE + 1);
        let x = random_in_range(0, MAP_WIDTH - w);
        let y = random_in_range(0, MAP_HEIGHT - h);

        let room = Rect::new(x, y, w, h);

        let mut failed = false;
        let mut i: usize = 0;
        while i < rooms.len()
            invariant
                i <= rooms@.len(),
                !failed ==> forall|j: int|
                    0 <= j < i ==> !spec_intersects(room, #[trigger] rooms@[j]),
                failed ==> rooms@.len() >= 1,
            decreases rooms@.len() - i,
        {
            if room.intersects_with(&rooms[i]) {
                failed = true;
            }
            i = i + 1;
        }

        if !failed {
            proof {
                assert(room_ok(room));
            }
            let (new_x, new_y) = room.center();
            proof {
                lemma_center_in_interior(room);
            }

            let ghost g_before = grid@;
            create_room(&room, &mut grid);
            proof {
                assert forall|xi: int, yi: int|
                    #![trigger tile_at(grid@, xi, yi)]
                    in_grid(xi, yi) && !tile_at(g_before, xi, yi).blocked implies !tile_at(
                    grid@,
                    xi,
                    yi,
                ).blocked by {}
                lemma_carve_step(g_before, grid@, rooms@, objects@);
                assert forall|xi: int, yi: int|
                    in_grid(xi, yi) && (xi == 0 || xi == MAP_WIDTH - 1 || yi == 0 || yi
                        == MAP_HEIGHT - 1) implies tile_at(grid@, xi, yi).blocked by {
                    assert(!rect_interior(room, xi, yi));
                    assert(tile_at(grid@, xi, yi) == tile_at(g_before, xi, yi));
                }
                assert forall|xi: int, yi: int|
                    #![trigger rect_interior(room, xi, yi)]
                    rect_interior(room, xi, yi) implies !tile_at(grid@, xi, yi).blocked by {
                    assert(in_grid(xi, yi));
                }
            }

            if rooms.len() > 0 {
                let last = rooms.len() - 1;
                let (prev_x, prev_y) = rooms[last].center();
                proof {
                    assert(room_ok(rooms@[last as int]));
                    lemma_center_in_interior(rooms@[last as int]);
                }
                let ghost g0 = grid@;
                if random_flip() {
                    create_h_tunnel(prev_x, new_x, prev_y, &mut grid);
                    proof {
                        carve_bookkeeping(g0, grid@, rooms@, objects@, room);
                    }
                    let ghost g1 = grid@;
                    create_v_tunnel(prev_y, new_y, new_x, &mut grid);
                    proof {
                        carve_bookkeeping(g1, grid@, rooms@, objects@, room);
                        lemma_h_clear_mono(g1, grid@, prev_x as int, new_x as int, prev_y as int);
                        assert(corridor_clear(
                            grid@,
                            (prev_x as int, prev_y as int),
                            (new_x as int, new_y as int),
                        ));
                    }
                } else {
                    create_v_tunnel(prev_y, new_y, prev_x, &mut grid);
                    proof {
                        carve_bookkeeping(g0, grid@, rooms@, objects@, room);
                    }
                    let ghost g1 = grid@;
                    create_h_tunnel(prev_x, new_x, new_y, &mut grid);
                    proof {
                        carve_bookkeeping(g1, grid@, rooms@, objects@, room);
                        lemma_v_clear_mono(g1, grid@, prev_y as int, new_y as int, prev_x as int);
                        assert(corridor_clear(
                            grid@,
                            (prev_x as int, prev_y as int),
                            (new_x as int, new_y as int),
                        ));
                    }
                }
            } else {
                player_x = new_x;
                player_y = new_y;
            }

            place_objects(&room, &grid, objects);

            let ghost rooms_before = rooms@;
            rooms.push(room);
            proof {
                assert forall|a: int, b: int|
                    #![trigger rooms@[a], rooms@[b]]
                    0 <= a < b < rooms@.len() implies !spec_intersects(rooms@[a], rooms@[b]) by {
                    if b < rooms@.len() - 1 {
                        assert(rooms@[a] == rooms_before[a] && rooms@[b] == rooms_before[b]);
                    } else {
                        assert(rooms@[b] == room);
                        assert(!spec_intersects(room, rooms_before[a]));
                    }
                }
                assert forall|k: int, xi: int, yi: int|
                    #![trigger rect_interior(rooms@[k], xi, yi)]
                    0 <= k < rooms@.len() && rect_interior(rooms@[k], xi, yi) implies !tile_at(
                    grid@,
                    xi,
                    yi,
                ).blocked by {
                    if k < rooms@.len() - 1 {
                        assert(rooms@[k] == rooms_before[k]);
                        assert(rect_interior(rooms_before[k], xi, yi));
                    } else {
                        assert(rooms@[k] == room);
                    }
                }
                assert forall|k: int| 1 <= k < rooms@.len() implies corridor_clear(
                    grid@,
                    spec_center(#[trigger] rooms@[k - 1]),
                    spec_center(rooms@[k]),
                ) by {
                    if k < rooms@.len() - 1 {
                        assert(rooms@[k - 1] == rooms_before[k - 1] && rooms@[k]
                            == rooms_before[k]);
                    } else {
                        assert(rooms@[k] == room);
                        if k >= 1 {
                            assert(rooms@[k - 1] == rooms_before[k - 1]);
                        }
                    }
                }
            }
        }
        attempt = attempt + 1;
    }

    objects[0].set_pos(player_x, player_y);
    proof {
        assert(rooms@.len() >= 1);
        assert(rect_interior(rooms@[0], player_x as int, player_y as int));
        assert(room_ok(rooms@[0]));
        assert(in_grid(player_x as int, player_y as int));
        assert(!tile_at(grid@, player_x as int, player_y as int).blocked);
        assert forall|k: int| 0 <= k < objects@.len() implies crate::object::entity_ok(
            #[trigger] objects@[k],
        ) by {
            if k == 0 {
                assert(crate::object::entity_ok(objs0[0]));
            } else {
                assert(spec_spawned_monster(objects@[k], grid@));
            }
        }
        assert(objects_ok(objects@));
        assert forall|k: int| 0 <= k < objects@.len() implies !tile_at(
            grid@,
            (#[trigger] objects@[k]).x as int,
            objects@[k].y as int,
        ).blocked by {
            if k > 0 {
                assert(spec_spawned_monster(objects@[k], grid@));
            }
        }
    }
    (grid, rooms)
}

/// After one carving call, re-establish the generator's running facts:
/// the carve never blocks a tile, so interiors, corridors and monster
/// tiles stay carved; the carved span stays off the border, so the border
/// stays walled.
proof fn carve_bookkeeping(
    g1: Seq<Vec<Tile>>,
    g2: Seq<Vec<Tile>>,
    rooms: Seq<Rect>,
    objs: Seq<Object>,
    new_room: Rect,
)
    requires
        grid_wf(g1),
        grid_wf(g2),
        border_walls(g1),
        room_ok(new_room),
        forall|x: int, y: int|
            #![trigger rect_interior(new_room, x, y)]
            rect_interior(new_room, x, y) ==> !tile_at(g1, x, y).blocked,
        forall|xi: int, yi: int|
            #![trigger tile_at(g2, xi, yi)]
            in_grid(xi, yi) ==> (tile_at(g2, xi, yi) == tile_at(g1, xi, yi) || tile_at(g2, xi, yi)
                == crate::grid::empty_tile()),
        forall|xi: int, yi: int|
            #![trigger tile_at(g2, xi, yi)]
            in_grid(xi, yi) && (xi == 0 || xi == MAP_WIDTH - 1 || yi == 0 || yi == MAP_HEIGHT - 1)
                ==> tile_at(g2, xi, yi) == tile_at(g1, xi, yi),
        forall|k: int| 0 <= k < rooms.len() ==> room_ok(#[trigger] rooms[k]),
        forall|k: int, x: int, y: int|
            #![trigger rect_interior(rooms[k], x, y)]
            0 <= k < rooms.len() && rect_interior(rooms[k], x, y) ==> !tile_at(g1, x, y).blocked,
        forall|k: int|
            1 <= k < rooms.len() ==> corridor_clear(
                g1,
                spec_center(#[trigger] rooms[k - 1]),
                spec_center(rooms[k]),
            ),
        forall|k: int| 1 <= k < objs.len() ==> spec_spawned_monster(#[trigger] objs[k], g1),
    ensures
        border_walls(g2),
        forall|x: int, y: int|
            #![trigger rect_interior(new_room, x, y)]
            rect_interior(new_room, x, y) ==> !tile_at(g2, x, y).blocked,
        forall|k: int, x: int, y: int|
            #![trigger rect_interior(rooms[k], x, y)]
            0 <= k < rooms.len() && rect_interior(rooms[k], x, y) ==> !tile_at(g2, x, y).blocked,
        forall|k: int|
            1 <= k < rooms.len() ==> corridor_clear(
                g2,
                spec_center(#[trigger] rooms[k - 1]),
                spec_center(rooms[k]),
            ),
        forall|k: int| 1 <= k < objs.len() ==> spec_spawned_monster(#[trigger] objs[k], g2),
{
    assert forall|xi: int, yi: int|
        #![trigger tile_at(g2, xi, yi)]
        in_grid(xi, yi) && !tile_at(g1, xi, yi).blocked implies !tile_at(g2, xi, yi).blocked by {}
    lemma_carve_step(g1, g2, rooms, objs);
    assert forall|x: int, y: int|
        #![trigger rect_interior(new_room, x, y)]
        rect_interior(new_room, x, y) implies !tile_at(g2, x, y).blocked by {
        assert(in_grid(x, y));
        assert(!tile_at(g1, x, y).blocked);
    }
}

/// Carve a fresh dungeon, seed the entity list, and return the grid, as
/// the session sets itself up with.  The accepted rooms exist: the grid
/// and the player spawn satisfy [`dungeon_wf`] for some room sequence
/// whose first room's center carries the player.
pub fn make_map(objects: &mut Vec<Object>) -> (grid: Grid)
    requires
        old(objects)@.len() == 1,
        objects_ok(old(objects)@),
    ensures
        grid_wf(grid@),
        border_walls(grid@),
        objects_ok(final(objects)@),
        crate::game::placed_ok(grid@, final(objects)@),
        final(objects)@.len() >= 1,
        final(objects)@[0] == (Object {
            x: final(objects)@[0].x,
            y: final(objects)@[0].y,
            ..old(objects)@[0]
        }),
        forall|k: int|
            1 <= k < final(objects)@.len() ==> spec_spawned_monster(
                #[trigger] final(objects)@[k],
                grid@,
            ),
        forall|j: int, k: int|
            #![trigger final(objects)@[j], final(objects)@[k]]
            1 <= j < k < final(objects)@.len() ==> (final(objects)@[j].x != final(objects)@[k].x
                || final(objects)@[j].y != final(objects)@[k].y),
        exists|rooms: Seq<Rect>|
            #[trigger] dungeon_wf(grid@, rooms) && final(objects)@[0].x == spec_center(rooms[0]).0
                && final(objects)@[0].y == spec_center(rooms[0]).1 && rect_interior(
                rooms[0],
                final(objects)@[0].x as int,
                final(objects)@[0].y as int,
            ),
{
    let (grid, rooms) = generate_dungeon(objects);
    proof {
        let witness = rooms@;
        assert(dungeon_wf(grid@, witness));
    }
    grid
}

/// Law of the generation round trip, room half: every tile interior to an
/// accepted room is carved, so `is_blocked` is false there whenever no
/// blocking entity occupies the tile.
pub proof fn lemma_room_tile_walkable(
    g: Seq<Vec<Tile>>,
    rooms: Seq<Rect>,
    objs: Seq<Object>,
    k: int,
    x: int,
    y: int,
)
    requires
        dungeon_wf(g, rooms),
        0 <= k < rooms.len(),
        rect_interior(rooms[k], x, y),
        forall|i: int| 0 <= i < objs.len() ==> !blocks_tile(#[trigger] objs[i], x, y),
    ensures
        !crate::grid::spec_is_blocked(g, objs, x, y),
{
}

/// Law of the generation round trip, corridor half: every tile on a carved
/// corridor leg between consecutive room centers is carved, so
/// `is_blocked` is false there whenever no blocking entity occupies the
/// tile.
pub proof fn lemma_corridor_tile_walkable(
    g: Seq<Vec<Tile>>,
    rooms: Seq<Rect>,
    objs: Seq<Object>,
    k: int,
    x: int,
    y: int,
)
    requires
        dungeon_wf(g, rooms),
        1 <= k < rooms.len(),
        in_grid(x, y),
        ({
            let a = spec_center(rooms[k - 1]);
            let b = spec_center(rooms[k]);
            ||| (h_clear(g, a.0, b.0, a.1) && crate::grid::h_span(a.0, b.0, a.1, x, y))
            ||| (v_clear(g, a.1, b.1, b.0) && crate::grid::v_span(a.1, b.1, b.0, x, y))
            ||| (v_clear(g, a.1, b.1, a.0) && crate::grid::v_span(a.1, b.1, a.0, x, y))
            ||| (h_clear(g, a.0, b.0, b.1) && crate::grid::h_span(a.0, b.0, b.1, x, y))
        }),
        forall|i: int| 0 <= i < objs.len() ==> !blocks_tile(#[trigger] objs[i], x, y),
    ensures
        !crate::grid::spec_is_blocked(g, objs, x, y),
{
}

} // verus!
