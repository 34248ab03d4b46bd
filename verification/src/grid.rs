//! The tile grid: walls, floors, room rectangles and the carving operations
//! the dungeon generator uses, plus the visibility mask the core receives
//! from its field-of-view oracle.

use vstd::prelude::*;

use crate::color::Color;
use crate::object::{blocks_tile, Object};
use crate::{MAP_HEIGHT, MAP_WIDTH};

verus! {

/// A single cell of the dungeon grid.
///
/// Cells start as walls when the grid is allocated; carving turns them into
/// floor.  `explored` flips to true permanently once the cell has been
/// visible at least once, and is never otherwise mutated after generation.
#[derive(Clone, Copy, PartialEq, Eq, Structural, Debug)]
pub struct Tile {
    pub blocked: bool,
    pub explored: bool,
    pub block_sight: bool,
}

/// The floor tile: passable and transparent.
pub open spec fn empty_tile() -> Tile {
    Tile { blocked: false, explored: false, block_sight: false }
}

/// The wall tile: impassable and opaque.
pub open spec fn wall_tile() -> Tile {
    Tile { blocked: true, explored: false, block_sight: true }
}

impl Tile {
    /// A freshly carved floor tile.
    pub fn empty() -> (t: Tile)
        ensures
            t == empty_tile(),
    {
        Tile { blocked: false, explored: false, block_sight: false }
    }

    /// A wall tile, the state every cell starts in.
    pub fn wall() -> (t: Tile)
        ensures
            t == wall_tile(),
    {
        Tile { blocked: true, explored: false, block_sight: true }
    }

    /// The palette entry a renderer shows this tile with, keyed on whether
    /// the tile is currently visible and whether it is a wall.
    pub fn color(&self, visible: bool) -> (c: Color)
        ensures
            c == self.spec_color(visible),
    {
        let wall = self.block_sight;
        match (visible, wall) {
            (false, true) => Color::DarkWall,
            (false, false) => Color::DarkGround,
            (true, true) => Color::LightWall,
            (true, false) => Color::LightGround,
        }
    }

    /// The tile palette selection as a mathematical function.
    pub open spec fn spec_color(self, visible: bool) -> Color {
        match (visible, self.block_sight) {
            (false, true) => Color::DarkWall,
            (false, false) => Color::DarkGround,
            (true, true) => Color::LightWall,
            (true, false) => Color::LightGround,
        }
    }
}

/// The dungeon grid: a column-major 2-D array of tiles, indexed `[x][y]`.
pub type Grid = Vec<Vec<Tile>>;

/// Whether `(x, y)` lies inside the fixed grid dimensions.
pub open spec fn in_grid(x: int, y: int) -> bool {
    0 <= x < MAP_WIDTH && 0 <= y < MAP_HEIGHT
}

/// Well-formedness of a grid: exactly `MAP_WIDTH` columns of `MAP_HEIGHT`
/// tiles each.
pub open spec fn grid_wf(g: Seq<Vec<Tile>>) -> bool {
    &&& g.len() == MAP_WIDTH
    &&& forall|x: int| 0 <= x < g.len() ==> (#[trigger] g[x])@.len() == MAP_HEIGHT
}

/// The tile of grid `g` at `(x, y)`.
pub open spec fn tile_at(g: Seq<Vec<Tile>>, x: int, y: int) -> Tile {
    g[x]@[y]
}

/// A full-height column holding walls in every cell.
pub open spec fn column_all_walls(v: Vec<Tile>) -> bool {
    &&& v@.len() == MAP_HEIGHT
    &&& forall|y: int| 0 <= y < v@.len() ==> v@[y] == wall_tile()
}

/// A grid of the fixed dimensions holding walls everywhere, the state the
/// dungeon generator starts from.
pub fn new_wall_grid() -> (g: Grid)
    ensures
        grid_wf(g@),
        forall|x: int, y: int| in_grid(x, y) ==> tile_at(g@, x, y) == wall_tile(),
{
    let mut g: Grid = Vec::new();
    while g.len() < MAP_WIDTH as usize
        invariant
            g@.len() <= MAP_WIDTH,
            forall|x: int| 0 <= x < g@.len() ==> column_all_walls(#[trigger] g@[x]),
        decreases MAP_WIDTH - g.len(),
    {
        let mut column: Vec<Tile> = Vec::new();
        while column.len() < MAP_HEIGHT as usize
            invariant
                column@.len() <= MAP_HEIGHT,
                forall|y: int| 0 <= y < column@.len() ==> column@[y] == wall_tile(),
            decreases MAP_HEIGHT - column.len(),
        {
            column.push(Tile::wall());
        }
        g.push(column);
    }
    proof {
        assert forall|x: int, y: int| in_grid(x, y) implies tile_at(g@, x, y) == wall_tile() by {
            assert(column_all_walls(g@[x]));
        }
    }
    g
}

/// A room rectangle, used only during generation.  `x2 == x1 + w` and
/// `y2 == y1 + h`; the carved interior excludes the boundary on all sides.
#[derive(Clone, Copy, PartialEq, Eq, Structural, Debug)]
pub struct Rect {
    pub x1: i32,
    pub y1: i32,
    pub x2: i32,
    pub y2: i32,
}

/// Two rooms intersect iff their closed coordinate intervals overlap on both
/// axes; adjacent (touching) rooms therefore count as intersecting.
pub open spec fn spec_intersects(a: Rect, b: Rect) -> bool {
    a.x1 <= b.x2 && a.x2 >= b.x1 && a.y1 <= b.y2 && a.y2 >= b.y1
}

/// A room that lies fully inside the grid with a degenerate-free extent.
pub open spec fn rect_in_bounds(r: Rect) -> bool {
    0 <= r.x1 <= r.x2 < MAP_WIDTH && 0 <= r.y1 <= r.y2 < MAP_HEIGHT
}

/// Whether `(x, y)` lies strictly inside `r`, boundary excluded: the part of
/// a room that carving empties.
pub open spec fn rect_interior(r: Rect, x: int, y: int) -> bool {
    r.x1 < x < r.x2 && r.y1 < y < r.y2
}

/// The center of `r`, rounded down on both axes.
pub open spec fn spec_center(r: Rect) -> (int, int) {
    ((r.x1 + r.x2) / 2, (r.y1 + r.y2) / 2)
}

impl Rect {
    /// A rectangle with top-left corner `(x, y)`, width `w` and height `h`.
    pub fn new(x: i32, y: i32, w: i32, h: i32) -> (r: Rect)
        requires
            0 <= x,
            0 <= y,
            0 <= w,
            0 <= h,
            x + w <= i32::MAX,
            y + h <= i32::MAX,
        ensures
            r.x1 == x && r.y1 == y && r.x2 == x + w && r.y2 == y + h,
    {
        Rect { x1: x, y1: y, x2: x + w, y2: y + h }
    }

    /// The center of the rectangle, rounded down on both axes.
    pub fn center(&self) -> (c: (i32, i32))
        requires
            0 <= self.x1 <= self.x2,
            0 <= self.y1 <= self.y2,
            self.x1 + self.x2 <= i32::MAX,
            self.y1 + self.y2 <= i32::MAX,
        ensures
            (c.0 as int, c.1 as int) == spec_center(*self),
    {
        let center_x = (self.x1 + self.x2) / 2;
        let center_y = (self.y1 + self.y2) / 2;
        (center_x, center_y)
    }

    /// Whether this room and `other` intersect, under the inclusive overlap
    /// test that also rejects rooms that merely touch.
    pub fn intersects_with(&self, other: &Rect) -> (r: bool)
        ensures
            r == spec_intersects(*self, *other),
    {
        (self.x1 <= other.x2) && (self.x2 >= other.x1) && (self.y1 <= other.y2)
            && (self.y2 >= other.y1)
    }
}

/// Carve the interior of `room` (boundary excluded) to floor tiles.  Every
/// tile outside the interior is left untouched.
pub fn create_room(room: &Rect, grid: &mut Grid)
    requires
        grid_wf(old(grid)@),
        rect_in_bounds(*room),
    ensures
        grid_wf(final(grid)@),
        forall|x: int, y: int|
            in_grid(x, y) ==> tile_at(final(grid)@, x, y) == (if rect_interior(*room, x, y) {
                empty_tile()
            } else {
                tile_at(old(grid)@, x, y)
            }),
{
    let mut x = room.x1 + 1;
    while x < room.x2
        invariant
            grid_wf(grid@),
            rect_in_bounds(*room),
            room.x1 < x,
            forall|xi: int, yi: int|
                in_grid(xi, yi) ==> tile_at(grid@, xi, yi) == (if rect_interior(*room, xi, yi)
                    && xi < x {
                    empty_tile()
                } else {
                    tile_at(old(grid)@, xi, yi)
                }),
        decreases room.x2 - x,
    {
        let mut y = room.y1 + 1;
        while y < room.y2
            invariant
                grid_wf(grid@),
                rect_in_bounds(*room),
                room.x1 < x < room.x2,
                room.y1 < y,
                forall|xi: int, yi: int|
                    in_grid(xi, yi) ==> tile_at(grid@, xi, yi) == (if rect_interior(
                        *room,
                        xi,
                        yi,
                    ) && (xi < x || (xi == x && yi < y)) {
                        empty_tile()
                    } else {
                        tile_at(old(grid)@, xi, yi)
                    }),
            decreases room.y2 - y,
        {
            grid[x as usize][y as usize] = Tile::empty();
            y = y + 1;
        }
        x = x + 1;
    }
}

/// Carve a horizontal corridor segment at row `y`, spanning from
/// `min(x1, x2)` to `max(x1, x2)`, both endpoints included.
pub fn create_h_tunnel(x1: i32, x2: i32, y: i32, grid: &mut Grid)
    requires
        grid_wf(old(grid)@),
        0 <= x1 < MAP_WIDTH,
        0 <= x2 < MAP_WIDTH,
        0 <= y < MAP_HEIGHT,
    ensures
        grid_wf(final(grid)@),
        forall|xi: int, yi: int|
            in_grid(xi, yi) ==> tile_at(final(grid)@, xi, yi) == (if h_span(x1 as int, x2 as int, y as int, xi, yi) {
                empty_tile()
            } else {
                tile_at(old(grid)@, xi, yi)
            }),
{
    let lo = if x1 < x2 { x1 } else { x2 };
    let hi = if x1 < x2 { x2 } else { x1 };
    let mut x = lo;
    while x < hi + 1
        invariant
            grid_wf(grid@),
            lo <= x,
            lo == if x1 < x2 { x1 as int } else { x2 as int },
            hi == if x1 < x2 { x2 as int } else { x1 as int },
            0 <= lo <= hi < MAP_WIDTH,
            0 <= y < MAP_HEIGHT,
            forall|xi: int, yi: int|
                in_grid(xi, yi) ==> tile_at(grid@, xi, yi) == (if h_span(x1 as int, x2 as int, y as int, xi, yi) && xi < x {
                    empty_tile()
                } else {
                    tile_at(old(grid)@, xi, yi)
                }),
        decreases hi + 1 - x,
    {
        grid[x as usize][y as usize] = Tile::empty();
        x = x + 1;
    }
}

/// Whether `(xi, yi)` lies on the horizontal corridor at row `y` between
/// columns `x1` and `x2`, endpoints included.
pub open spec fn h_span(x1: int, x2: int, y: int, xi: int, yi: int) -> bool {
    yi == y && (if x1 < x2 {
        x1 <= xi <= x2
    } else {
        x2 <= xi <= x1
    })
}

/// Whether `(xi, yi)` lies on the vertical corridor at column `x` between
/// rows `y1` and `y2`, endpoints included.
pub open spec fn v_span(y1: int, y2: int, x: int, xi: int, yi: int) -> bool {
    xi == x && (if y1 < y2 {
        y1 <= yi <= y2
    } else {
        y2 <= yi <= y1
    })
}

/// Carve a vertical corridor segment at column `x`, spanning from
/// `min(y1, y2)` to `max(y1, y2)`, both endpoints included.
pub fn create_v_tunnel(y1: i32, y2: i32, x: i32, grid: &mut Grid)
    requires
        grid_wf(old(grid)@),
        0 <= y1 < MAP_HEIGHT,
        0 <= y2 < MAP_HEIGHT,
        0 <= x < MAP_WIDTH,
    ensures
        grid_wf(final(grid)@),
        forall|xi: int, yi: int|
            in_grid(xi, yi) ==> tile_at(final(grid)@, xi, yi) == (if v_span(y1 as int, y2 as int, x as int, xi, yi) {
                empty_tile()
            } else {
                tile_at(old(grid)@, xi, yi)
            }),
{
    let lo = if y1 < y2 { y1 } else { y2 };
    let hi = if y1 < y2 { y2 } else { y1 };
    let mut y = lo;
    while y < hi + 1
        invariant
            grid_wf(grid@),
            lo <= y,
            lo == if y1 < y2 { y1 as int } else { y2 as int },
            hi == if y1 < y2 { y2 as int } else { y1 as int },
            0 <= lo <= hi < MAP_HEIGHT,
            0 <= x < MAP_WIDTH,
            forall|xi: int, yi: int|
                in_grid(xi, yi) ==> tile_at(grid@, xi, yi) == (if v_span(y1 as int, y2 as int, x as int, xi, yi) && yi < y {
                    empty_tile()
                } else {
                    tile_at(old(grid)@, xi, yi)
                }),
        decreases hi + 1 - y,
    {
        grid[x as usize][y as usize] = Tile::empty();
        y = y + 1;
    }
}

/// Every tile on the outer border of the grid is a wall.  Generation
/// preserves this (it only carves interior coordinates), and it guarantees
/// that a one-tile step from any floor tile stays inside the grid.
pub open spec fn border_walls(g: Seq<Vec<Tile>>) -> bool {
    forall|x: int, y: int|
        in_grid(x, y) && (x == 0 || x == MAP_WIDTH - 1 || y == 0 || y == MAP_HEIGHT - 1)
            ==> tile_at(g, x, y).blocked
}

/// Whether the tile at `(x, y)` is a wall or is occupied by a blocking
/// entity: the single source of truth for movement legality.
pub open spec fn spec_is_blocked(
    g: Seq<Vec<Tile>>,
    objects: Seq<Object>,
    x: int,
    y: int,
) -> bool {
    tile_at(g, x, y).blocked || exists|i: int|
        0 <= i < objects.len() && blocks_tile(#[trigger] objects[i], x, y)
}

/// Whether `(x, y)` is illegal to move onto: a wall tile, or a tile occupied
/// by a blocking entity.  Consulted before every position mutation.
pub fn is_blocked(x: i32, y: i32, grid: &Grid, objects: &Vec<Object>) -> (b: bool)
    requires
        grid_wf(grid@),
        in_grid(x as int, y as int),
    ensures
        b == spec_is_blocked(grid@, objects@, x as int, y as int),
{
    if grid[x as usize][y as usize].blocked {
        return true;
    }
    let mut i: usize = 0;
    while i < objects.len()
        invariant
            i <= objects@.len(),
            forall|j: int| 0 <= j < i ==> !blocks_tile(#[trigger] objects@[j], x as int, y as int),
        decreases objects@.len() - i,
    {
        let o = &objects[i];
        if o.blocks && o.x == x && o.y == y {
            return true;
        }
        i = i + 1;
    }
    false
}

/// Flip `explored` to true on every currently visible tile; every other
/// field of every tile is unchanged.
pub fn update_explored(grid: &mut Grid, fov: &Fov)
    requires
        grid_wf(old(grid)@),
        fov.wf(),
    ensures
        grid_wf(final(grid)@),
        forall|x: int, y: int|
            in_grid(x, y) ==> tile_at(final(grid)@, x, y) == (Tile {
                explored: tile_at(old(grid)@, x, y).explored || fov.spec_visible(x, y),
                ..tile_at(old(grid)@, x, y)
            }),
{
    let mut x: i32 = 0;
    while x < MAP_WIDTH
        invariant
            grid_wf(grid@),
            fov.wf(),
            0 <= x <= MAP_WIDTH,
            forall|xi: int, yi: int|
                in_grid(xi, yi) ==> tile_at(grid@, xi, yi) == (Tile {
                    explored: tile_at(old(grid)@, xi, yi).explored || (xi < x && fov.spec_visible(
                        xi,
                        yi,
                    )),
                    ..tile_at(old(grid)@, xi, yi)
                }),
        decreases MAP_WIDTH - x,
    {
        let mut y: i32 = 0;
        while y < MAP_HEIGHT
            invariant
                grid_wf(grid@),
                fov.wf(),
                0 <= x < MAP_WIDTH,
                0 <= y <= MAP_HEIGHT,
                forall|xi: int, yi: int|
                    in_grid(xi, yi) ==> tile_at(grid@, xi, yi) == (Tile {
                        explored: tile_at(old(grid)@, xi, yi).explored || ((xi < x || (xi == x && yi
                            < y)) && fov.spec_visible(xi, yi)),
                        ..tile_at(old(grid)@, xi, yi)
                    }),
            decreases MAP_HEIGHT - y,
        {
            if fov.is_in_fov(x, y) {
                let t = grid[x as usize][y as usize];
                grid[x as usize][y as usize] = Tile { explored: true, ..t };
            }
            y = y + 1;
        }
        x = x + 1;
    }
}

/// The visibility mask the field-of-view oracle hands the core: one flag per
/// grid cell, true where the cell is currently visible.
pub struct Fov {
    pub mask: Vec<Vec<bool>>,
}

impl Fov {
    /// Well-formedness: the mask matches the grid dimensions.
    pub open spec fn wf(self) -> bool {
        &&& self.mask@.len() == MAP_WIDTH
        &&& forall|x: int| 0 <= x < self.mask@.len() ==> (#[trigger] self.mask@[x])@.len() == MAP_HEIGHT
    }

    /// Whether the mask marks `(x, y)` visible.
    pub open spec fn spec_visible(self, x: int, y: int) -> bool {
        self.mask@[x]@[y]
    }

    /// A mask that marks every cell invisible.
    pub fn new_dark() -> (f: Fov)
        ensures
            f.wf(),
            forall|x: int, y: int| in_grid(x, y) ==> !f.spec_visible(x, y),
    {
        let mut mask: Vec<Vec<bool>> = Vec::new();
        while mask.len() < MAP_WIDTH as usize
            invariant
                mask@.len() <= MAP_WIDTH,
                forall|x: int|
                    0 <= x < mask@.len() ==> (#[trigger] mask@[x])@.len() == MAP_HEIGHT && forall|
                        y: int,
                    | 0 <= y < mask@[x]@.len() ==> !mask@[x]@[y],
            decreases MAP_WIDTH - mask.len(),
        {
            let mut column: Vec<bool> = Vec::new();
            while column.len() < MAP_HEIGHT as usize
                invariant
                    column@.len() <= MAP_HEIGHT,
                    forall|y: int| 0 <= y < column@.len() ==> !column@[y],
                decreases MAP_HEIGHT - column.len(),
            {
                column.push(false);
            }
            mask.push(column);
        }
        Fov { mask }
    }

    /// Mark `(x, y)` as visible or invisible; every other cell is unchanged.
    pub fn set(&mut self, x: i32, y: i32, visible: bool)
        requires
            old(self).wf(),
            in_grid(x as int, y as int),
        ensures
            final(self).wf(),
            final(self).spec_visible(x as int, y as int) == visible,
            forall|xi: int, yi: int|
                in_grid(xi, yi) && !(xi == x as int && yi == y as int)
                    ==> final(self).spec_visible(xi, yi) == old(self).spec_visible(xi, yi),
    {
        self.mask[x as usize][y as usize] = visible;
    }

    /// Whether `(x, y)` is currently visible.
    pub fn is_in_fov(&self, x: i32, y: i32) -> (b: bool)
        requires
            self.wf(),
            in_grid(x as int, y as int),
        ensures
            b == self.spec_visible(x as int, y as int),
    {
        self.mask[x as usize][y as usize]
    }
}

} // verus!
