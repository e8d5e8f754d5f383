//! Tiles, rectangles and the tile grid of a dungeon level.

use vstd::prelude::*;
use crate::config::{MAP_HEIGHT, MAP_WIDTH};

verus! {

/// A tile of the map and its properties.
#[derive(Clone, Copy, Debug, PartialEq, Eq, Structural)]
pub struct Tile {
    pub blocked: bool,
    pub explored: bool,
    pub block_sight: bool,
}

impl Tile {
    /// A passable, see-through tile nobody has seen yet.
    pub fn empty() -> (t: Tile)
        ensures
            t == (Tile { blocked: false, explored: false, block_sight: false }),
    {
        Tile { blocked: false, explored: false, block_sight: false }
    }

    /// A solid tile nobody has seen yet.
    pub fn wall() -> (t: Tile)
        ensures
            t == (Tile { blocked: true, explored: false, block_sight: true }),
    {
        Tile { blocked: true, explored: false, block_sight: true }
    }

    /// The tile once it is dug out: passable and see-through, explored as before.
    pub open spec fn opened(self) -> Tile {
        Tile { blocked: false, explored: self.explored, block_sight: false }
    }
}

/// Half of `n`, rounded towards zero.
pub open spec fn half(n: int) -> int {
    if n >= 0 {
        n / 2
    } else {
        -((-n) / 2)
    }
}

/// A rectangle on the map, used to characterise a room. It spans from
/// `(x1, y1)` to `(x2, y2)`; the room's floor lies strictly inside.
#[derive(Clone, Copy, Debug, PartialEq, Eq, Structural)]
pub struct Rect {
    pub x1: i32,
    pub y1: i32,
    pub x2: i32,
    pub y2: i32,
}

impl Rect {
    /// The rectangle with corner `(x, y)`, width `w` and height `h`.
    pub fn new(x: i32, y: i32, w: i32, h: i32) -> (r: Rect)
        requires
            i32::MIN <= x + w <= i32::MAX,
            i32::MIN <= y + h <= i32::MAX,
        ensures
            r == (Rect { x1: x, y1: y, x2: (x + w) as i32, y2: (y + h) as i32 }),
    {
        Rect { x1: x, y1: y, x2: x + w, y2: y + h }
    }

    /// The centre of the rectangle, as a point of the mathematical plane.
    pub open spec fn center_point(self) -> (int, int) {
        (half(self.x1 + self.x2), half(self.y1 + self.y2))
    }

    /// Whether the two rectangles overlap or touch.
    pub open spec fn overlaps(self, other: Rect) -> bool {
        &&& self.x1 <= other.x2
        &&& self.x2 >= other.x1
        &&& self.y1 <= other.y2
        &&& self.y2 >= other.y1
    }

    /// Whether `(x, y)` lies strictly inside the rectangle, on the room's floor.
    pub open spec fn interior(self, x: int, y: int) -> bool {
        self.x1 < x < self.x2 && self.y1 < y < self.y2
    }

    /// The centre of the rectangle.
    pub fn center(&self) -> (c: (i32, i32))
        requires
            i32::MIN <= self.x1 + self.x2 <= i32::MAX,
            i32::MIN <= self.y1 + self.y2 <= i32::MAX,
        ensures
            (c.0 as int, c.1 as int) == self.center_point(),
    {
        let center_x = (self.x1 + self.x2) / 2;
        let center_y = (self.y1 + self.y2) / 2;
        (center_x, center_y)
    }

    /// Whether this rectangle intersects with another one. Rectangles that
    /// only share a boundary count as intersecting.
    pub fn intersect(&self, other: &Rect) -> (b: bool)
        ensures
            b == self.overlaps(*other),
    {
        (self.x1 <= other.x2) && (self.x2 >= other.x1) && (self.y1 <= other.y2) && (self.y2
            >= other.y1)
    }

    /// Whether this rectangle intersects with another one. Rectangles that
    /// only share a boundary count as intersecting.
    pub fn intersects_with(&self, other: &Rect) -> (b: bool)
        ensures
            b == self.overlaps(*other),
    {
        self.intersect(other)
    }
}

/// Whether `(x, y)` names a tile of the grid.
pub open spec fn in_bounds(x: int, y: int) -> bool {
    0 <= x < MAP_WIDTH && 0 <= y < MAP_HEIGHT
}

/// The tile grid of one dungeon level, indexed by column and then by row.
#[derive(Debug, PartialEq)]
pub struct TileMap {
    pub tiles: Vec<Vec<Tile>>,
}

impl TileMap {
    /// The grid has the full width and height of a level.
    pub open spec fn wf(&self) -> bool {
        &&& self.tiles@.len() == MAP_WIDTH
        &&& forall|x: int| 0 <= x < MAP_WIDTH ==> (#[trigger] self.tiles@[x])@.len() == MAP_HEIGHT
    }

    /// The tile at `(x, y)`.
    pub open spec fn tile(&self, x: int, y: int) -> Tile {
        self.tiles@[x]@[y]
    }

    /// Whether `(x, y)` is a tile of the grid that can be walked on.
    pub open spec fn is_floor(&self, x: int, y: int) -> bool {
        in_bounds(x, y) && !self.tile(x, y).blocked
    }

    /// Every tile on the rim of the grid is solid.
    pub open spec fn enclosed(&self) -> bool {
        forall|x: int, y: int| #[trigger]
            self.is_floor(x, y) ==> 0 < x < MAP_WIDTH - 1 && 0 < y < MAP_HEIGHT - 1
    }

    /// Every tile is a solid one nobody has seen yet.
    pub open spec fn all_walls(&self) -> bool {
        forall|x: int, y: int|
            in_bounds(x, y) ==> #[trigger] self.tile(x, y) == (Tile {
                blocked: true,
                explored: false,
                block_sight: true,
            })
    }

    /// `self` is `before` with exactly the tiles of `region` dug out.
    pub open spec fn carved_from(&self, before: &TileMap, region: spec_fn(int, int) -> bool) -> bool {
        &&& self.wf()
        &&& forall|x: int, y: int|
            in_bounds(x, y) ==> #[trigger] self.tile(x, y) == if region(x, y) {
                before.tile(x, y).opened()
            } else {
                before.tile(x, y)
            }
    }

    /// A grid filled with solid tiles.
    pub fn new() -> (map: TileMap)
        ensures
            map.wf(),
            map.all_walls(),
    {
        let mut tiles: Vec<Vec<Tile>> = Vec::new();
        let mut x: i32 = 0;
        while x < MAP_WIDTH
            invariant
                0 <= x <= MAP_WIDTH,
                tiles@.len() == x,
                forall|i: int| 0 <= i < x ==> (#[trigger] tiles@[i])@.len() == MAP_HEIGHT,
                forall|i: int, j: int|
                    0 <= i < x && 0 <= j < MAP_HEIGHT ==> #[trigger] tiles@[i]@[j] == (Tile {
                        blocked: true,
                        explored: false,
                        block_sight: true,
                    }),
            decreases MAP_WIDTH - x,
        {
            let mut column: Vec<Tile> = Vec::new();
            let mut y: i32 = 0;
            while y < MAP_HEIGHT
                invariant
                    0 <= y <= MAP_HEIGHT,
                    column@.len() == y,
                    forall|j: int|
                        0 <= j < y ==> #[trigger] column@[j] == (Tile {
                            blocked: true,
                            explored: false,
                            block_sight: true,
                        }),
                decreases MAP_HEIGHT - y,
            {
                column.push(Tile::wall());
                y = y + 1;
            }
            tiles.push(column);
            x = x + 1;
        }
        TileMap { tiles }
    }

    /// Whether the tile at `(x, y)` stops movement.
    pub fn is_blocked_at(&self, x: i32, y: i32) -> (b: bool)
        requires
            self.wf(),
            in_bounds(x as int, y as int),
        ensures
            b == self.tile(x as int, y as int).blocked,
    {
        self.tiles[x as usize][y as usize].blocked
    }

    /// Marks the tile at `(x, y)` as explored.
    pub fn explore(&mut self, x: i32, y: i32)
        requires
            old(self).wf(),
            in_bounds(x as int, y as int),
        ensures
            final(self).wf(),
            forall|a: int, b: int|
                in_bounds(a, b) ==> #[trigger] final(self).tile(a, b) == if a == x && b == y {
                    Tile { explored: true, ..old(self).tile(a, b) }
                } else {
                    old(self).tile(a, b)
                },
    {
        self.tiles[x as usize][y as usize].explored = true;
    }

    /// Digs out the tile at `(x, y)`.
    pub fn dig(&mut self, x: i32, y: i32)
        requires
            old(self).wf(),
            in_bounds(x as int, y as int),
        ensures
            final(self).carved_from(old(self), |a: int, b: int| a == x && b == y),
    {
        self.tiles[x as usize][y as usize].blocked = false;
        self.tiles[x as usize][y as usize].block_sight = false;
    }
}

/// Goes through the tiles inside the rectangle and makes them passable.
pub fn create_room(room: Rect, map: &mut TileMap)
    requires
        old(map).wf(),
        room.x1 < i32::MAX,
        room.y1 < i32::MAX,
        room.x1 + 1 < room.x2 && room.y1 + 1 < room.y2 ==> 0 <= room.x1 + 1 && room.x2 <= MAP_WIDTH
            && 0 <= room.y1 + 1 && room.y2 <= MAP_HEIGHT,
    ensures
        final(map).carved_from(old(map), |x: int, y: int| room.interior(x, y)),
{
    if room.y1 + 1 >= room.y2 {
        return ;
    }
    let mut x: i32 = room.x1 + 1;
    while x < room.x2
        invariant
            room.y1 + 1 < room.y2,
            room.x1 + 1 <= x,
            x < room.x2 ==> 0 <= room.x1 + 1 && room.x2 <= MAP_WIDTH && 0 <= room.y1 + 1 && room.y2
                <= MAP_HEIGHT,
            map.carved_from(old(map), |a: int, b: int| room.interior(a, b) && a < x),
        decreases room.x2 - x,
    {
        let mut y: i32 = room.y1 + 1;
        while y < room.y2
            invariant
                0 <= room.x1 + 1 <= x < room.x2 <= MAP_WIDTH,
                0 <= room.y1 + 1 <= y <= room.y2 <= MAP_HEIGHT,
                map.carved_from(
                    old(map),
                    |a: int, b: int| room.interior(a, b) && (a < x || (a == x && b < y)),
                ),
            decreases room.y2 - y,
        {
            map.dig(x, y);
            y = y + 1;
        }
        x = x + 1;
    }
}

/// Digs a horizontal tunnel along row `y`, between columns `x1` and `x2`
/// in whichever order they come.
pub fn create_h_tunnel(x1: i32, x2: i32, y: i32, map: &mut TileMap)
    requires
        old(map).wf(),
        in_bounds(x1 as int, y as int),
        in_bounds(x2 as int, y as int),
    ensures
        final(map).carved_from(
            old(map),
            |a: int, b: int| b == y && (x1 <= a <= x2 || x2 <= a <= x1),
        ),
{
    let low = if x1 < x2 {
        x1
    } else {
        x2
    };
    let high = if x1 < x2 {
        x2
    } else {
        x1
    };
    let mut x: i32 = low;
    while x < high + 1
        invariant
            0 <= low <= x <= high + 1 <= MAP_WIDTH,
            0 <= y < MAP_HEIGHT,
            low == if x1 < x2 { x1 } else { x2 },
            high == if x1 < x2 { x2 } else { x1 },
            map.carved_from(old(map), |a: int, b: int| b == y && low <= a < x),
        decreases high + 1 - x,
    {
        map.dig(x, y);
        x = x + 1;
    }
}

/// Digs a vertical tunnel along column `x`, between rows `y1` and `y2` in
/// whichever order they come.
pub fn create_v_tunnel(y1: i32, y2: i32, x: i32, map: &mut TileMap)
    requires
        old(map).wf(),
        in_bounds(x as int, y1 as int),
        in_bounds(x as int, y2 as int),
    ensures
        final(map).carved_from(
            old(map),
            |a: int, b: int| a == x && (y1 <= b <= y2 || y2 <= b <= y1),
        ),
{
    let low = if y1 < y2 {
        y1
    } else {
        y2
    };
    let high = if y1 < y2 {
        y2
    } else {
        y1
    };
    let mut y: i32 = low;
    while y < high + 1
        invariant
            0 <= low <= y <= high + 1 <= MAP_HEIGHT,
            0 <= x < MAP_WIDTH,
            low == if y1 < y2 { y1 } else { y2 },
            high == if y1 < y2 { y2 } else { y1 },
            map.carved_from(old(map), |a: int, b: int| a == x && low <= b < y),
        decreases high + 1 - y,
    {
        map.dig(x, y);
        y = y + 1;
    }
}

} // verus!
