//! What the player currently sees.

use vstd::prelude::*;
use crate::config::{MAP_HEIGHT, MAP_WIDTH};
use crate::dungeon::{in_bounds, Tile, TileMap};

verus! {

/// The tiles in the player's field of view, as the field-of-view
/// computation last left them: one flag per tile, by column and row.
#[derive(Debug, PartialEq)]
pub struct Visibility {
    pub cells: Vec<Vec<bool>>,
}

impl Visibility {
    /// Whether the tile at `(x, y)` is in view. A point that is no tile of
    /// the grid is never in view.
    pub open spec fn visible(&self, x: int, y: int) -> bool {
        &&& 0 <= x < self.cells@.len()
        &&& 0 <= y < self.cells@[x]@.len()
        &&& self.cells@[x]@[y]
    }

    /// The grid has the full width and height of a level.
    pub open spec fn wf(&self) -> bool {
        &&& self.cells@.len() == MAP_WIDTH
        &&& forall|x: int| 0 <= x < MAP_WIDTH ==> (#[trigger] self.cells@[x])@.len() == MAP_HEIGHT
    }

    /// A grid of the size of a level with nothing in view.
    pub fn new() -> (fov: Visibility)
        ensures
            fov.wf(),
            forall|x: int, y: int| !fov.visible(x, y),
    {
        let mut cells: Vec<Vec<bool>> = Vec::new();
        let mut x: i32 = 0;
        while x < MAP_WIDTH
            invariant
                0 <= x <= MAP_WIDTH,
                cells@.len() == x,
                forall|i: int| 0 <= i < x ==> (#[trigger] cells@[i])@.len() == MAP_HEIGHT,
                forall|i: int, j: int| 0 <= i < x && 0 <= j < MAP_HEIGHT ==> !(#[trigger] cells@[i]@[j]),
            decreases MAP_WIDTH - x,
        {
            let mut column: Vec<bool> = Vec::new();
            let mut y: i32 = 0;
            while y < MAP_HEIGHT
                invariant
                    0 <= y <= MAP_HEIGHT,
                    column@.len() == y,
                    forall|j: int| 0 <= j < y ==> !(#[trigger] column@[j]),
                decreases MAP_HEIGHT - y,
            {
                column.push(false);
                y = y + 1;
            }
            cells.push(column);
            x = x + 1;
        }
        Visibility { cells }
    }

    /// Records whether the tile at `(x, y)` is in view.
    pub fn set(&mut self, x: i32, y: i32, visible: bool)
        requires
            old(self).wf(),
            in_bounds(x as int, y as int),
        ensures
            final(self).wf(),
            forall|a: int, b: int|
                final(self).visible(a, b) == if a == x && b == y {
                    visible
                } else {
                    old(self).visible(a, b)
                },
    {
        self.cells[x as usize][y as usize] = visible;
    }

    /// Whether the tile at `(x, y)` is in view.
    pub fn is_in_fov(&self, x: i32, y: i32) -> (b: bool)
        ensures
            b == self.visible(x as int, y as int),
    {
        x >= 0 && y >= 0 && (x as usize) < self.cells.len() && (y as usize)
            < self.cells[x as usize].len() && self.cells[x as usize][y as usize]
    }
}

/// Marks every tile in view as explored. A tile once explored stays so.
pub fn mark_explored(map: &mut TileMap, fov: &Visibility)
    requires
        old(map).wf(),
    ensures
        final(map).wf(),
        forall|x: int, y: int|
            in_bounds(x, y) ==> #[trigger] final(map).tile(x, y) == if fov.visible(x, y) {
                Tile { explored: true, ..old(map).tile(x, y) }
            } else {
                old(map).tile(x, y)
            },
{
    let mut x: i32 = 0;
    while x < MAP_WIDTH
        invariant
            0 <= x <= MAP_WIDTH,
            map.wf(),
            forall|a: int, b: int|
                in_bounds(a, b) ==> #[trigger] map.tile(a, b) == if a < x && fov.visible(a, b) {
                    Tile { explored: true, ..old(map).tile(a, b) }
                } else {
                    old(map).tile(a, b)
                },
        decreases MAP_WIDTH - x,
    {
        let mut y: i32 = 0;
        while y < MAP_HEIGHT
            invariant
                0 <= x < MAP_WIDTH,
                0 <= y <= MAP_HEIGHT,
                map.wf(),
                forall|a: int, b: int|
                    in_bounds(a, b) ==> #[trigger] map.tile(a, b) == if (a < x || (a == x && b < y))
                        && fov.visible(a, b) {
                        Tile { explored: true, ..old(map).tile(a, b) }
                    } else {
                        old(map).tile(a, b)
                    },
            decreases MAP_HEIGHT - y,
        {
            if fov.is_in_fov(x, y) {
                map.explore(x, y);
            }
            y = y + 1;
        }
        x = x + 1;
    }
}

} // verus!
