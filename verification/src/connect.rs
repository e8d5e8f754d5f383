//! Which walkable tiles can be reached from which, one step at a time.

use vstd::prelude::*;
use crate::dungeon::{Rect, TileMap};

verus! {

/// A tile of the grid, by column and row.
pub type Point = (int, int);

/// Whether `a` and `b` are neighbours: one step apart along a row or a
/// column.
pub open spec fn adjacent(a: Point, b: Point) -> bool {
    ||| a.0 == b.0 && (a.1 == b.1 + 1 || b.1 == a.1 + 1)
    ||| a.1 == b.1 && (a.0 == b.0 + 1 || b.0 == a.0 + 1)
}

/// Whether `path` is a walk over walkable tiles, each next to the one
/// before.
pub open spec fn is_path(map: TileMap, path: Seq<Point>) -> bool {
    &&& path.len() > 0
    &&& forall|i: int| 0 <= i < path.len() ==> map.is_floor((#[trigger] path[i]).0, path[i].1)
    &&& forall|i: int| 0 <= i < path.len() - 1 ==> adjacent(#[trigger] path[i], path[i + 1])
}

/// Whether `path` leads from `a` to `b` over walkable tiles.
pub open spec fn joins(map: TileMap, path: Seq<Point>, a: Point, b: Point) -> bool {
    is_path(map, path) && path.first() == a && path.last() == b
}

/// Whether `b` can be reached from `a` over walkable tiles, one step
/// along a row or a column at a time.
pub open spec fn connected(map: TileMap, a: Point, b: Point) -> bool {
    exists|path: Seq<Point>| joins(map, path, a, b)
}

/// Whether `hub` can be reached from every walkable tile of the map.
pub open spec fn all_connected_to(map: TileMap, hub: Point) -> bool {
    forall|x: int, y: int| #[trigger] map.is_floor(x, y) ==> connected(map, (x, y), hub)
}

/// Whether every tile that can be walked on in `before` can be in `after`.
pub open spec fn floor_kept(before: TileMap, after: TileMap) -> bool {
    forall|x: int, y: int| #[trigger] before.is_floor(x, y) ==> after.is_floor(x, y)
}

/// A walkable tile is reached from itself.
pub proof fn lemma_connected_refl(map: TileMap, a: Point)
    requires
        map.is_floor(a.0, a.1),
    ensures
        connected(map, a, a),
{
    assert(joins(map, seq![a], a, a));
}

/// A walk can be taken backwards.
pub proof fn lemma_connected_sym(map: TileMap, a: Point, b: Point)
    requires
        connected(map, a, b),
    ensures
        connected(map, b, a),
{
    let path = choose|path: Seq<Point>| joins(map, path, a, b);
    let back = Seq::new(path.len(), |i: int| path[path.len() - 1 - i]);
    assert forall|i: int| 0 <= i < back.len() - 1 implies adjacent(#[trigger] back[i], back[i + 1]) by {
        assert(adjacent(path[path.len() - 2 - i], path[path.len() - 2 - i + 1]));
    }
    assert(joins(map, back, b, a));
}

/// Two walks that meet make one.
pub proof fn lemma_connected_trans(map: TileMap, a: Point, b: Point, c: Point)
    requires
        connected(map, a, b),
        connected(map, b, c),
    ensures
        connected(map, a, c),
{
    let first = choose|path: Seq<Point>| joins(map, path, a, b);
    let second = choose|path: Seq<Point>| joins(map, path, b, c);
    let whole = first + second.drop_first();
    assert forall|i: int| 0 <= i < whole.len() implies map.is_floor((#[trigger] whole[i]).0, whole[i].1) by {
        if i >= first.len() {
            assert(whole[i] == second[i - first.len() + 1]);
        }
    }
    assert forall|i: int| 0 <= i < whole.len() - 1 implies adjacent(#[trigger] whole[i], whole[i + 1]) by {
        if i < first.len() - 1 {
            assert(adjacent(first[i], first[i + 1]));
        } else if i == first.len() - 1 {
            assert(whole[i] == second[0]);
            assert(whole[i + 1] == second[1]);
            assert(adjacent(second[0int], second[0int + 1]));
        } else {
            assert(whole[i] == second[i - first.len() + 1]);
            assert(whole[i + 1] == second[i - first.len() + 1 + 1]);
            assert(adjacent(second[i - first.len() + 1], second[i - first.len() + 1 + 1]));
        }
    }
    if second.len() == 1 {
        assert(whole =~= first);
    } else {
        assert(whole.last() == second.last());
    }
    assert(joins(map, whole, a, c));
}

/// A walk stays a walk when more tiles are dug out.
pub proof fn lemma_connected_kept(before: TileMap, after: TileMap, a: Point, b: Point)
    requires
        floor_kept(before, after),
        connected(before, a, b),
    ensures
        connected(after, a, b),
{
    let path = choose|path: Seq<Point>| joins(before, path, a, b);
    assert forall|i: int| 0 <= i < path.len() implies after.is_floor((#[trigger] path[i]).0, path[i].1) by {
        assert(before.is_floor(path[i].0, path[i].1));
    }
    assert(joins(after, path, a, b));
}

/// The ends of a walkable stretch of a row reach each other.
pub proof fn lemma_row_connected(map: TileMap, x1: int, x2: int, y: int)
    requires
        x1 <= x2,
        forall|x: int| x1 <= x <= x2 ==> #[trigger] map.is_floor(x, y),
    ensures
        connected(map, (x1, y), (x2, y)),
    decreases x2 - x1,
{
    if x1 == x2 {
        assert(map.is_floor(x1, y));
        lemma_connected_refl(map, (x1, y));
    } else {
        lemma_row_connected(map, x1 + 1, x2, y);
        assert(map.is_floor(x1, y));
        assert(map.is_floor(x1 + 1, y));
        let step = seq![(x1, y), (x1 + 1, y)];
        assert(joins(map, step, (x1, y), (x1 + 1, y)));
        lemma_connected_trans(map, (x1, y), (x1 + 1, y), (x2, y));
    }
}

/// The ends of a walkable stretch of a column reach each other.
pub proof fn lemma_column_connected(map: TileMap, x: int, y1: int, y2: int)
    requires
        y1 <= y2,
        forall|y: int| y1 <= y <= y2 ==> #[trigger] map.is_floor(x, y),
    ensures
        connected(map, (x, y1), (x, y2)),
    decreases y2 - y1,
{
    if y1 == y2 {
        assert(map.is_floor(x, y1));
        lemma_connected_refl(map, (x, y1));
    } else {
        lemma_column_connected(map, x, y1 + 1, y2);
        assert(map.is_floor(x, y1));
        assert(map.is_floor(x, y1 + 1));
        let step = seq![(x, y1), (x, y1 + 1)];
        assert(joins(map, step, (x, y1), (x, y1 + 1)));
        lemma_connected_trans(map, (x, y1), (x, y1 + 1), (x, y2));
    }
}

/// Two tiles of a walkable stretch of a row reach each other, whichever
/// comes first.
pub proof fn lemma_along_row(map: TileMap, a: int, b: int, y: int)
    requires
        forall|x: int| (a <= x <= b || b <= x <= a) ==> #[trigger] map.is_floor(x, y),
    ensures
        connected(map, (a, y), (b, y)),
{
    if a <= b {
        lemma_row_connected(map, a, b, y);
    } else {
        lemma_row_connected(map, b, a, y);
        lemma_connected_sym(map, (b, y), (a, y));
    }
}

/// Two tiles of a walkable stretch of a column reach each other,
/// whichever comes first.
pub proof fn lemma_along_column(map: TileMap, x: int, a: int, b: int)
    requires
        forall|y: int| (a <= y <= b || b <= y <= a) ==> #[trigger] map.is_floor(x, y),
    ensures
        connected(map, (x, a), (x, b)),
{
    if a <= b {
        lemma_column_connected(map, x, a, b);
    } else {
        lemma_column_connected(map, x, b, a);
        lemma_connected_sym(map, (x, b), (x, a));
    }
}

/// Inside a room whose floor is all dug out, every tile reaches every
/// other: along its row first, then along the other's column.
pub proof fn lemma_room_connected(map: TileMap, room: Rect, a: Point, b: Point)
    requires
        forall|x: int, y: int| room.interior(x, y) ==> #[trigger] map.is_floor(x, y),
        room.interior(a.0, a.1),
        room.interior(b.0, b.1),
    ensures
        connected(map, a, b),
{
    assert forall|x: int| (a.0 <= x <= b.0 || b.0 <= x <= a.0) implies #[trigger] map.is_floor(x, a.1) by {
        assert(room.interior(x, a.1));
    }
    lemma_along_row(map, a.0, b.0, a.1);
    assert forall|y: int| (a.1 <= y <= b.1 || b.1 <= y <= a.1) implies #[trigger] map.is_floor(b.0, y) by {
        assert(room.interior(b.0, y));
    }
    lemma_along_column(map, b.0, a.1, b.1);
    lemma_connected_trans(map, a, (b.0, a.1), b);
}

} // verus!
