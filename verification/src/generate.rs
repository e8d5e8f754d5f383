//! Digging out a level: rooms at random, tunnels between them, and what
//! the rooms are stocked with.

use vstd::prelude::*;
use crate::color::Color;
use crate::config::{MAP_HEIGHT, MAP_WIDTH, MAX_ROOMS, PLAYER, ROOM_MAX_SIZE, ROOM_MIN_SIZE};
use crate::connect::{
    all_connected_to,
    connected,
    floor_kept,
    lemma_along_column,
    lemma_along_row,
    lemma_connected_kept,
    lemma_connected_sym,
    lemma_connected_trans,
    lemma_room_connected,
    Point,
};
use crate::dungeon::{create_h_tunnel, create_room, create_v_tunnel, in_bounds, Rect, TileMap};
use crate::object::{Object, ObjectView, views};
use crate::random::{coin_flip, range};
use crate::spawn::{attempts_ok, place_objects, Spawn, spawned, spawned_all};

verus! {

impl TileMap {
    /// No tile has been seen yet, and exactly the solid tiles stop the
    /// eye.
    pub open spec fn pristine(&self) -> bool {
        forall|x: int, y: int|
            in_bounds(x, y) ==> !(#[trigger] self.tile(x, y)).explored && self.tile(x, y).block_sight
                == self.tile(x, y).blocked
    }
}

/// Whether `room` is one that the generator may draw: its sides are of
/// the sizes allowed, and it lies on the grid with a tile to spare on the
/// far sides.
pub open spec fn room_placed(room: Rect) -> bool {
    &&& ROOM_MIN_SIZE <= room.x2 - room.x1 <= ROOM_MAX_SIZE
    &&& ROOM_MIN_SIZE <= room.y2 - room.y1 <= ROOM_MAX_SIZE
    &&& 0 <= room.x1
    &&& room.x2 < MAP_WIDTH
    &&& 0 <= room.y1
    &&& room.y2 < MAP_HEIGHT
}

/// Whether `(x, y)` lies on the straight stretch from `a` to `b`, which
/// share a row or a column.
pub open spec fn on_leg(a: Point, b: Point, x: int, y: int) -> bool {
    ||| a.1 == b.1 && y == a.1 && (a.0 <= x <= b.0 || b.0 <= x <= a.0)
    ||| a.0 == b.0 && x == a.0 && (a.1 <= y <= b.1 || b.1 <= y <= a.1)
}

/// Where the tunnel from `prev` to `next` turns: it runs along the row
/// first when `row_first` holds, and along the column first otherwise.
pub open spec fn tunnel_corner(prev: Point, next: Point, row_first: bool) -> Point {
    if row_first {
        (next.0, prev.1)
    } else {
        (prev.0, next.1)
    }
}

/// Whether `(x, y)` lies on the tunnel from `prev` to `next`.
pub open spec fn on_tunnel(prev: Point, next: Point, row_first: bool, x: int, y: int) -> bool {
    on_leg(prev, tunnel_corner(prev, next, row_first), x, y) || on_leg(
        tunnel_corner(prev, next, row_first),
        next,
        x,
        y,
    )
}

/// The stairs down, at `(x, y)`.
pub open spec fn stairs_view(x: i32, y: i32) -> ObjectView {
    ObjectView { always_visible: true, ..ObjectView::bare(x, y, '<', "stairs"@, Color::White, false) }
}

/// Whether `object` is something that a room at `level` is stocked with.
pub open spec fn is_spawn(object: ObjectView, level: int) -> bool {
    exists|spawn: Spawn| #[trigger] spawn.likely(level) && object == spawn.object()
}

/// Whether `(x, y)` lies inside one of the rooms.
pub open spec fn in_some_room(rooms: Seq<Rect>, x: int, y: int) -> bool {
    exists|r: int| 0 <= r < rooms.len() && (#[trigger] rooms[r]).interior(x, y)
}

/// The centre of a room as a point of the grid.
pub open spec fn center_of(room: Rect) -> Point {
    room.center_point()
}

/// `player` moved to the centre of `room`.
pub open spec fn player_at_center(player: ObjectView, room: Rect) -> ObjectView {
    ObjectView { x: center_of(room).0 as i32, y: center_of(room).1 as i32, ..player }
}

/// What holds of the rooms accepted so far: each is one that the
/// generator may draw, no two overlap or touch, and the inside of each is
/// dug out.
pub open spec fn rooms_ok(rooms: Seq<Rect>, map: TileMap) -> bool {
    &&& forall|r: int| 0 <= r < rooms.len() ==> room_placed(#[trigger] rooms[r])
    &&& forall|r: int, s: int| 0 <= r < s < rooms.len() ==> !(#[trigger] rooms[r]).overlaps(#[trigger] rooms[s])
    &&& forall|r: int, x: int, y: int|
        0 <= r < rooms.len() && (#[trigger] rooms[r]).interior(x, y) ==> #[trigger] map.is_floor(x, y)
}

/// Whether `(x, y)` lies on the tunnel that leads to the room numbered
/// `r` from the room accepted before it.
pub open spec fn on_tunnel_to(rooms: Seq<Rect>, r: int, row_first: bool, x: int, y: int) -> bool {
    on_tunnel(center_of(rooms[r - 1]), center_of(rooms[r]), row_first, x, y)
}

/// Whether `(x, y)` lies on a tunnel between two rooms accepted one after
/// the other.
pub open spec fn on_some_tunnel(rooms: Seq<Rect>, x: int, y: int) -> bool {
    exists|r: int, row_first: bool| 0 < r < rooms.len() && #[trigger] on_tunnel_to(rooms, r, row_first, x, y)
}

/// Whether the tunnel that leads to the room numbered `r` is dug out, one
/// way round its turn or the other.
pub open spec fn tunnel_dug(map: TileMap, rooms: Seq<Rect>, r: int) -> bool {
    exists|row_first: bool| tunnel_dug_by(map, rooms, r, row_first)
}

/// Whether the tunnel that leads to the room numbered `r` is dug out the
/// way round its turn that `row_first` says.
pub open spec fn tunnel_dug_by(map: TileMap, rooms: Seq<Rect>, r: int, row_first: bool) -> bool {
    forall|x: int, y: int| on_tunnel_to(rooms, r, row_first, x, y) ==> #[trigger] map.is_floor(x, y)
}

/// The rooms that are accepted of those drawn, in order: each one that
/// neither overlaps nor touches a room accepted before it.
pub open spec fn accepted(drawn: Seq<Rect>) -> Seq<Rect>
    decreases drawn.len(),
{
    if drawn.len() == 0 {
        Seq::empty()
    } else {
        let earlier = accepted(drawn.drop_last());
        if exists|r: int| 0 <= r < earlier.len() && drawn.last().overlaps(#[trigger] earlier[r]) {
            earlier
        } else {
            earlier.push(drawn.last())
        }
    }
}

/// Whether `rooms` are the rooms accepted of `drawn`, each of which is
/// one that the generator may draw.
pub open spec fn rooms_drawn(drawn: Seq<Rect>, rooms: Seq<Rect>) -> bool {
    &&& forall|i: int| 0 <= i < drawn.len() ==> room_placed(#[trigger] drawn[i])
    &&& rooms == accepted(drawn)
}

/// No two objects that block, the first object aside, stand on one tile.
pub open spec fn blockers_apart(objects: Seq<ObjectView>) -> bool {
    forall|i: int, j: int|
        0 < i < j < objects.len() && (#[trigger] objects[i]).blocks && (#[trigger] objects[j]).blocks ==> !(
        objects[i].x == objects[j].x && objects[i].y == objects[j].y)
}

/// The most objects that one room is stocked with at `level`.
pub open spec fn room_cap(level: int) -> int {
    crate::spawn::max_monsters(level) + crate::spawn::max_items(level)
}

/// What holds of the map while a level is being dug: it is whole, walled
/// in and unseen, and dug out nowhere but inside the rooms and along the
/// tunnels between them; the rooms are in order and each is joined to
/// the one before it by a tunnel dug from end to end; before the first
/// room nothing is dug, and from the first room on every walkable tile
/// reaches the centre of the room accepted last.
pub open spec fn map_dug_ok(map: TileMap, rooms: Seq<Rect>) -> bool {
    &&& map.wf()
    &&& map.enclosed()
    &&& map.pristine()
    &&& rooms_ok(rooms, map)
    &&& rooms.len() == 0 ==> map.all_walls()
    &&& rooms.len() > 0 ==> all_connected_to(map, center_of(rooms.last()))
    &&& forall|x: int, y: int| #[trigger]
        map.is_floor(x, y) ==> in_some_room(rooms, x, y) || on_some_tunnel(rooms, x, y)
    &&& forall|r: int| 0 < r < rooms.len() ==> #[trigger] tunnel_dug(map, rooms, r)
}

/// What holds of the objects while a level is being dug: before the
/// first room the player stands alone and unmoved; from the first room on
/// the player stands at its centre, everything else lies inside some
/// room and is of a kind that the level is stocked with, no two of those
/// that block share a tile, and no room added more than the level
/// allows.
pub open spec fn objects_dug_ok(
    player_before: ObjectView,
    objects: Seq<ObjectView>,
    rooms: Seq<Rect>,
    level: int,
) -> bool {
    &&& objects.len() >= 1
    &&& rooms.len() == 0 ==> objects.len() == 1 && objects[0] == player_before
    &&& rooms.len() > 0 ==> objects[0] == player_at_center(player_before, rooms[0])
    &&& forall|i: int|
        0 < i < objects.len() ==> is_spawn(#[trigger] objects[i], level) && in_some_room(
            rooms,
            objects[i].x as int,
            objects[i].y as int,
        )
    &&& blockers_apart(objects)
    &&& objects.len() <= 1 + rooms.len() * room_cap(level)
}

/// What holds while a level is being dug, of the map and of the objects.
pub open spec fn digging_ok(
    player_before: ObjectView,
    objects: Seq<ObjectView>,
    map: TileMap,
    rooms: Seq<Rect>,
    level: int,
) -> bool {
    map_dug_ok(map, rooms) && objects_dug_ok(player_before, objects, rooms, level)
}

/// What holds of a finished level: its rooms are those accepted of a
/// fixed number of rooms drawn, at least one; the level was dug in order
/// from them; the stairs down come last among the objects and stand at
/// the centre of the room accepted last; and every walkable tile reaches
/// the tile where the player stands.
pub open spec fn level_ok(
    player_before: ObjectView,
    objects: Seq<ObjectView>,
    map: TileMap,
    rooms: Seq<Rect>,
    level: int,
) -> bool {
    &&& 0 < rooms.len() <= MAX_ROOMS
    &&& exists|drawn: Seq<Rect>| drawn.len() == MAX_ROOMS && #[trigger] rooms_drawn(drawn, rooms)
    &&& objects.len() >= 2
    &&& digging_ok(player_before, objects.drop_last(), map, rooms, level)
    &&& objects.last() == stairs_view(center_of(rooms.last()).0 as i32, center_of(rooms.last()).1 as i32)
    &&& all_connected_to(map, (objects[0].x as int, objects[0].y as int))
}

/// Whether a level has been generated around the player: some sequence
/// of rooms makes it a finished level.
pub open spec fn generated(player_before: ObjectView, objects: Seq<ObjectView>, map: TileMap, level: int) -> bool {
    exists|rooms: Seq<Rect>| level_ok(player_before, objects, map, rooms, level)
}

/// The centre of a room that the generator may draw lies inside it.
pub proof fn lemma_center_inside(room: Rect)
    requires
        room_placed(room),
    ensures
        room.interior(center_of(room).0, center_of(room).1),
        0 < center_of(room).0 < MAP_WIDTH - 1,
        0 < center_of(room).1 < MAP_HEIGHT - 1,
{
}

/// Digs the tunnel from `prev` to `next`: along the row and then the
/// column when `row_first` holds, along the column and then the row
/// otherwise. Both stretches are always dug, through whatever is there.
pub fn connect_rooms(prev: (i32, i32), next: (i32, i32), row_first: bool, map: &mut TileMap)
    requires
        old(map).wf(),
        in_bounds(prev.0 as int, prev.1 as int),
        in_bounds(next.0 as int, next.1 as int),
    ensures
        final(map).carved_from(
            old(map),
            |x: int, y: int|
                on_tunnel(
                    (prev.0 as int, prev.1 as int),
                    (next.0 as int, next.1 as int),
                    row_first,
                    x,
                    y,
                ),
        ),
{
    let (prev_x, prev_y) = prev;
    let (new_x, new_y) = next;
    if row_first {
        create_h_tunnel(prev_x, new_x, prev_y, map);
        create_v_tunnel(prev_y, new_y, new_x, map);
    } else {
        create_v_tunnel(prev_y, new_y, prev_x, map);
        create_h_tunnel(prev_x, new_x, new_y, map);
    }
}

/// Once a room is dug out and a tunnel leads to it from a tile that every
/// walkable tile reached before, every walkable tile reaches the centre
/// of the new room.
pub proof fn lemma_room_joined(
    before: TileMap,
    after: TileMap,
    room: Rect,
    prev: Point,
    next: Point,
    row_first: bool,
)
    requires
        before.is_floor(prev.0, prev.1),
        all_connected_to(before, prev),
        room.interior(next.0, next.1),
        forall|x: int, y: int|
            #[trigger] after.is_floor(x, y) <==> before.is_floor(x, y) || (in_bounds(x, y) && (
            room.interior(x, y) || on_tunnel(prev, next, row_first, x, y))),
        in_bounds(prev.0, prev.1),
        in_bounds(next.0, next.1),
        forall|x: int, y: int| room.interior(x, y) ==> in_bounds(x, y),
    ensures
        all_connected_to(after, next),
{
    let corner = tunnel_corner(prev, next, row_first);
    assert(floor_kept(before, after));
    assert forall|x: int, y: int| on_tunnel(prev, next, row_first, x, y) implies #[trigger] after.is_floor(
        x,
        y,
    ) by {
        assert(in_bounds(x, y));
    }
    assert forall|x: int, y: int| room.interior(x, y) implies #[trigger] after.is_floor(x, y) by {}
    assert(connected(after, prev, corner)) by {
        if row_first {
            assert forall|x: int| (prev.0 <= x <= corner.0 || corner.0 <= x <= prev.0) implies #[trigger] after.is_floor(
                x,
                prev.1,
            ) by {
                assert(on_tunnel(prev, next, row_first, x, prev.1));
            }
            lemma_along_row(after, prev.0, corner.0, prev.1);
        } else {
            assert forall|y: int| (prev.1 <= y <= corner.1 || corner.1 <= y <= prev.1) implies #[trigger] after.is_floor(
                prev.0,
                y,
            ) by {
                assert(on_tunnel(prev, next, row_first, prev.0, y));
            }
            lemma_along_column(after, prev.0, prev.1, corner.1);
        }
    }
    assert(connected(after, corner, next)) by {
        if row_first {
            assert forall|y: int| (corner.1 <= y <= next.1 || next.1 <= y <= corner.1) implies #[trigger] after.is_floor(
                corner.0,
                y,
            ) by {
                assert(on_tunnel(prev, next, row_first, corner.0, y));
            }
            lemma_along_column(after, corner.0, corner.1, next.1);
        } else {
            assert forall|x: int| (corner.0 <= x <= next.0 || next.0 <= x <= corner.0) implies #[trigger] after.is_floor(
                x,
                corner.1,
            ) by {
                assert(on_tunnel(prev, next, row_first, x, corner.1));
            }
            lemma_along_row(after, corner.0, next.0, corner.1);
        }
    }
    lemma_connected_trans(after, prev, corner, next);
    assert forall|x: int, y: int| #[trigger] after.is_floor(x, y) implies connected(after, (x, y), next) by {
        if before.is_floor(x, y) {
            lemma_connected_kept(before, after, (x, y), prev);
            lemma_connected_trans(after, (x, y), prev, next);
        } else if room.interior(x, y) {
            lemma_room_connected(after, room, (x, y), next);
        } else if on_leg(prev, corner, x, y) {
            if row_first {
                assert forall|a: int| (x <= a <= corner.0 || corner.0 <= a <= x) implies #[trigger] after.is_floor(
                    a,
                    y,
                ) by {
                    assert(on_tunnel(prev, next, row_first, a, y));
                }
                lemma_along_row(after, x, corner.0, y);
            } else {
                assert forall|b: int| (y <= b <= corner.1 || corner.1 <= b <= y) implies #[trigger] after.is_floor(
                    x,
                    b,
                ) by {
                    assert(on_tunnel(prev, next, row_first, x, b));
                }
                lemma_along_column(after, x, y, corner.1);
            }
            lemma_connected_trans(after, (x, y), corner, next);
        } else {
            if row_first {
                assert forall|b: int| (y <= b <= next.1 || next.1 <= b <= y) implies #[trigger] after.is_floor(
                    x,
                    b,
                ) by {
                    assert(on_tunnel(prev, next, row_first, x, b));
                }
                lemma_along_column(after, x, y, next.1);
            } else {
                assert forall|a: int| (x <= a <= next.0 || next.0 <= a <= x) implies #[trigger] after.is_floor(
                    a,
                    y,
                ) by {
                    assert(on_tunnel(prev, next, row_first, a, y));
                }
                lemma_along_row(after, x, next.0, y);
            }
        }
    }
}

/// What stocking a room leaves behind: the objects that were there stay
/// as they were, and each new one is of a kind that the level is stocked
/// with and stands on a walkable tile inside the room.
pub proof fn lemma_spawned_all(objects: Seq<ObjectView>, map: TileMap, spawns: Seq<Spawn>, room: Rect, level: int)
    requires
        forall|i: int|
            0 <= i < spawns.len() ==> (#[trigger] spawns[i]).likely(level) && room.interior(
                spawns[i].x() as int,
                spawns[i].y() as int,
            ),
    ensures
        objects.len() <= spawned_all(objects, map, spawns).len() <= objects.len() + spawns.len(),
        blockers_apart(objects) ==> blockers_apart(spawned_all(objects, map, spawns)),
        forall|i: int| 0 <= i < objects.len() ==> #[trigger] spawned_all(objects, map, spawns)[i] == objects[i],
        forall|i: int|
            objects.len() <= i < spawned_all(objects, map, spawns).len() ==> {
                let o = #[trigger] spawned_all(objects, map, spawns)[i];
                is_spawn(o, level) && room.interior(o.x as int, o.y as int) && !map.tile(
                    o.x as int,
                    o.y as int,
                ).blocked
            },
    decreases spawns.len(),
{
    if spawns.len() > 0 {
        let earlier = spawns.drop_last();
        lemma_spawned_all(objects, map, earlier, room, level);
        let so_far = spawned_all(objects, map, earlier);
        let last = spawns.last();
        let all = spawned_all(objects, map, spawns);
        assert(all == spawned(so_far, map, last));
        assert(last == spawns[spawns.len() - 1]);
        assert(last.likely(level));
        if blockers_apart(objects) && all.len() > so_far.len() {
            assert forall|i: int, j: int|
                0 < i < j < all.len() && (#[trigger] all[i]).blocks && (#[trigger] all[j]).blocks implies !(
            all[i].x == all[j].x && all[i].y == all[j].y) by {
                if j < so_far.len() {
                    assert(all[i] == so_far[i] && all[j] == so_far[j]);
                } else {
                    assert(all[i] == so_far[i]);
                    assert(all[j] == last.object());
                    assert(!crate::world::blocks_at(so_far[i], last.x() as int, last.y() as int));
                }
            }
        }
        assert forall|i: int| objects.len() <= i < all.len() implies {
            let o = #[trigger] all[i];
            is_spawn(o, level) && room.interior(o.x as int, o.y as int) && !map.tile(
                o.x as int,
                o.y as int,
            ).blocked
        } by {
            if i < so_far.len() {
                assert(all[i] == so_far[i]);
            } else {
                assert(all[i] == last.object());
                assert(last.object().x == last.x() && last.object().y == last.y());
            }
        }
    }
}

fn overlaps_any(room: &Rect, rooms: &Vec<Rect>) -> (b: bool)
    ensures
        b == exists|r: int| 0 <= r < rooms@.len() && room.overlaps(#[trigger] rooms@[r]),
{
    let mut i: usize = 0;
    while i < rooms.len()
        invariant
            i <= rooms@.len(),
            forall|r: int| 0 <= r < i ==> !room.overlaps(#[trigger] rooms@[r]),
        decreases rooms@.len() - i,
    {
        if room.intersect(&rooms[i]) {
            return true;
        }
        i = i + 1;
    }
    false
}

/// The tiles that accepting `new_room` digs out: its inside, and the
/// tunnel to its centre from the centre of the room accepted before, if
/// there is one.
pub open spec fn dug_for(rooms: Seq<Rect>, new_room: Rect, row_first: bool) -> spec_fn(int, int) -> bool {
    |x: int, y: int|
        new_room.interior(x, y) || (rooms.len() > 0 && on_tunnel(
            center_of(rooms.last()),
            center_of(new_room),
            row_first,
            x,
            y,
        ))
}

proof fn lemma_rooms_extended(map0: TileMap, map: TileMap, rooms0: Seq<Rect>, new_room: Rect, row_first: bool)
    requires
        map0.wf(),
        rooms_ok(rooms0, map0),
        room_placed(new_room),
        forall|r: int| 0 <= r < rooms0.len() ==> !new_room.overlaps(#[trigger] rooms0[r]),
        map.carved_from(&map0, dug_for(rooms0, new_room, row_first)),
    ensures
        rooms_ok(rooms0.push(new_room), map),
        floor_kept(map0, map),
        forall|x: int, y: int|
            #[trigger] map.is_floor(x, y) <==> map0.is_floor(x, y) || (in_bounds(x, y) && dug_for(
                rooms0,
                new_room,
                row_first,
            )(x, y)),
{
    let rooms1 = rooms0.push(new_room);
    assert forall|x: int, y: int|
        #[trigger] map.is_floor(x, y) <==> map0.is_floor(x, y) || (in_bounds(x, y) && dug_for(
            rooms0,
            new_room,
            row_first,
        )(x, y)) by {
        if in_bounds(x, y) {
            assert(map.tile(x, y) == if dug_for(rooms0, new_room, row_first)(x, y) {
                map0.tile(x, y).opened()
            } else {
                map0.tile(x, y)
            });
        }
    }
    assert forall|r: int| 0 <= r < rooms1.len() implies room_placed(#[trigger] rooms1[r]) by {
        if r < rooms0.len() {
            assert(rooms1[r] == rooms0[r]);
        }
    }
    assert forall|r: int, s: int| 0 <= r < s < rooms1.len() implies !(#[trigger] rooms1[r]).overlaps(
        #[trigger] rooms1[s],
    ) by {
        assert(rooms1[r] == rooms0[r]);
        if s < rooms0.len() {
            assert(rooms1[s] == rooms0[s]);
        } else {
            assert(!new_room.overlaps(rooms0[r]));
        }
    }
    assert forall|r: int, x: int, y: int|
        0 <= r < rooms1.len() && (#[trigger] rooms1[r]).interior(x, y) implies #[trigger] map.is_floor(
        x,
        y,
    ) by {
        if r < rooms0.len() {
            assert(rooms1[r] == rooms0[r]);
            assert(map0.is_floor(x, y));
        } else {
            assert(in_bounds(x, y));
            assert(dug_for(rooms0, new_room, row_first)(x, y));
        }
    }
}

proof fn lemma_map_extended(map0: TileMap, map: TileMap, rooms0: Seq<Rect>, new_room: Rect, row_first: bool)
    requires
        map_dug_ok(map0, rooms0),
        room_placed(new_room),
        forall|r: int| 0 <= r < rooms0.len() ==> !new_room.overlaps(#[trigger] rooms0[r]),
        map.carved_from(&map0, dug_for(rooms0, new_room, row_first)),
    ensures
        map_dug_ok(map, rooms0.push(new_room)),
{
    let rooms1 = rooms0.push(new_room);
    let next = center_of(new_room);
    lemma_rooms_extended(map0, map, rooms0, new_room, row_first);
    lemma_center_inside(new_room);
    assert(rooms1.last() == new_room);
    assert(rooms1[rooms1.len() - 1] == new_room);
    assert forall|x: int, y: int| in_bounds(x, y) implies !(#[trigger] map.tile(x, y)).explored && map.tile(
        x,
        y,
    ).block_sight == map.tile(x, y).blocked by {
        assert(map.tile(x, y) == if dug_for(rooms0, new_room, row_first)(x, y) {
            map0.tile(x, y).opened()
        } else {
            map0.tile(x, y)
        });
        assert(!map0.tile(x, y).explored);
    }
    if rooms0.len() == 0 {
        assert forall|x: int, y: int| #[trigger] map.is_floor(x, y) implies connected(map, (x, y), next) by {
            assert(!map0.is_floor(x, y));
            lemma_room_connected(map, new_room, (x, y), next);
        }
        assert forall|x: int, y: int| #[trigger] map.is_floor(x, y) implies in_some_room(rooms1, x, y)
            || on_some_tunnel(rooms1, x, y) by {
            assert(!map0.is_floor(x, y));
            assert(rooms1[rooms1.len() - 1].interior(x, y));
        }
        assert forall|x: int, y: int| #[trigger] map.is_floor(x, y) implies 0 < x < MAP_WIDTH - 1 && 0 < y
            < MAP_HEIGHT - 1 by {
            assert(!map0.is_floor(x, y));
        }
    } else {
        let prev_room = rooms0.last();
        let prev = center_of(prev_room);
        assert(prev_room == rooms0[rooms0.len() - 1]);
        lemma_center_inside(prev_room);
        assert(map0.is_floor(prev.0, prev.1));
        assert forall|x: int, y: int|
            #[trigger] map.is_floor(x, y) <==> map0.is_floor(x, y) || (in_bounds(x, y) && (
            new_room.interior(x, y) || on_tunnel(prev, next, row_first, x, y))) by {}
        lemma_room_joined(map0, map, new_room, prev, next, row_first);
        assert forall|x: int, y: int| #[trigger] map.is_floor(x, y) implies in_some_room(rooms1, x, y)
            || on_some_tunnel(rooms1, x, y) by {
            if map0.is_floor(x, y) {
                if in_some_room(rooms0, x, y) {
                    let r = choose|r: int| 0 <= r < rooms0.len() && (#[trigger] rooms0[r]).interior(x, y);
                    assert(rooms1[r] == rooms0[r]);
                } else {
                    let (r, first) = choose|r: int, first: bool|
                        0 < r < rooms0.len() && #[trigger] on_tunnel_to(rooms0, r, first, x, y);
                    assert(rooms1[r] == rooms0[r]);
                    assert(rooms1[r - 1] == rooms0[r - 1]);
                    assert(on_tunnel_to(rooms1, r, first, x, y));
                }
            } else if new_room.interior(x, y) {
                assert(rooms1[rooms1.len() - 1].interior(x, y));
            } else {
                assert(rooms1[rooms1.len() - 2] == prev_room);
                assert(on_tunnel_to(rooms1, rooms1.len() - 1, row_first, x, y));
            }
        }
        assert forall|x: int, y: int| #[trigger] map.is_floor(x, y) implies 0 < x < MAP_WIDTH - 1 && 0 < y
            < MAP_HEIGHT - 1 by {}
        assert forall|r: int| 0 < r < rooms1.len() implies #[trigger] tunnel_dug(map, rooms1, r) by {
            assert(rooms1[r - 1] == rooms0[r - 1]);
            if r < rooms0.len() {
                assert(rooms1[r] == rooms0[r]);
                assert(tunnel_dug(map0, rooms0, r));
                let first = choose|first: bool| tunnel_dug_by(map0, rooms0, r, first);
                assert forall|x: int, y: int| on_tunnel_to(rooms1, r, first, x, y) implies #[trigger] map.is_floor(
                    x,
                    y,
                ) by {
                    assert(on_tunnel_to(rooms0, r, first, x, y));
                    assert(map0.is_floor(x, y));
                }
                assert(tunnel_dug_by(map, rooms1, r, first));
            } else {
                assert forall|x: int, y: int|
                    on_tunnel_to(rooms1, r, row_first, x, y) implies #[trigger] map.is_floor(x, y) by {
                    assert(on_tunnel(prev, next, row_first, x, y));
                    assert(in_bounds(x, y));
                }
                assert(tunnel_dug_by(map, rooms1, r, row_first));
            }
        }
    }
}

proof fn lemma_objects_extended(
    player_before: ObjectView,
    objects0: Seq<ObjectView>,
    objects1: Seq<ObjectView>,
    objects2: Seq<ObjectView>,
    map1: TileMap,
    rooms0: Seq<Rect>,
    new_room: Rect,
    level: int,
)
    requires
        objects_dug_ok(player_before, objects0, rooms0, level),
        exists|spawns: Seq<Spawn>, monsters: int| #[trigger]
            attempts_ok(spawns, monsters, new_room, level) && objects1 == spawned_all(objects0, map1, spawns),
        objects2 == if rooms0.len() == 0 {
            objects1.update(0, player_at_center(player_before, new_room))
        } else {
            objects1
        },
    ensures
        objects_dug_ok(player_before, objects2, rooms0.push(new_room), level),
{
    let rooms1 = rooms0.push(new_room);
    let (spawns, monsters) = choose|spawns: Seq<Spawn>, monsters: int| #[trigger]
        attempts_ok(spawns, monsters, new_room, level) && objects1 == spawned_all(objects0, map1, spawns);
    lemma_spawned_all(objects0, map1, spawns, new_room, level);
    assert(objects1[0] == objects0[0]);
    assert(objects2.len() == objects1.len());
    if rooms0.len() > 0 {
        assert(rooms1[0] == rooms0[0]);
    } else {
        assert(rooms1[0] == new_room);
    }
    assert forall|i: int| 0 < i < objects2.len() implies is_spawn(#[trigger] objects2[i], level)
        && in_some_room(rooms1, objects2[i].x as int, objects2[i].y as int) by {
        assert(objects2[i] == objects1[i]);
        if i < objects0.len() {
            assert(objects1[i] == objects0[i]);
            let r = choose|r: int|
                0 <= r < rooms0.len() && (#[trigger] rooms0[r]).interior(
                    objects0[i].x as int,
                    objects0[i].y as int,
                );
            assert(rooms1[r] == rooms0[r]);
        } else {
            assert(rooms1[rooms1.len() - 1] == new_room);
        }
    }
    assert forall|i: int, j: int|
        0 < i < j < objects2.len() && (#[trigger] objects2[i]).blocks && (#[trigger] objects2[j]).blocks implies !(
    objects2[i].x == objects2[j].x && objects2[i].y == objects2[j].y) by {
        assert(objects2[i] == objects1[i] && objects2[j] == objects1[j]);
    }
    assert(objects2.len() <= 1 + rooms1.len() * room_cap(level)) by {
        assert(spawns.len() <= room_cap(level));
        assert((rooms0.len() + 1) * room_cap(level) == rooms0.len() * room_cap(level) + room_cap(level))
            by (nonlinear_arith);
    }
}

fn add_room(
    new_room: Rect,
    rooms: &mut Vec<Rect>,
    map: &mut TileMap,
    objects: &mut Vec<Object>,
    level: i32,
    Ghost(player_before): Ghost<ObjectView>,
)
    requires
        digging_ok(player_before, views(old(objects)@), *old(map), old(rooms)@, level as int),
        room_placed(new_room),
        forall|r: int| 0 <= r < old(rooms)@.len() ==> !new_room.overlaps(#[trigger] old(rooms)@[r]),
    ensures
        digging_ok(player_before, views(final(objects)@), *final(map), final(rooms)@, level as int),
        final(rooms)@ == old(rooms)@.push(new_room),
{
    let ghost map0 = *map;
    let ghost objects0 = views(objects@);
    let ghost rooms0 = rooms@;
    proof {
        lemma_center_inside(new_room);
    }
    create_room(new_room, map);
    let ghost map1 = *map;
    place_objects(new_room, map, objects, level);
    let ghost objects1 = views(objects@);
    proof {
        let (spawns, monsters) = choose|spawns: Seq<Spawn>, monsters: int| #[trigger]
            attempts_ok(spawns, monsters, new_room, level as int) && objects1 == spawned_all(
                objects0,
                map1,
                spawns,
            );
        lemma_spawned_all(objects0, map1, spawns, new_room, level as int);
        assert(objects1[0] == objects0[0]);
    }
    let (new_x, new_y) = new_room.center();
    let mut row_first = false;
    if rooms.is_empty() {
        assert(views(objects@).len() == objects@.len());
        objects[PLAYER].set_pos(new_x, new_y);
        assert(views(objects@) =~= objects1.update(0, player_at_center(player_before, new_room)));
    } else {
        proof {
            assert(rooms0.last() == rooms0[rooms0.len() - 1]);
            lemma_center_inside(rooms0.last());
        }
        let (prev_x, prev_y) = rooms[rooms.len() - 1].center();
        row_first = coin_flip();
        connect_rooms((prev_x, prev_y), (new_x, new_y), row_first, map);
    }
    proof {
        assert forall|x: int, y: int| in_bounds(x, y) implies #[trigger] map.tile(x, y) == if dug_for(
            rooms0,
            new_room,
            row_first,
        )(x, y) {
            map0.tile(x, y).opened()
        } else {
            map0.tile(x, y)
        } by {
            assert(map1.tile(x, y) == if new_room.interior(x, y) {
                map0.tile(x, y).opened()
            } else {
                map0.tile(x, y)
            });
        }
        lemma_map_extended(map0, *map, rooms0, new_room, row_first);
        lemma_objects_extended(
            player_before,
            objects0,
            objects1,
            views(objects@),
            map1,
            rooms0,
            new_room,
            level as int,
        );
    }
    rooms.push(new_room);
}

/// Draws a room at random: each side of a size allowed, the corner such
/// that the room lies on the grid.
pub fn random_room() -> (room: Rect)
    ensures
        room_placed(room),
{
    let w = range(ROOM_MIN_SIZE, ROOM_MAX_SIZE);
    let h = range(ROOM_MIN_SIZE, ROOM_MAX_SIZE);
    let x = range(0, MAP_WIDTH - w - 1);
    let y = range(0, MAP_HEIGHT - h - 1);
    Rect::new(x, y, w, h)
}

/// Generates a level around the player, who comes first in `objects`;
/// whatever else `objects` held is dropped. Returns the map together
/// with the rooms that were accepted, in the order in which they were
/// dug.
///
/// Rooms are drawn at random, a fixed number of times. A room that
/// overlaps or touches one accepted before is passed over. The others are
/// dug out, stocked, and joined to the room accepted just before by a
/// tunnel with one turn, whose first stretch is chosen by the toss of a
/// coin. The player is put at the centre of the first room, after that
/// room was stocked, so that something may share the tile. The stairs
/// down are put at the centre of the last room.
pub fn make_level(objects: &mut Vec<Object>, level: i32) -> (made: (TileMap, Vec<Rect>))
    requires
        old(objects)@.len() >= 1,
    ensures
        level_ok(views(old(objects)@)[0], views(final(objects)@), made.0, made.1@, level as int),
{
    let ghost player_before = views(objects@)[0];
    let mut map = TileMap::new();
    objects.truncate(1);
    let mut rooms: Vec<Rect> = Vec::new();
    assert(views(objects@)[0] == player_before);
    assert(views(objects@).len() == 1);
    let ghost mut drawn: Seq<Rect> = Seq::empty();
    let mut attempt: i32 = 0;
    while attempt < MAX_ROOMS
        invariant
            0 <= attempt <= MAX_ROOMS,
            rooms@.len() <= attempt,
            attempt > 0 ==> rooms@.len() > 0,
            drawn.len() == attempt,
            rooms_drawn(drawn, rooms@),
            digging_ok(player_before, views(objects@), map, rooms@, level as int),
        decreases MAX_ROOMS - attempt,
    {
        let new_room = random_room();
        let failed = overlaps_any(&new_room, &rooms);
        proof {
            assert(drawn.push(new_room).drop_last() =~= drawn);
            assert(drawn.push(new_room).last() == new_room);
        }
        if !failed {
            add_room(new_room, &mut rooms, &mut map, objects, level, Ghost(player_before));
        }
        proof {
            drawn = drawn.push(new_room);
        }
        attempt = attempt + 1;
    }
    let ghost last_room = rooms@.last();
    let ghost dug = views(objects@);
    proof {
        assert(last_room == rooms@[rooms@.len() - 1]);
        lemma_center_inside(last_room);
        lemma_center_inside(rooms@[0]);
    }
    let (last_room_x, last_room_y) = rooms[rooms.len() - 1].center();
    let mut stairs = Object::new(last_room_x, last_room_y, '<', "stairs", Color::White, false);
    stairs.always_visible = true;
    objects.push(stairs);
    proof {
        let all = views(objects@);
        assert(all.drop_last() =~= dug);
        let spawn_point = center_of(rooms@[0]);
        let hub = center_of(last_room);
        assert(map.is_floor(spawn_point.0, spawn_point.1));
        lemma_connected_sym(map, spawn_point, hub);
        assert forall|x: int, y: int| #[trigger] map.is_floor(x, y) implies connected(
            map,
            (x, y),
            spawn_point,
        ) by {
            lemma_connected_trans(map, (x, y), hub, spawn_point);
        }
        assert(all[0] == dug[0]);
    }
    (map, rooms)
}

/// Generates a level around the player, who comes first in `objects`;
/// whatever else `objects` held is dropped. See [`make_level`].
pub fn make_map(objects: &mut Vec<Object>, level: i32) -> (map: TileMap)
    requires
        old(objects)@.len() >= 1,
    ensures
        generated(views(old(objects)@)[0], views(final(objects)@), map, level as int),
{
    let (map, rooms) = make_level(objects, level);
    map
}

/// In a finished level the inside of every room can be walked on, the
/// player stands on a walkable tile, and that tile is reached from every
/// walkable tile of the map.
pub proof fn lemma_level_connected(
    player_before: ObjectView,
    objects: Seq<ObjectView>,
    map: TileMap,
    rooms: Seq<Rect>,
    level: int,
)
    requires
        level_ok(player_before, objects, map, rooms, level),
    ensures
        forall|r: int, x: int, y: int|
            0 <= r < rooms.len() && (#[trigger] rooms[r]).interior(x, y) ==> #[trigger] map.is_floor(x, y),
        map.is_floor(objects[0].x as int, objects[0].y as int),
        forall|x: int, y: int| #[trigger]
            map.is_floor(x, y) ==> connected(map, (x, y), (objects[0].x as int, objects[0].y as int)),
{
    lemma_center_inside(rooms[0]);
    assert(objects[0] == objects.drop_last()[0]);
    assert(map.is_floor(center_of(rooms[0]).0, center_of(rooms[0]).1));
}

} // verus!
