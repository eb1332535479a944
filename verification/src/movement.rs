//! Moving entities over the map.

use vstd::prelude::*;
use crate::object::{views, Object, ObjectView};
use crate::tile::TileMap;

verus! {

/// Whether a blocking entity stands at `(x, y)`.
pub open spec fn occupied(objects: Seq<ObjectView>, x: int, y: int) -> bool {
    exists|i: int| 0 <= i < objects.len() && (#[trigger] objects[i]).blocks && objects[i].is_at(x, y)
}

/// Whether `(x, y)` cannot be entered: the tile is blocked, or a blocking entity stands there.
pub open spec fn blocked(map: &TileMap, objects: Seq<ObjectView>, x: int, y: int) -> bool {
    map.blocked_at(x, y) || occupied(objects, x, y)
}

/// The entity moved to `(x, y)`.
pub open spec fn moved_to(v: ObjectView, x: int, y: int) -> ObjectView {
    ObjectView { x: x as i32, y: y as i32, ..v }
}

/// The entities after entity `id` tried to move by `(dx, dy)`: it moves if the destination
/// can be entered, and nothing changes otherwise.
pub open spec fn after_move_by(
    map: &TileMap,
    objects: Seq<ObjectView>,
    id: int,
    dx: int,
    dy: int,
) -> Seq<ObjectView> {
    let x = objects[id].x + dx;
    let y = objects[id].y + dy;
    if blocked(map, objects, x, y) {
        objects
    } else {
        objects.update(id, moved_to(objects[id], x, y))
    }
}

/// The sign of `v`: -1, 0 or 1.
pub open spec fn sign(v: int) -> int {
    if v > 0 {
        1
    } else if v < 0 {
        -1
    } else {
        0
    }
}

/// One axis of the step toward a target that lies `d` away on this axis and `other` away
/// on the other one: `d` divided by the length of the displacement, rounded to the nearest
/// integer. The quotient reaches one half exactly when `4 * d * d >= d * d + other * other`.
pub open spec fn unit_step(d: int, other: int) -> int {
    if 4 * d * d >= d * d + other * other {
        sign(d)
    } else {
        0
    }
}

/// The entities after entity `id` took one step toward `(target_x, target_y)`.
pub open spec fn after_move_towards(
    map: &TileMap,
    objects: Seq<ObjectView>,
    id: int,
    target_x: int,
    target_y: int,
) -> Seq<ObjectView> {
    let dx = target_x - objects[id].x;
    let dy = target_y - objects[id].y;
    after_move_by(map, objects, id, unit_step(dx, dy), unit_step(dy, dx))
}

/// Tells whether `(x, y)` is closed to movement, by terrain or by a blocking entity.
pub fn is_blocked(x: i32, y: i32, map: &TileMap, objects: &Vec<Object>) -> (b: bool)
    requires
        map.wf(),
        map.in_bounds(x as int, y as int),
    ensures
        b == blocked(map, views(objects@), x as int, y as int),
{
    if map.get(x as usize, y as usize).blocked {
        return true;
    }
    let mut i: usize = 0;
    while i < objects.len()
        invariant
            i <= objects@.len(),
            forall|k: int|
                0 <= k < i ==> !((#[trigger] views(objects@)[k]).blocks && views(
                    objects@,
                )[k].is_at(x as int, y as int)),
        decreases objects@.len() - i,
    {
        if objects[i].blocks && objects[i].x == x && objects[i].y == y {
            assert(views(objects@)[i as int].blocks);
            return true;
        }
        i += 1;
    }
    false
}

/// Moves entity `id` by `(dx, dy)` unless the destination is blocked, and tells whether it
/// moved.
pub fn move_by(id: usize, dx: i32, dy: i32, map: &TileMap, objects: &mut Vec<Object>) -> (moved:
    bool)
    requires
        id < old(objects)@.len(),
        map.wf(),
        map.in_bounds(old(objects)@[id as int].x + dx, old(objects)@[id as int].y + dy),
    ensures
        moved == !blocked(
            map,
            views(old(objects)@),
            old(objects)@[id as int].x + dx,
            old(objects)@[id as int].y + dy,
        ),
        views(final(objects)@) == after_move_by(
            map,
            views(old(objects)@),
            id as int,
            dx as int,
            dy as int,
        ),
{
    let (x, y) = objects[id].pos();
    if !is_blocked(x + dx, y + dy, map, objects) {
        objects[id].set_pos(x + dx, y + dy);
        assert(views(objects@) =~= views(old(objects)@).update(
            id as int,
            moved_to(views(old(objects)@)[id as int], (x + dx) as int, (y + dy) as int),
        ));
        true
    } else {
        false
    }
}

/// Computes one axis of the unit step; see [`unit_step`].
pub fn step_toward(d: i64, other: i64) -> (s: i32)
    requires
        -0x1_0000_0000 <= d <= 0x1_0000_0000,
        -0x1_0000_0000 <= other <= 0x1_0000_0000,
    ensures
        s == unit_step(d as int, other as int),
        -1 <= s <= 1,
{
    let a: i128 = d as i128;
    let b: i128 = other as i128;
    assert(0 <= a * a <= 0x1_0000_0000 * 0x1_0000_0000) by (nonlinear_arith)
        requires
            -0x1_0000_0000 <= a <= 0x1_0000_0000,
    ;
    assert(0 <= b * b <= 0x1_0000_0000 * 0x1_0000_0000) by (nonlinear_arith)
        requires
            -0x1_0000_0000 <= b <= 0x1_0000_0000,
    ;
    let aa: i128 = a * a;
    let bb: i128 = b * b;
    assert(4 * a * a == 4 * (a * a)) by (nonlinear_arith);
    if 4 * aa >= aa + bb {
        if d > 0 {
            1
        } else if d < 0 {
            -1
        } else {
            0
        }
    } else {
        0
    }
}

/// Moves entity `id` one step toward `(target_x, target_y)`: the displacement is scaled to
/// unit length and each axis rounded to the nearest integer, which gives one of the eight
/// grid directions. The entity stays where it is if that destination is blocked.
pub fn move_towards(
    id: usize,
    target_x: i32,
    target_y: i32,
    map: &TileMap,
    objects: &mut Vec<Object>,
)
    requires
        id < old(objects)@.len(),
        map.wf(),
        map.in_bounds(
            old(objects)@[id as int].x + unit_step(
                target_x - old(objects)@[id as int].x,
                target_y - old(objects)@[id as int].y,
            ),
            old(objects)@[id as int].y + unit_step(
                target_y - old(objects)@[id as int].y,
                target_x - old(objects)@[id as int].x,
            ),
        ),
    ensures
        views(final(objects)@) == after_move_towards(
            map,
            views(old(objects)@),
            id as int,
            target_x as int,
            target_y as int,
        ),
{
    let dx: i64 = target_x as i64 - objects[id].x as i64;
    let dy: i64 = target_y as i64 - objects[id].y as i64;
    let step_x: i32 = step_toward(dx, dy);
    let step_y: i32 = step_toward(dy, dx);
    move_by(id, step_x, step_y, map, objects);
}

} // verus!
