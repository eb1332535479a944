//! Reachability over the open tiles of a map.

use vstd::prelude::*;
use crate::carve::{between, carved};
use crate::tile::TileMap;

verus! {

/// Whether `a` and `b` are neighbours along one axis.
pub open spec fn adjacent(a: (int, int), b: (int, int)) -> bool {
    (a.0 == b.0 && (a.1 - b.1 == 1 || b.1 - a.1 == 1)) || (a.1 == b.1 && (a.0 - b.0 == 1 || b.0
        - a.0 == 1))
}

/// Whether `p` is a tile of the map that does not block movement.
pub open spec fn open_at(map: &TileMap, p: (int, int)) -> bool {
    map.in_bounds(p.0, p.1) && !map.blocked_at(p.0, p.1)
}

/// Whether `path` is a walk over open tiles in which each tile neighbours the next.
pub open spec fn is_path(map: &TileMap, path: Seq<(int, int)>) -> bool {
    &&& path.len() > 0
    &&& forall|i: int| 0 <= i < path.len() ==> open_at(map, #[trigger] path[i])
    &&& forall|i: int| 0 <= i < path.len() - 1 ==> adjacent(#[trigger] path[i], path[i + 1])
}

/// Whether `b` can be reached from `a` over open tiles.
pub open spec fn connected(map: &TileMap, a: (int, int), b: (int, int)) -> bool {
    exists|path: Seq<(int, int)>| #[trigger]
        is_path(map, path) && path.first() == a && path.last() == b
}

/// Whether every tile that is open in `before` is open in `after`.
pub open spec fn opens_more(before: &TileMap, after: &TileMap) -> bool {
    forall|p: (int, int)| open_at(before, p) ==> #[trigger] open_at(after, p)
}

/// An open tile can be reached from itself.
pub proof fn connected_refl(map: &TileMap, a: (int, int))
    requires
        open_at(map, a),
    ensures
        connected(map, a, a),
{
    let path = seq![a];
    assert(is_path(map, path) && path.first() == a && path.last() == a);
}

/// What can be reached from a tile that can be reached, can be reached.
pub proof fn connected_trans(map: &TileMap, a: (int, int), b: (int, int), c: (int, int))
    requires
        connected(map, a, b),
        connected(map, b, c),
    ensures
        connected(map, a, c),
{
    let p = choose|path: Seq<(int, int)>| #[trigger]
        is_path(map, path) && path.first() == a && path.last() == b;
    let q = choose|path: Seq<(int, int)>| #[trigger]
        is_path(map, path) && path.first() == b && path.last() == c;
    let tail = q.subrange(1, q.len() as int);
    let path = p + tail;
    assert forall|i: int| 0 <= i < path.len() implies open_at(map, #[trigger] path[i]) by {
        if i >= p.len() {
            assert(path[i] == q[i - p.len() + 1]);
        }
    }
    assert forall|i: int| 0 <= i < path.len() - 1 implies adjacent(
        #[trigger] path[i],
        path[i + 1],
    ) by {
        if i < p.len() - 1 {
        } else if i == p.len() - 1 {
            assert(path[i] == q[0]);
            assert(path[i + 1] == q[1]);
        } else {
            assert(path[i] == q[i - p.len() + 1]);
            assert(path[i + 1] == q[i - p.len() + 2]);
        }
    }
    assert(path.first() == a);
    assert(path.last() == c) by {
        if tail.len() > 0 {
            assert(path.last() == q[q.len() - 1]);
        }
    }
    assert(is_path(map, path));
}

/// Opening more tiles breaks no connection.
pub proof fn connected_mono(before: &TileMap, after: &TileMap, a: (int, int), b: (int, int))
    requires
        connected(before, a, b),
        opens_more(before, after),
    ensures
        connected(after, a, b),
{
    let p = choose|path: Seq<(int, int)>| #[trigger]
        is_path(before, path) && path.first() == a && path.last() == b;
    assert forall|i: int| 0 <= i < p.len() implies open_at(after, #[trigger] p[i]) by {
        assert(open_at(before, p[i]));
    }
    assert(is_path(after, p));
}

/// Carving only opens tiles.
pub proof fn carving_opens_more(
    before: &TileMap,
    after: &TileMap,
    region: spec_fn(int, int) -> bool,
)
    requires
        carved(before, after, region),
    ensures
        opens_more(before, after),
{
    assert forall|p: (int, int)| open_at(before, p) implies #[trigger] open_at(after, p) by {
        assert(after.at(p.0, p.1).blocked == false);
    }
}

/// The two ends of an open stretch of a row are connected.
pub proof fn row_connected(map: &TileMap, x1: int, x2: int, y: int)
    requires
        forall|x: int| #[trigger] between(x1, x2, x) ==> open_at(map, (x, y)),
    ensures
        connected(map, (x1, y), (x2, y)),
    decreases
            if x1 <= x2 {
                x2 - x1
            } else {
                x1 - x2
            },
{
    assert(between(x1, x2, x1));
    assert(open_at(map, (x1, y)));
    if x1 == x2 {
        connected_refl(map, (x1, y));
    } else {
        let next = if x1 < x2 {
            x1 + 1
        } else {
            x1 - 1
        };
        assert(between(x1, x2, next));
        assert(open_at(map, (next, y)));
        let step = seq![(x1, y), (next, y)];
        assert(is_path(map, step) && step.first() == (x1, y) && step.last() == (next, y));
        assert forall|x: int| #[trigger] between(next, x2, x) implies open_at(map, (x, y)) by {
            assert(between(x1, x2, x));
        }
        row_connected(map, next, x2, y);
        connected_trans(map, (x1, y), (next, y), (x2, y));
    }
}

/// The two ends of an open stretch of a column are connected.
pub proof fn column_connected(map: &TileMap, y1: int, y2: int, x: int)
    requires
        forall|y: int| #[trigger] between(y1, y2, y) ==> open_at(map, (x, y)),
    ensures
        connected(map, (x, y1), (x, y2)),
    decreases
            if y1 <= y2 {
                y2 - y1
            } else {
                y1 - y2
            },
{
    assert(between(y1, y2, y1));
    assert(open_at(map, (x, y1)));
    if y1 == y2 {
        connected_refl(map, (x, y1));
    } else {
        let next = if y1 < y2 {
            y1 + 1
        } else {
            y1 - 1
        };
        assert(between(y1, y2, next));
        assert(open_at(map, (x, next)));
        let step = seq![(x, y1), (x, next)];
        assert(is_path(map, step) && step.first() == (x, y1) && step.last() == (x, next));
        assert forall|y: int| #[trigger] between(next, y2, y) implies open_at(map, (x, y)) by {
            assert(between(y1, y2, y));
        }
        column_connected(map, next, y2, x);
        connected_trans(map, (x, y1), (x, next), (x, y2));
    }
}

} // verus!
