use vstd::prelude::*;

use crate::map::{MapView, Point};

verus! {

/// `a` and `b` are side by side: one tile apart east-west or north-south.
pub open spec fn adjacent(a: Point, b: Point) -> bool {
    ||| (a.y == b.y && (a.x + 1 == b.x || b.x + 1 == a.x))
    ||| (a.x == b.x && (a.y + 1 == b.y || b.y + 1 == a.y))
}

/// Step `i` of `w` goes to a walkable neighbour of the tile before it.
pub open spec fn step_ok(map: MapView, w: Seq<Point>, i: int) -> bool {
    map.neighbors(w[i]).contains(w[i + 1])
}

/// Every step of `w` moves to a walkable neighbour.
pub open spec fn is_walk(map: MapView, w: Seq<Point>) -> bool {
    forall|i: int| 0 <= i < w.len() - 1 ==> #[trigger] step_ok(map, w, i)
}

/// A walk from `from` to `to`.
pub open spec fn walk_between(map: MapView, w: Seq<Point>, from: Point, to: Point) -> bool {
    &&& w.len() >= 1
    &&& w[0] == from
    &&& w.last() == to
    &&& is_walk(map, w)
}

/// Ticks needed to follow `w`: the terrain cost of every tile entered after the first.
pub open spec fn walk_cost(map: MapView, w: Seq<Point>) -> int
    decreases w.len(),
{
    if w.len() <= 1 {
        0
    } else {
        walk_cost(map, w.drop_last()) + map.cost(w.last()).unwrap() as int
    }
}

proof fn lemma_keep_walkable(map: MapView, c: Point, q: Point)
    ensures
        map.keep_walkable(c).contains(q) <==> (q == c && map.walkable(c)),
{
    if map.walkable(c) {
        assert(map.keep_walkable(c)[0] == c);
    }
}

/// The walkable neighbours of a tile are exactly the walkable tiles side by side with it.
pub proof fn lemma_neighbors_are_adjacent(map: MapView, a: Point, b: Point)
    ensures
        map.neighbors(a).contains(b) <==> (adjacent(a, b) && map.walkable(b)),
{
    let w = if a.x > 0 { map.keep_walkable(Point { x: (a.x - 1) as usize, y: a.y }) } else { Seq::empty() };
    let e = if a.x < usize::MAX { map.keep_walkable(Point { x: (a.x + 1) as usize, y: a.y }) } else { Seq::empty() };
    let n = if a.y > 0 { map.keep_walkable(Point { x: a.x, y: (a.y - 1) as usize }) } else { Seq::empty() };
    let s = if a.y < usize::MAX { map.keep_walkable(Point { x: a.x, y: (a.y + 1) as usize }) } else { Seq::empty() };
    assert(map.neighbors(a) == w + e + n + s);
    assert forall|q: Point| (w + e + n + s).contains(q) <==> (w.contains(q) || e.contains(q) || n.contains(q) || s.contains(q)) by {
        if (w + e + n + s).contains(q) {
            let i = choose|i: int| 0 <= i < (w + e + n + s).len() && (w + e + n + s)[i] == q;
            if i < w.len() {
                assert(w[i] == q);
            } else if i < w.len() + e.len() {
                assert(e[i - w.len()] == q);
            } else if i < w.len() + e.len() + n.len() {
                assert(n[i - w.len() - e.len()] == q);
            } else {
                assert(s[i - w.len() - e.len() - n.len()] == q);
            }
        }
        if w.contains(q) {
            let i = choose|i: int| 0 <= i < w.len() && w[i] == q;
            assert((w + e + n + s)[i] == q);
        }
        if e.contains(q) {
            let i = choose|i: int| 0 <= i < e.len() && e[i] == q;
            assert((w + e + n + s)[w.len() + i] == q);
        }
        if n.contains(q) {
            let i = choose|i: int| 0 <= i < n.len() && n[i] == q;
            assert((w + e + n + s)[w.len() + e.len() + i] == q);
        }
        if s.contains(q) {
            let i = choose|i: int| 0 <= i < s.len() && s[i] == q;
            assert((w + e + n + s)[w.len() + e.len() + n.len() + i] == q);
        }
    }
    if a.x > 0 {
        lemma_keep_walkable(map, Point { x: (a.x - 1) as usize, y: a.y }, b);
    }
    if a.x < usize::MAX {
        lemma_keep_walkable(map, Point { x: (a.x + 1) as usize, y: a.y }, b);
    }
    if a.y > 0 {
        lemma_keep_walkable(map, Point { x: a.x, y: (a.y - 1) as usize }, b);
    }
    if a.y < usize::MAX {
        lemma_keep_walkable(map, Point { x: a.x, y: (a.y + 1) as usize }, b);
    }
    if adjacent(a, b) && map.walkable(b) {
        if a.y == b.y && b.x + 1 == a.x {
            assert(w[0] == b);
        } else if a.y == b.y && a.x + 1 == b.x {
            assert(e[0] == b);
        } else if a.x == b.x && b.y + 1 == a.y {
            assert(n[0] == b);
        } else {
            assert(s[0] == b);
        }
    }
}


/// Every step costs at least one tick, so a walk costs at least its number of steps.
pub proof fn lemma_walk_cost_at_least_steps(map: MapView, w: Seq<Point>)
    requires
        is_walk(map, w),
    ensures
        walk_cost(map, w) >= w.len() - 1,
    decreases w.len(),
{
    if w.len() > 1 {
        let v = w.drop_last();
        assert forall|i: int| 0 <= i < v.len() - 1 implies #[trigger] step_ok(map, v, i) by {
            assert(step_ok(map, w, i));
        }
        lemma_walk_cost_at_least_steps(map, v);
        assert(step_ok(map, w, w.len() - 2));
        lemma_neighbors_are_adjacent(map, w[w.len() - 2], w.last());
    }
}

/// A walk from a tile back to itself that costs nothing is that tile alone.
pub proof fn lemma_free_walk_is_trivial(map: MapView, w: Seq<Point>, from: Point)
    requires
        walk_between(map, w, from, from),
        walk_cost(map, w) <= 0,
    ensures
        w.len() == 1,
{
    lemma_walk_cost_at_least_steps(map, w);
}


/// A walk is a chain of side-by-side tiles whose tiles after the first are walkable.
pub proof fn lemma_walk_is_chain(map: MapView, w: Seq<Point>)
    requires
        is_walk(map, w),
    ensures
        forall|i: int| 0 <= i < w.len() - 1 ==> #[trigger] adjacent(w[i], w[i + 1]),
        forall|i: int| 0 < i < w.len() ==> map.walkable(#[trigger] w[i]),
{
    assert forall|i: int| 0 <= i < w.len() - 1 implies #[trigger] adjacent(w[i], w[i + 1]) by {
        assert(step_ok(map, w, i));
        lemma_neighbors_are_adjacent(map, w[i], w[i + 1]);
    }
    assert forall|i: int| 0 < i < w.len() implies map.walkable(#[trigger] w[i]) by {
        assert(step_ok(map, w, i - 1));
        lemma_neighbors_are_adjacent(map, w[i - 1], w[i]);
    }
}

} // verus!
