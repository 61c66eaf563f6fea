use vstd::prelude::*;

use crate::bots::types::{sat_diff, ExplorationBias};
use crate::bots::search::{
    random_below,
    adjacent_chain, astar_route, astar_search, bfs_route, bfs_search, bidirectional_route,
    bidirectional_search, cheapest_route, dfs_route, dfs_search, dijkstra_route, dijkstra_search,
    exploring_walk, opt_cost_view, opt_view, search_fits, no_walk_between,
};
use crate::bots::types::{MinerAlgorithm, ScoutAlgorithm};
use crate::bots::walks::{
    adjacent, is_walk, lemma_free_walk_is_trivial, step_ok, lemma_neighbors_are_adjacent, lemma_walk_is_chain,
    walk_between, walk_cost,
};
use crate::map::{grid_point, MapView, Point, WorldMap};

use std::collections::HashSet;

verus! {

broadcast use vstd::std_specs::hash::group_hash_axioms;

/// The number a tile is remembered by: its column in the upper 64 bits, its row
/// in the lower ones, so that distinct tiles have distinct numbers.
pub open spec fn tile_key(p: Point) -> u128 {
    (p.x as int * 0x1_0000_0000_0000_0000 + p.y as int) as u128
}

/// Distinct tiles have distinct keys.
pub proof fn lemma_tile_key_injective(p: Point, q: Point)
    ensures
        tile_key(p) == tile_key(q) <==> p == q,
{
    let kp = p.x as int * 0x1_0000_0000_0000_0000 + p.y as int;
    let kq = q.x as int * 0x1_0000_0000_0000_0000 + q.y as int;
    assert(0 <= kp < 0x1_0000_0000_0000_0000_0000_0000_0000_0000 && 0 <= kq < 0x1_0000_0000_0000_0000_0000_0000_0000_0000) by (nonlinear_arith)
        requires
            kp == p.x as int * 0x1_0000_0000_0000_0000 + p.y as int,
            kq == q.x as int * 0x1_0000_0000_0000_0000 + q.y as int,
            0 <= p.x < 0x1_0000_0000_0000_0000,
            0 <= p.y < 0x1_0000_0000_0000_0000,
            0 <= q.x < 0x1_0000_0000_0000_0000,
            0 <= q.y < 0x1_0000_0000_0000_0000,
    ;
    if kp == kq {
        vstd::arithmetic::div_mod::lemma_fundamental_div_mod_converse(kp, 0x1_0000_0000_0000_0000, p.x as int, p.y as int);
        vstd::arithmetic::div_mod::lemma_fundamental_div_mod_converse(kq, 0x1_0000_0000_0000_0000, q.x as int, q.y as int);
    }
}

fn key_of(p: Point) -> (k: u128)
    ensures
        k == tile_key(p),
{
    proof {
        lemma_tile_key_injective(p, p);
    }
    (p.x as u128) * 0x1_0000_0000_0000_0000 + p.y as u128
}

/// The tiles a scout has stood on, each held as its `tile_key`.
#[derive(Debug)]
pub struct ScoutMemory {
    visited: HashSet<u128>,
}

impl View for ScoutMemory {
    type V = Set<Point>;

    closed spec fn view(&self) -> Set<Point> {
        Set::new(|p: Point| self.visited@.contains(tile_key(p)))
    }
}

impl ScoutMemory {
    /// A memory that has seen only `start`.
    pub fn new(start: Point) -> (m: ScoutMemory)
        ensures
            m@ == set![start],
    {
        let mut visited: HashSet<u128> = HashSet::new();
        visited.insert(key_of(start));
        let m = ScoutMemory { visited };
        assert forall|p: Point| m@.contains(p) <==> p == start by {
            lemma_tile_key_injective(p, start);
        }
        assert(m@ =~= set![start]);
        m
    }

    pub fn has_visited(&self, point: Point) -> (b: bool)
        ensures
            b == self@.contains(point),
    {
        self.visited.contains(&key_of(point))
    }

    pub fn mark_visited(&mut self, point: Point)
        ensures
            final(self)@ == old(self)@.insert(point),
    {
        self.visited.insert(key_of(point));
        assert forall|p: Point| self@.contains(p) <==> (old(self)@.contains(p) || p == point) by {
            lemma_tile_key_injective(p, point);
        }
        assert(self@ =~= old(self)@.insert(point));
    }
}

/// `|a - b|`.
pub open spec fn abs_diff(a: int, b: int) -> int {
    if a >= b { a - b } else { b - a }
}

/// The Manhattan distance between two tiles, each axis narrowed to 32 bits.
pub open spec fn manhattan(a: Point, b: Point) -> int {
    (abs_diff(a.x as int, b.x as int) as u32) as int + (abs_diff(a.y as int, b.y as int) as u32) as int
}

fn usize_abs_diff(a: usize, b: usize) -> (d: usize)
    ensures
        d == abs_diff(a as int, b as int),
{
    if a >= b { a - b } else { b - a }
}

pub fn manhattan_distance(a: Point, b: Point) -> (d: u32)
    requires
        manhattan(a, b) <= u32::MAX,
    ensures
        d == manhattan(a, b),
{
    usize_abs_diff(a.x, b.x) as u32 + usize_abs_diff(a.y, b.y) as u32
}

/// On coordinates below 2^31 the distance is the plain Manhattan distance.
pub proof fn lemma_manhattan_small(a: Point, b: Point)
    requires
        a.x < 0x8000_0000,
        a.y < 0x8000_0000,
        b.x < 0x8000_0000,
        b.y < 0x8000_0000,
    ensures
        manhattan(a, b) == abs_diff(a.x as int, b.x as int) + abs_diff(a.y as int, b.y as int),
        manhattan(a, b) <= u32::MAX,
{
}

/// A path without its first tile.
pub fn path_without_start(path: Vec<Point>) -> (rest: Vec<Point>)
    ensures
        rest@ == (if path@.len() == 0 { Seq::<Point>::empty() } else { path@.drop_first() }),
{
    let mut rest: Vec<Point> = Vec::new();
    let n = path.len();
    if n == 0 {
        return rest;
    }
    let mut i: usize = 1;
    while i < n
        invariant
            n == path@.len(),
            1 <= i <= n,
            rest@ == path@.subrange(1, i as int),
        decreases n - i,
    {
        rest.push(path[i]);
        i += 1;
        assert(rest@ =~= path@.subrange(1, i as int));
    }
    assert(rest@ =~= path@.drop_first());
    rest
}

/// The walkable neighbours of `point`, each with the ticks needed to enter it.
pub fn weighted_neighbors(map: &WorldMap, point: Point) -> (ws: Vec<(Point, u32)>)
    requires
        map.wf(),
    ensures
        ws@.len() == map@.neighbors(point).len(),
        forall|i: int| 0 <= i < ws@.len() ==> #[trigger] ws@[i] == (map@.neighbors(point)[i], map@.cost(map@.neighbors(point)[i]).unwrap()),
{
    let neighbors = map.neighbors(point);
    let mut ws: Vec<(Point, u32)> = Vec::new();
    let n = neighbors.len();
    let mut i: usize = 0;
    while i < n
        invariant
            map.wf(),
            neighbors@ == map@.neighbors(point),
            n == neighbors@.len(),
            i <= n,
            ws@.len() == i,
            forall|j: int| 0 <= j < i ==> #[trigger] ws@[j] == (neighbors@[j], map@.cost(neighbors@[j]).unwrap()),
        decreases n - i,
    {
        let q = neighbors[i];
        proof {
            assert(neighbors@.contains(q));
            lemma_neighbors_are_adjacent(map@, point, q);
        }
        match map.terrain_cost(q) {
            Some(c) => ws.push((q, c)),
            None => {},
        }
        i += 1;
    }
    ws
}

/// How many walkable neighbours of `point` the scout has not stood on.
pub open spec fn spec_unvisited_neighbor_count(map: MapView, memory: Set<Point>, point: Point) -> nat {
    map.neighbors(point).filter(|q: Point| !memory.contains(q)).len()
}

pub fn unvisited_neighbor_count(map: &WorldMap, memory: &ScoutMemory, point: Point) -> (c: u32)
    requires
        map.wf(),
    ensures
        c == spec_unvisited_neighbor_count(map@, memory@, point),
        c <= 4,
{
    let neighbors = map.neighbors(point);
    let ghost keep = |q: Point| !memory@.contains(q);
    let n = neighbors.len();
    let mut count: u32 = 0;
    let mut i: usize = 0;
    assert(n <= 4);
    while i < n
        invariant
            neighbors@ == map@.neighbors(point),
            n == neighbors@.len(),
            n <= 4,
            i <= n,
            keep == (|q: Point| !memory@.contains(q)),
            count == neighbors@.take(i as int).filter(keep).len(),
            count <= i,
        decreases n - i,
    {
        reveal_with_fuel(Seq::<_>::filter, 1);
        assert(neighbors@.take(i + 1).drop_last() =~= neighbors@.take(i as int));
        if !memory.has_visited(neighbors[i]) {
            count += 1;
        }
        i += 1;
    }
    assert(neighbors@.take(n as int) =~= neighbors@);
    count
}

/// A walkable tile the scout has not stood on, next to one it has.
pub open spec fn spec_unvisited_frontier(map: MapView, memory: Set<Point>, point: Point) -> bool {
    &&& map.walkable(point)
    &&& !memory.contains(point)
    &&& exists|i: int| 0 <= i < map.neighbors(point).len() && memory.contains(#[trigger] map.neighbors(point)[i])
}

pub fn is_unvisited_frontier(map: &WorldMap, memory: &ScoutMemory, point: Point) -> (b: bool)
    requires
        map.wf(),
    ensures
        b == spec_unvisited_frontier(map@, memory@, point),
{
    if !map.is_walkable(point) || memory.has_visited(point) {
        return false;
    }
    let neighbors = map.neighbors(point);
    let n = neighbors.len();
    let mut i: usize = 0;
    while i < n
        invariant
            neighbors@ == map@.neighbors(point),
            n == neighbors@.len(),
            i <= n,
            map@.walkable(point),
            !memory@.contains(point),
            forall|j: int| 0 <= j < i ==> !memory@.contains(#[trigger] neighbors@[j]),
        decreases n - i,
    {
        if memory.has_visited(neighbors[i]) {
            assert(memory@.contains(map@.neighbors(point)[i as int]));
            return true;
        }
        i += 1;
    }
    false
}


/// Lexicographic order on the sort keys of neighbours.
pub open spec fn key_lt(a: (u32, u32, u32), b: (u32, u32, u32)) -> bool {
    ||| a.0 < b.0
    ||| (a.0 == b.0 && a.1 < b.1)
    ||| (a.0 == b.0 && a.1 == b.1 && a.2 < b.2)
}

/// The order in which a scout tries the neighbours of `point`: least bias penalty
/// first, then cheapest terrain, then nearest.
pub open spec fn neighbor_key(map: MapView, point: Point, q: Point, base: Point, bias: ExplorationBias) -> (u32, u32, u32) {
    (
        bias.spec_penalty(q, base),
        match map.cost(q) { Some(c) => c, None => u32::MAX },
        manhattan(point, q) as u32,
    )
}

pub open spec fn neighbor_key_fn(map: MapView, point: Point, base: Point, bias: ExplorationBias) -> spec_fn(Point) -> (u32, u32, u32) {
    |q: Point| neighbor_key(map, point, q, base, bias)
}

/// `out` is `input` sorted by `key`, equal keys keeping their order in `input`:
/// `idx` tells, for each entry of `out`, where it stood in `input`.
pub open spec fn stably_sorted(input: Seq<Point>, out: Seq<Point>, idx: Seq<int>, key: spec_fn(Point) -> (u32, u32, u32)) -> bool {
    &&& out.len() == input.len()
    &&& idx.len() == out.len()
    &&& forall|i: int| 0 <= i < out.len() ==> 0 <= #[trigger] idx[i] < input.len() && out[i] == input[idx[i]]
    &&& forall|i: int, j: int| 0 <= i < j < out.len() ==> {
        ||| key_lt(key(#[trigger] out[i]), key(#[trigger] out[j]))
        ||| (key(out[i]) == key(out[j]) && idx[i] < idx[j])
    }
}

fn key_less(a: (u32, u32, u32), b: (u32, u32, u32)) -> (r: bool)
    ensures
        r == key_lt(a, b),
{
    a.0 < b.0 || (a.0 == b.0 && a.1 < b.1) || (a.0 == b.0 && a.1 == b.1 && a.2 < b.2)
}

fn neighbor_sort_key(map: &WorldMap, point: Point, q: Point, base: Point, bias: ExplorationBias) -> (k: (u32, u32, u32))
    requires
        map.wf(),
        adjacent(point, q),
    ensures
        k == neighbor_key(map@, point, q, base, bias),
{
    let c = match map.terrain_cost(q) {
        Some(c) => c,
        None => u32::MAX,
    };
    (bias.penalty(q, base), c, manhattan_distance(point, q))
}

/// The first `j` entries of `input`, sorted by `key` with ties in input order.
pub open spec fn sorted_prefix(input: Seq<Point>, out: Seq<Point>, idx: Seq<int>, key: spec_fn(Point) -> (u32, u32, u32), j: int) -> bool {
    &&& out.len() == j
    &&& idx.len() == j
    &&& forall|i: int| 0 <= i < j ==> 0 <= #[trigger] idx[i] < j && out[i] == input[idx[i]]
    &&& forall|i: int, k: int| 0 <= i < k < j ==> idx[i] != idx[k]
    &&& forall|i: int, k: int| 0 <= i < k < j ==> {
        ||| key_lt(key(#[trigger] out[i]), key(#[trigger] out[k]))
        ||| (key(out[i]) == key(out[k]) && idx[i] < idx[k])
    }
}

/// Inserting entry `j` of `input` before the first entry with a larger key keeps
/// the prefix stably sorted.
proof fn lemma_insert_sorted(input: Seq<Point>, out: Seq<Point>, idx: Seq<int>, key: spec_fn(Point) -> (u32, u32, u32), j: int, pos: int)
    requires
        0 <= j < input.len(),
        sorted_prefix(input, out, idx, key, j),
        0 <= pos <= j,
        forall|i: int| 0 <= i < pos ==> !key_lt(key(input[j]), #[trigger] key(out[i])),
        pos < j ==> key_lt(key(input[j]), key(out[pos])),
    ensures
        sorted_prefix(input, out.insert(pos, input[j]), idx.insert(pos, j), key, j + 1),
{
    let q = input[j];
    let no = out.insert(pos, q);
    let ni = idx.insert(pos, j);
    assert forall|i: int| 0 <= i < j + 1 implies 0 <= #[trigger] ni[i] < j + 1 && no[i] == input[ni[i]] by {
        if i > pos {
            assert(ni[i] == idx[i - 1] && no[i] == out[i - 1]);
        }
    }
    assert forall|i: int, k: int| 0 <= i < k < j + 1 implies ni[i] != ni[k] by {
        if i < pos && k > pos {
            assert(ni[k] == idx[k - 1]);
        } else if i > pos {
            assert(ni[k] == idx[k - 1] && ni[i] == idx[i - 1]);
        } else if i == pos {
            assert(ni[k] == idx[k - 1]);
        }
    }
    assert forall|i: int, k: int| 0 <= i < k < j + 1 implies {
        ||| key_lt(key(#[trigger] no[i]), key(#[trigger] no[k]))
        ||| (key(no[i]) == key(no[k]) && ni[i] < ni[k])
    } by {
        if k < pos {
        } else if k == pos {
            assert(!key_lt(key(q), key(out[i])));
        } else if i < pos {
            assert(no[k] == out[k - 1] && ni[k] == idx[k - 1]);
            assert(!key_lt(key(q), key(out[i])));
            assert(key_lt(key(q), key(out[pos])));
            if k - 1 > pos {
                assert(key_lt(key(out[pos]), key(out[k - 1])) || key(out[pos]) == key(out[k - 1]));
            }
        } else if i == pos {
            assert(no[k] == out[k - 1]);
            assert(key_lt(key(q), key(out[pos])));
            if k - 1 > pos {
                assert(key_lt(key(out[pos]), key(out[k - 1])) || key(out[pos]) == key(out[k - 1]));
            }
        } else {
            assert(no[k] == out[k - 1] && ni[k] == idx[k - 1]);
            assert(no[i] == out[i - 1] && ni[i] == idx[i - 1]);
        }
    }
}

/// The walkable neighbours of `point`, ordered by `neighbor_key` (a stable sort).
pub fn biased_neighbors(map: &WorldMap, point: Point, base: Point, bias: ExplorationBias) -> (ns: Vec<Point>)
    requires
        map.wf(),
    ensures
        exists|idx: Seq<int>| #[trigger] stably_sorted(map@.neighbors(point), ns@, idx, neighbor_key_fn(map@, point, base, bias)),
{
    let input = map.neighbors(point);
    let ghost key = neighbor_key_fn(map@, point, base, bias);
    let mut out: Vec<Point> = Vec::new();
    let ghost mut idx: Seq<int> = Seq::empty();
    let n = input.len();
    let mut j: usize = 0;
    while j < n
        invariant
            map.wf(),
            input@ == map@.neighbors(point),
            n == input@.len(),
            j <= n,
            key == neighbor_key_fn(map@, point, base, bias),
            sorted_prefix(input@, out@, idx, key, j as int),
        decreases n - j,
    {
        let q = input[j];
        proof {
            assert(input@.contains(q));
            lemma_neighbors_are_adjacent(map@, point, q);
        }
        let kq = neighbor_sort_key(map, point, q, base, bias);
        let mut pos: usize = 0;
        let mut stop = false;
        while !stop && pos < out.len()
            invariant
                map.wf(),
                input@ == map@.neighbors(point),
                n == input@.len(),
                j < n,
                sorted_prefix(input@, out@, idx, key, j as int),
                pos <= j,
                kq == key(q),
                q == input@[j as int],
                key == neighbor_key_fn(map@, point, base, bias),
                stop ==> pos < j && key_lt(kq, key(out@[pos as int])),
                forall|i: int| 0 <= i < pos ==> !key_lt(kq, #[trigger] key(out@[i])),
            decreases j - pos + (if stop { 0int } else { 1int }),
        {
            let o = out[pos];
            proof {
                assert(input@.contains(input@[idx[pos as int]]));
                lemma_neighbors_are_adjacent(map@, point, o);
            }
            let ko = neighbor_sort_key(map, point, o, base, bias);
            if key_less(kq, ko) {
                stop = true;
            } else {
                pos += 1;
            }
        }
        proof {
            lemma_insert_sorted(input@, out@, idx, key, j as int, pos as int);
            idx = idx.insert(pos as int, j as int);
        }
        out.insert(pos, q);
        j += 1;
    }
    assert(stably_sorted(map@.neighbors(point), out@, idx, key));
    out
}


/// The steps of a route after its first tile, when it has any.
pub open spec fn route_steps(route: Option<Seq<Point>>) -> Option<Seq<Point>> {
    match route {
        Some(p) => if p.len() > 1 { Some(p.drop_first()) } else { None },
        None => None,
    }
}

pub open spec fn priced_route_steps(route: Option<(Seq<Point>, u32)>) -> Option<Seq<Point>> {
    match route {
        Some((p, c)) => route_steps(Some(p)),
        None => None,
    }
}

/// The steps of a route a search returned: the route without its first tile;
/// `None` without a route or when the route is that one tile.
pub fn route_to_steps(route: Option<Vec<Point>>) -> (r: Option<Vec<Point>>)
    ensures
        opt_view(r) == route_steps(opt_view(route)),
{
    let path = match route {
        Some(path) => path,
        None => return None,
    };
    let steps = path_without_start(path);
    if steps.len() == 0 {
        None
    } else {
        Some(steps)
    }
}

/// The steps of a priced route a search returned (see `route_to_steps`); the
/// price is dropped.
pub fn priced_route_to_steps(route: Option<(Vec<Point>, u32)>) -> (r: Option<Vec<Point>>)
    ensures
        opt_view(r) == priced_route_steps(opt_cost_view(route)),
{
    match route {
        Some((path, _cost)) => route_to_steps(Some(path)),
        None => None,
    }
}

/// Steps of a cheapest walk from `from` to `goal`.
pub open spec fn cheapest_steps(map: MapView, from: Point, goal: Point, steps: Seq<Point>) -> bool {
    &&& steps.len() >= 1
    &&& walk_between(map, seq![from] + steps, from, goal)
    &&& forall|w: Seq<Point>| #[trigger] walk_between(map, w, from, goal) ==> walk_cost(map, seq![from] + steps) <= walk_cost(map, w)
}

proof fn lemma_priced_route(map: MapView, from: Point, goal: Point, route: Option<(Seq<Point>, u32)>)
    requires
        route matches Some((path, cost)) ==> cheapest_route(map, from, goal, path, cost),
        route is None ==> no_walk_between(map, from, goal),
    ensures
        priced_route_steps(route) matches Some(steps) ==> cheapest_steps(map, from, goal, steps),
        priced_route_steps(route) is None <==> (from == goal || no_walk_between(map, from, goal)),
{
    match route {
        Some((path, cost)) => {
            assert(path =~= seq![from] + path.drop_first()) by {
                assert(path[0] == from);
            }
            if from == goal {
                assert(walk_between(map, seq![from], from, goal));
                lemma_free_walk_is_trivial(map, path, from);
            }
            if path.len() <= 1 {
                assert(path.last() == path[0]);
            }
        },
        None => {},
    }
}

/// The steps of the A* route from `from` to `goal`.
fn astar_path(map: &WorldMap, from: Point, goal: Point) -> (r: Option<Vec<Point>>)
    requires
        map.wf(),
        search_fits(map@, goal),
    ensures
        opt_view(r) == priced_route_steps(astar_route(map@, from, goal)),
        r matches Some(steps) ==> cheapest_steps(map@, from, goal, steps@),
        r is None <==> (from == goal || no_walk_between(map@, from, goal)),
{
    let route = astar_search(map, from, goal);
    proof {
        lemma_priced_route(map@, from, goal, astar_route(map@, from, goal));
    }
    priced_route_to_steps(route)
}

/// The steps of the Dijkstra route from `from` to `goal`.
fn dijkstra_path(map: &WorldMap, from: Point, goal: Point) -> (r: Option<Vec<Point>>)
    requires
        map.wf(),
        search_fits(map@, goal),
    ensures
        opt_view(r) == priced_route_steps(dijkstra_route(map@, from, goal)),
        r matches Some(steps) ==> cheapest_steps(map@, from, goal, steps@),
        r is None <==> (from == goal || no_walk_between(map@, from, goal)),
{
    let route = dijkstra_search(map, from, goal);
    proof {
        lemma_priced_route(map@, from, goal, dijkstra_route(map@, from, goal));
    }
    priced_route_to_steps(route)
}

/// The steps of the bidirectional breadth-first route from `from` to `goal`.
fn bidirectional_path(map: &WorldMap, from: Point, goal: Point) -> (r: Option<Vec<Point>>)
    requires
        map.wf(),
    ensures
        opt_view(r) == route_steps(bidirectional_route(map@, from, goal)),
        r matches Some(steps) ==> steps@.len() >= 1 && adjacent_chain(map@, seq![from] + steps@, from, goal),
        from == goal ==> r is None,
        r is None ==> (from == goal || no_walk_between(map@, from, goal)),
        map@.walkable(from) && map@.walkable(goal) ==> (r matches Some(steps) ==> forall|w: Seq<Point>| #[trigger] walk_between(map@, w, from, goal) ==> steps@.len() + 1 <= w.len()),
{
    let route = bidirectional_search(map, from, goal);
    match route {
        Some(path) => {
            proof {
                assert(path@ =~= seq![from] + path@.drop_first()) by {
                    assert(path@[0] == from);
                }
                if path@.len() <= 1 {
                    assert(path@.last() == path@[0]);
                }
            }
            route_to_steps(Some(path))
        },
        None => {
            proof {
                if from == goal {
                    assert(walk_between(map@, seq![from], from, goal));
                }
            }
            None
        },
    }
}

/// What `miner_path` returns, given the routes of the three searches.
/// No walk ends on a tile off the map, so A* and Dijkstra give nothing for one.
pub open spec fn spec_miner_path(map: MapView, from: Point, goal: Point, algorithm: MinerAlgorithm) -> Option<Seq<Point>> {
    match algorithm {
        MinerAlgorithm::AStar => if map.in_bounds(goal) { priced_route_steps(astar_route(map, from, goal)) } else { None },
        MinerAlgorithm::Dijkstra => if map.in_bounds(goal) { priced_route_steps(dijkstra_route(map, from, goal)) } else { None },
        MinerAlgorithm::Bidirectional => route_steps(bidirectional_route(map, from, goal)),
    }
}

/// The tiles a miner walks through to go from `from` to `goal`, not counting `from`.
/// Every search yields a chain of side-by-side tiles ending at `goal`; A* and
/// Dijkstra yield a cheapest walk. `None` when already there or when no walk leads there.
pub fn miner_path(map: &WorldMap, from: Point, goal: Point, algorithm: MinerAlgorithm) -> (r: Option<Vec<Point>>)
    requires
        map.wf(),
        algorithm != MinerAlgorithm::Bidirectional && map@.in_bounds(goal) ==> search_fits(map@, goal),
    ensures
        opt_view(r) == spec_miner_path(map@, from, goal, algorithm),
        r matches Some(steps) ==> steps@.len() >= 1 && adjacent_chain(map@, seq![from] + steps@, from, goal),
        r matches Some(steps) ==> (algorithm != MinerAlgorithm::Bidirectional ==> cheapest_steps(map@, from, goal, steps@)),
        from == goal ==> r is None,
        r is None ==> (from == goal || no_walk_between(map@, from, goal)),
        algorithm != MinerAlgorithm::Bidirectional ==> (r is None <==> (from == goal || no_walk_between(map@, from, goal))),
        algorithm == MinerAlgorithm::Bidirectional && map@.walkable(from) && map@.walkable(goal) ==> (r matches Some(steps) ==> forall|w: Seq<Point>| #[trigger] walk_between(map@, w, from, goal) ==> steps@.len() + 1 <= w.len()),
{
    let (width, height) = map.size();
    if algorithm != MinerAlgorithm::Bidirectional && !(goal.x < width && goal.y < height) {
        proof {
            assert forall|w: Seq<Point>| !#[trigger] walk_between(map@, w, from, goal) || from == goal by {
                if walk_between(map@, w, from, goal) && w.len() >= 2 {
                    assert(step_ok(map@, w, w.len() - 2));
                    lemma_neighbors_are_adjacent(map@, w[w.len() - 2], goal);
                }
            }
        }
        return None;
    }
    let r = match algorithm {
        MinerAlgorithm::AStar => astar_path(map, from, goal),
        MinerAlgorithm::Dijkstra => dijkstra_path(map, from, goal),
        MinerAlgorithm::Bidirectional => bidirectional_path(map, from, goal),
    };
    proof {
        if algorithm != MinerAlgorithm::Bidirectional {
            if r is Some {
                lemma_walk_is_chain(map@, seq![from] + r->0@);
            }
        }
    }
    r
}


/// The steps after `from` of an exploring walk.
pub open spec fn exploring_steps(map: MapView, memory: Set<Point>, from: Point, frontier: bool, steps: Seq<Point>) -> bool {
    exploring_walk(map, memory, from, frontier, seq![from] + steps)
}

/// No exploring walk leaves `from`.
pub open spec fn nothing_to_explore(map: MapView, memory: Set<Point>, from: Point, frontier: bool) -> bool {
    forall|w: Seq<Point>| !#[trigger] exploring_walk(map, memory, from, frontier, w)
}

proof fn lemma_exploring_route(map: MapView, memory: Set<Point>, from: Point, frontier: bool, route: Option<Seq<Point>>)
    requires
        route matches Some(path) ==> exploring_walk(map, memory, from, frontier, path),
        route is None ==> nothing_to_explore(map, memory, from, frontier),
    ensures
        route_steps(route) matches Some(steps) ==> exploring_steps(map, memory, from, frontier, steps) && steps.len() + 1 == route->0.len(),
        route_steps(route) is None <==> nothing_to_explore(map, memory, from, frontier),
{
    if let Some(path) = route {
        assert(path =~= seq![from] + path.drop_first()) by {
            assert(path[0] == from);
        }
        assert(!nothing_to_explore(map, memory, from, frontier)) by {
            assert(exploring_walk(map, memory, from, frontier, path));
        }
    }
}

/// The steps of the shortest exploring walk the breadth-first search finds
/// towards a tile the scout has not stood on.
fn bfs_path_to_unvisited(map: &WorldMap, memory: &ScoutMemory, from: Point, base: Point, bias: ExplorationBias) -> (r: Option<Vec<Point>>)
    requires
        map.wf(),
    ensures
        opt_view(r) == route_steps(bfs_route(map@, memory@, from, base, bias, false)),
        r matches Some(steps) ==> exploring_steps(map@, memory@, from, false, steps@),
        r matches Some(steps) ==> forall|w: Seq<Point>| #[trigger] exploring_walk(map@, memory@, from, false, w) ==> steps@.len() + 1 <= w.len(),
        r is None <==> nothing_to_explore(map@, memory@, from, false),
{
    let route = bfs_search(map, memory, from, base, bias, false);
    proof {
        lemma_exploring_route(map@, memory@, from, false, bfs_route(map@, memory@, from, base, bias, false));
    }
    route_to_steps(route)
}

pub open spec fn spec_frontier_path(map: MapView, memory: Set<Point>, from: Point, base: Point, bias: ExplorationBias) -> Option<Seq<Point>> {
    match route_steps(bfs_route(map, memory, from, base, bias, true)) {
        Some(steps) => Some(steps),
        None => route_steps(bfs_route(map, memory, from, base, bias, false)),
    }
}

/// Heads for the nearest unvisited tile that borders a visited one; when there is
/// none, for the nearest unvisited tile.
fn frontier_wavefront_path(map: &WorldMap, memory: &ScoutMemory, from: Point, base: Point, bias: ExplorationBias) -> (r: Option<Vec<Point>>)
    requires
        map.wf(),
    ensures
        opt_view(r) == spec_frontier_path(map@, memory@, from, base, bias),
        r matches Some(steps) ==> exploring_steps(map@, memory@, from, false, steps@),
        r is None <==> nothing_to_explore(map@, memory@, from, false),
{
    let route = bfs_search(map, memory, from, base, bias, true);
    proof {
        lemma_exploring_route(map@, memory@, from, true, bfs_route(map@, memory@, from, base, bias, true));
    }
    let first = route_to_steps(route);
    match first {
        Some(steps) => {
            proof {
                let w = seq![from] + steps@;
                assert(exploring_walk(map@, memory@, from, true, w));
                assert(exploring_walk(map@, memory@, from, false, w));
            }
            Some(steps)
        },
        None => bfs_path_to_unvisited(map, memory, from, base, bias),
    }
}

/// The steps of the walk a depth-first search finds towards a tile the scout has
/// not stood on.
fn dfs_path_to_unvisited(map: &WorldMap, memory: &ScoutMemory, from: Point, base: Point, bias: ExplorationBias) -> (r: Option<Vec<Point>>)
    requires
        map.wf(),
    ensures
        opt_view(r) == route_steps(dfs_route(map@, memory@, from, base, bias)),
        r matches Some(steps) ==> exploring_steps(map@, memory@, from, false, steps@),
        r is None <==> nothing_to_explore(map@, memory@, from, false),
{
    let route = dfs_search(map, memory, from, base, bias);
    proof {
        lemma_exploring_route(map@, memory@, from, false, dfs_route(map@, memory@, from, base, bias));
    }
    route_to_steps(route)
}


/// Coordinates small enough that the exploration scores of `map` stay within `u32`.
pub open spec fn exploration_fits(map: MapView, from: Point, base: Point) -> bool {
    3 * (map.width + map.height + from.x + from.y + base.x + base.y) + 2 * map.width * map.height + 64 <= u32::MAX
}

/// A tile worth exploring: walkable and not yet visited.
pub open spec fn exploration_candidate(map: MapView, memory: Set<Point>, p: Point) -> bool {
    map.walkable(p) && !memory.contains(p)
}

/// How attractive `p` is as the next target (lower is better): the distance from
/// the scout plus the terrain cost, less four per unvisited neighbour, plus a third
/// of the distance from the base, plus the bias penalty.
pub open spec fn exploration_score(map: MapView, memory: Set<Point>, from: Point, base: Point, bias: ExplorationBias, p: Point) -> int {
    let novelty = 4 * spec_unvisited_neighbor_count(map, memory, p);
    let travel = manhattan(from, p) + (match map.cost(p) { Some(c) => c as int, None => 10int });
    sat_diff(travel, novelty as int) + manhattan(p, base) / 3 + bias.spec_penalty(p, base) as int
}

/// The bias penalty of a tile: how far it lies from the base against the scout's
/// direction (West: columns east of the base; East: columns west of it; North: rows
/// south of it; South: rows north of it), never below zero, narrowed to 32 bits.
pub proof fn lemma_penalty_measures_the_wrong_side(bias: ExplorationBias, p: Point, base: Point)
    ensures
        bias == ExplorationBias::West ==> bias.spec_penalty(p, base) == ((if p.x > base.x { p.x - base.x } else { 0 }) as u32),
        bias == ExplorationBias::East ==> bias.spec_penalty(p, base) == ((if base.x > p.x { base.x - p.x } else { 0 }) as u32),
        bias == ExplorationBias::North ==> bias.spec_penalty(p, base) == ((if p.y > base.y { p.y - base.y } else { 0 }) as u32),
        bias == ExplorationBias::South ==> bias.spec_penalty(p, base) == ((if base.y > p.y { base.y - p.y } else { 0 }) as u32),
        p.x < 0x1_0000_0000 && p.y < 0x1_0000_0000 && base.x < 0x1_0000_0000 && base.y < 0x1_0000_0000 ==> {
            &&& (bias == ExplorationBias::West ==> bias.spec_penalty(p, base) == (if p.x > base.x { p.x - base.x } else { 0 }))
            &&& (bias == ExplorationBias::East ==> bias.spec_penalty(p, base) == (if base.x > p.x { base.x - p.x } else { 0 }))
            &&& (bias == ExplorationBias::North ==> bias.spec_penalty(p, base) == (if p.y > base.y { p.y - base.y } else { 0 }))
            &&& (bias == ExplorationBias::South ==> bias.spec_penalty(p, base) == (if base.y > p.y { base.y - p.y } else { 0 }))
        },
{
}

/// The exploration score of a tile counts the scout's bias penalty in full: two
/// scouts with different biases score a tile apart by exactly the difference of
/// their penalties, so a tile on the wrong side of the base for a bias scores
/// worse for it, all else equal.
pub proof fn lemma_score_counts_bias_penalty(map: MapView, memory: Set<Point>, from: Point, base: Point, b1: ExplorationBias, b2: ExplorationBias, p: Point)
    ensures
        exploration_score(map, memory, from, base, b1, p) - exploration_score(map, memory, from, base, b2, p)
            == b1.spec_penalty(p, base) - b2.spec_penalty(p, base),
{
}

/// Of two candidate tiles that score the same but for the bias, the A* exploring
/// scout never takes the one with the larger bias penalty: the target has the
/// smaller penalty or the tie goes to the earlier tile.
pub proof fn lemma_target_shuns_larger_penalty(map: MapView, memory: Set<Point>, from: Point, base: Point, bias: ExplorationBias, i: int, j: int, other: ExplorationBias)
    requires
        is_exploration_target(map, memory, from, base, bias, i),
        0 <= j < map.width * map.height,
        exploration_candidate(map, memory, grid_point(j, map.width as int)),
        exploration_score(map, memory, from, base, other, grid_point(i, map.width as int)) - other.spec_penalty(grid_point(i, map.width as int), base)
            == exploration_score(map, memory, from, base, other, grid_point(j, map.width as int)) - other.spec_penalty(grid_point(j, map.width as int), base),
    ensures
        bias.spec_penalty(grid_point(i, map.width as int), base) <= bias.spec_penalty(grid_point(j, map.width as int), base),
        j < i ==> bias.spec_penalty(grid_point(i, map.width as int), base) < bias.spec_penalty(grid_point(j, map.width as int), base),
{
    let w = map.width as int;
    lemma_score_counts_bias_penalty(map, memory, from, base, bias, other, grid_point(i, w));
    lemma_score_counts_bias_penalty(map, memory, from, base, bias, other, grid_point(j, w));
}

/// Tile number `i` (row by row) is the target: a candidate with the lowest score,
/// and the first one with that score.
pub open spec fn is_exploration_target(map: MapView, memory: Set<Point>, from: Point, base: Point, bias: ExplorationBias, i: int) -> bool {
    let w = map.width as int;
    let score = |q: Point| exploration_score(map, memory, from, base, bias, q);
    &&& 0 <= i < map.width * map.height
    &&& exploration_candidate(map, memory, grid_point(i, w))
    &&& forall|j: int| 0 <= j < map.width * map.height && exploration_candidate(map, memory, #[trigger] grid_point(j, w)) ==> {
        &&& score(grid_point(i, w)) <= score(grid_point(j, w))
        &&& (j < i ==> score(grid_point(i, w)) < score(grid_point(j, w)))
    }
}

proof fn lemma_in_grid_bounds(map: MapView, i: int)
    requires
        0 <= i < map.width * map.height,
    ensures
        map.width > 0,
        grid_point(i, map.width as int).x < map.width,
        grid_point(i, map.width as int).y < map.height,
{
    let w = map.width as int;
    let h = map.height as int;
    if w == 0 {
        assert(w * h == 0) by (nonlinear_arith) requires w == 0;
    }
    vstd::arithmetic::div_mod::lemma_fundamental_div_mod(i, w);
    vstd::arithmetic::div_mod::lemma_mod_bound(i, w);
    let q = i / w;
    let r = i % w;
    assert(q < h) by (nonlinear_arith)
        requires
            i == w * q + r,
            0 <= r,
            i < w * h,
            w > 0,
    ;
    assert(q >= 0) by (nonlinear_arith)
        requires
            i == w * q + r,
            r < w,
            i >= 0,
            w > 0,
    ;
}

fn exploration_score_of(map: &WorldMap, memory: &ScoutMemory, from: Point, base: Point, bias: ExplorationBias, p: Point) -> (s: u32)
    requires
        map.wf(),
        3 * (map@.width + map@.height + from.x + from.y + base.x + base.y) + 64 <= u32::MAX,
        p.x < map@.width,
        p.y < map@.height,
    ensures
        s == exploration_score(map@, memory@, from, base, bias, p),
{
    let novelty_bonus = unvisited_neighbor_count(map, memory, p) * 4;
    assert(abs_diff(p.x as int, base.x as int) <= map@.width + base.x);
    assert(abs_diff(p.y as int, base.y as int) <= map@.height + base.y);
    assert(abs_diff(from.x as int, p.x as int) <= map@.width + from.x);
    assert(abs_diff(from.y as int, p.y as int) <= map@.height + from.y);
    assert(manhattan(p, base) <= map@.width + base.x + map@.height + base.y);
    assert(manhattan(from, p) <= map@.width + from.x + map@.height + from.y);
    assert(bias.spec_penalty(p, base) <= map@.width + map@.height + base.x + base.y);
    let distance_from_base = manhattan_distance(p, base) / 3;
    let cost = match map.terrain_cost(p) {
        Some(c) => c,
        None => 10,
    };
    let travel_cost = manhattan_distance(from, p) + cost;
    travel_cost.saturating_sub(novelty_bonus) + distance_from_base + bias.penalty(p, base)
}

/// The next tile a scout using A* exploration heads for (see `is_exploration_target`).
pub fn exploration_target(map: &WorldMap, memory: &ScoutMemory, from: Point, base: Point, bias: ExplorationBias) -> (t: Option<Point>)
    requires
        map.wf(),
        exploration_fits(map@, from, base),
    ensures
        t matches Some(p) ==> exists|i: int| is_exploration_target(map@, memory@, from, base, bias, i) && p == #[trigger] grid_point(i, map@.width as int),
        t is None <==> forall|j: int| 0 <= j < map@.width * map@.height ==> !exploration_candidate(map@, memory@, #[trigger] grid_point(j, map@.width as int)),
{
    let points = map.points();
    let ghost w = map@.width as int;
    let ghost score = |q: Point| exploration_score(map@, memory@, from, base, bias, q);
    let mut best: Option<Point> = None;
    let mut best_score: u32 = 0;
    let ghost mut best_i: int = 0;
    let n = points.len();
    assert(0 <= map@.width * map@.height) by (nonlinear_arith);
    let mut i: usize = 0;
    while i < n
        invariant
            map.wf(),
            3 * (map@.width + map@.height + from.x + from.y + base.x + base.y) + 64 <= u32::MAX,
            n == points@.len(),
            n == map@.width * map@.height,
            w == map@.width as int,
            score == (|q: Point| exploration_score(map@, memory@, from, base, bias, q)),
            forall|j: int| 0 <= j < points@.len() ==> #[trigger] points@[j] == grid_point(j, w),
            i <= n,
            best is None ==> forall|j: int| 0 <= j < i ==> !exploration_candidate(map@, memory@, #[trigger] grid_point(j, w)),
            best matches Some(p) ==> {
                &&& 0 <= best_i < i
                &&& p == grid_point(best_i, w)
                &&& exploration_candidate(map@, memory@, p)
                &&& best_score == score(p)
                &&& forall|j: int| 0 <= j < i && exploration_candidate(map@, memory@, #[trigger] grid_point(j, w)) ==> {
                    &&& score(p) <= score(grid_point(j, w))
                    &&& (j < best_i ==> score(p) < score(grid_point(j, w)))
                }
            },
        decreases n - i,
    {
        let p = points[i];
        proof {
            lemma_in_grid_bounds(map@, i as int);
        }
        if map.is_walkable(p) && !memory.has_visited(p) {
            let s = exploration_score_of(map, memory, from, base, bias, p);
            let better = match best {
                None => true,
                Some(_) => s < best_score,
            };
            if better {
                best = Some(p);
                best_score = s;
                proof {
                    best_i = i as int;
                }
            }
        }
        i += 1;
    }
    proof {
        if let Some(p) = best {
            assert(is_exploration_target(map@, memory@, from, base, bias, best_i));
        }
    }
    best
}


/// How likely a random-walk scout is to step onto neighbour `q`: cheaper terrain
/// weighs more (eleven less the cost, at least one), plus the bias bonus.
pub open spec fn step_weight(map: MapView, from: Point, q: Point, base: Point, bias: ExplorationBias) -> u32 {
    let c = map.cost(q).unwrap();
    let terrain_weight = if 11 > c { 11 - c } else { 0 };
    let terrain_weight = if terrain_weight >= 1 { terrain_weight } else { 1 };
    (terrain_weight + bias.spec_step_bonus(from, q, base)) as u32
}

/// The neighbours of `from` with their weights, in neighbour order.
pub open spec fn step_weights(map: MapView, from: Point, base: Point, bias: ExplorationBias) -> Seq<(Point, u32)> {
    map.neighbors(from).map_values(|q: Point| (q, step_weight(map, from, q, base, bias)))
}

pub open spec fn weight_total(ws: Seq<(Point, u32)>) -> int
    decreases ws.len(),
{
    if ws.len() == 0 { 0 } else { ws[0].1 + weight_total(ws.drop_first()) }
}

/// The entry whose share of the weight line holds `choice`: the first entry when
/// `choice` is below its weight, otherwise the pick among the others of what is left.
pub open spec fn weighted_pick(ws: Seq<(Point, u32)>, choice: int) -> Option<Point>
    decreases ws.len(),
{
    if ws.len() == 0 {
        None
    } else if choice < ws[0].1 {
        Some(ws[0].0)
    } else {
        weighted_pick(ws.drop_first(), choice - ws[0].1)
    }
}

proof fn lemma_pick_within_total(ws: Seq<(Point, u32)>, choice: int)
    requires
        0 <= choice < weight_total(ws),
    ensures
        weighted_pick(ws, choice) matches Some(p) && exists|j: int| 0 <= j < ws.len() && (#[trigger] ws[j]).0 == p,
    decreases ws.len(),
{
    if choice < ws[0].1 {
        assert(ws[0].0 == ws[0].0);
    } else {
        lemma_pick_within_total(ws.drop_first(), choice - ws[0].1);
        let p = weighted_pick(ws, choice)->0;
        let j = choose|j: int| 0 <= j < ws.drop_first().len() && (#[trigger] ws.drop_first()[j]).0 == p;
        assert(ws[j + 1] == ws.drop_first()[j]);
    }
}

/// Walks the weight line of `weighted` up to `choice` (see `weighted_pick`).
pub fn pick_weighted_step(weighted: &Vec<(Point, u32)>, choice: u32) -> (r: Option<Point>)
    ensures
        r == weighted_pick(weighted@, choice as int),
{
    let mut left = choice;
    let n = weighted.len();
    let mut i: usize = 0;
    assert(weighted@.skip(0) =~= weighted@);
    while i < n
        invariant
            n == weighted@.len(),
            i <= n,
            weighted_pick(weighted@, choice as int) == weighted_pick(weighted@.skip(i as int), left as int),
        decreases n - i,
    {
        let (point, weight) = weighted[i];
        assert(weighted@.skip(i as int)[0] == weighted@[i as int]);
        assert(weighted@.skip(i as int).drop_first() =~= weighted@.skip(i + 1));
        if left < weight {
            assert(weighted_pick(weighted@.skip(i as int), left as int) == Some(point));
            return Some(point);
        }
        left -= weight;
        i += 1;
    }
    assert(weighted@.skip(n as int) =~= Seq::<(Point, u32)>::empty());
    None
}

/// The walkable neighbours of `from` with their weights (see `step_weights`), each
/// weight between 1 and 15.
pub fn cost_biased_weights(map: &WorldMap, from: Point, base: Point, bias: ExplorationBias) -> (ws: Vec<(Point, u32)>)
    requires
        map.wf(),
    ensures
        ws@ == step_weights(map@, from, base, bias),
        ws@.len() <= 4,
        forall|j: int| 0 <= j < ws@.len() ==> (#[trigger] ws@[j]).1 <= 15 && ws@[j].1 >= 1,
{
    let neighbors = map.neighbors(from);
    let ghost spec_ws = step_weights(map@, from, base, bias);
    let mut weighted: Vec<(Point, u32)> = Vec::new();
    let n = neighbors.len();
    let mut i: usize = 0;
    while i < n
        invariant
            map.wf(),
            neighbors@ == map@.neighbors(from),
            n == neighbors@.len(),
            n <= 4,
            i <= n,
            spec_ws == step_weights(map@, from, base, bias),
            weighted@.len() == i,
            forall|j: int| 0 <= j < i ==> #[trigger] weighted@[j] == spec_ws[j],
            forall|j: int| 0 <= j < i ==> (#[trigger] weighted@[j]).1 <= 15 && weighted@[j].1 >= 1,
        decreases n - i,
    {
        let q = neighbors[i];
        proof {
            assert(neighbors@.contains(q));
            lemma_neighbors_are_adjacent(map@, from, q);
        }
        match map.terrain_cost(q) {
            Some(cost) => {
                let terrain_weight = 11u32.saturating_sub(cost);
                let terrain_weight = if terrain_weight >= 1 { terrain_weight } else { 1 };
                weighted.push((q, terrain_weight + bias.step_bonus(from, q, base)));
            },
            None => {},
        }
        i += 1;
    }
    assert(weighted@ =~= spec_ws);
    weighted
}

/// The sum of the weights of `ws`.
pub fn total_weight(ws: &Vec<(Point, u32)>) -> (total: u32)
    requires
        ws@.len() <= 4,
        forall|j: int| 0 <= j < ws@.len() ==> (#[trigger] ws@[j]).1 <= 15,
    ensures
        total == weight_total(ws@),
{
    let n = ws.len();
    let mut total: u32 = 0;
    let mut k: usize = n;
    assert(ws@.skip(n as int) =~= Seq::<(Point, u32)>::empty());
    while k > 0
        invariant
            n == ws@.len(),
            n <= 4,
            k <= n,
            forall|j: int| 0 <= j < n ==> (#[trigger] ws@[j]).1 <= 15,
            total == weight_total(ws@.skip(k as int)),
            total <= 15 * (n - k),
        decreases k,
    {
        k -= 1;
        assert(ws@.skip(k as int)[0] == ws@[k as int]);
        assert(ws@.skip(k as int).drop_first() =~= ws@.skip(k + 1));
        total += ws[k].1;
    }
    assert(ws@.skip(0) =~= ws@);
    total
}

/// A step of the random walk: a walkable neighbour drawn with a chance in
/// proportion to its weight; the draw is a number below the total weight of the
/// neighbours (`total_weight` of `cost_biased_weights`), and the step is the
/// neighbour whose share holds it (`pick_weighted_step`).
fn random_cost_biased_step(map: &WorldMap, from: Point, base: Point, bias: ExplorationBias) -> (r: Option<Point>)
    requires
        map.wf(),
    ensures
        r is Some <==> map@.neighbors(from).len() > 0,
        r matches Some(p) ==> map@.neighbors(from).contains(p),
        r matches Some(p) ==> exists|c: int| 0 <= c < weight_total(step_weights(map@, from, base, bias)) && #[trigger] weighted_pick(step_weights(map@, from, base, bias), c) == Some(p),
{
    let weighted = cost_biased_weights(map, from, base, bias);
    let total = total_weight(&weighted);
    proof {
        if weighted@.len() > 0 {
            lemma_total_at_least_first(weighted@);
        } else {
            assert(weight_total(weighted@) == 0);
        }
    }
    if total == 0 {
        return None;
    }
    let choice = random_below(total as usize) as u32;
    proof {
        lemma_pick_within_total(weighted@, choice as int);
        let p = weighted_pick(weighted@, choice as int)->0;
        let j = choose|j: int| 0 <= j < weighted@.len() && (#[trigger] weighted@[j]).0 == p;
        assert(map@.neighbors(from)[j] == p);
    }
    pick_weighted_step(&weighted, choice)
}

proof fn lemma_total_at_least_first(ws: Seq<(Point, u32)>)
    requires
        ws.len() > 0,
        ws[0].1 >= 1,
        forall|j: int| 0 <= j < ws.len() ==> (#[trigger] ws[j]).1 >= 0,
    ensures
        weight_total(ws) >= 1,
{
    lemma_total_nonneg(ws.drop_first());
}

proof fn lemma_total_nonneg(ws: Seq<(Point, u32)>)
    ensures
        weight_total(ws) >= 0,
    decreases ws.len(),
{
    if ws.len() > 0 {
        lemma_total_nonneg(ws.drop_first());
    }
}


/// Two tiles cannot both be the exploration target.
proof fn lemma_target_unique(map: MapView, memory: Set<Point>, from: Point, base: Point, bias: ExplorationBias, i: int, k: int)
    requires
        is_exploration_target(map, memory, from, base, bias, i),
        is_exploration_target(map, memory, from, base, bias, k),
    ensures
        i == k,
{
    let w = map.width as int;
    assert(exploration_candidate(map, memory, grid_point(k, w)));
    assert(exploration_candidate(map, memory, grid_point(i, w)));
}

/// Where an A* exploring scout goes: towards the exploration target by the steps of
/// the A* route there, a cheapest walk.
pub open spec fn target_walk_ok(map: MapView, memory: Set<Point>, from: Point, base: Point, bias: ExplorationBias, steps: Seq<Point>) -> bool {
    exists|i: int| #[trigger] is_exploration_target(map, memory, from, base, bias, i)
        && cheapest_steps(map, from, grid_point(i, map.width as int), steps)
        && Some(steps) == priced_route_steps(astar_route(map, from, grid_point(i, map.width as int)))
}

/// There is no exploration target, or the scout stands on it, or it cannot be reached.
pub open spec fn target_out_of_reach(map: MapView, memory: Set<Point>, from: Point, base: Point, bias: ExplorationBias) -> bool {
    forall|i: int| #[trigger] is_exploration_target(map, memory, from, base, bias, i) ==> {
        let t = grid_point(i, map.width as int);
        t == from || no_walk_between(map, from, t)
    }
}

/// What a scout's exploration algorithm proposes from `from`: always a walk of at
/// least one step, if anything. Breadth-first, frontier and depth-first searches
/// give the steps of their route (breadth-first a shortest exploring walk), and
/// nothing only when there is nothing left to explore; A* exploration walks to its
/// target, and gives nothing only when that target is out of reach; the random
/// walk steps to a neighbour drawn by the neighbours' weights, and gives nothing
/// only without a walkable neighbour.
pub open spec fn exploration_plan(
    map: MapView,
    memory: Set<Point>,
    from: Point,
    base: Point,
    algorithm: ScoutAlgorithm,
    bias: ExplorationBias,
    plan: Option<Seq<Point>>,
) -> bool {
    &&& (plan matches Some(steps) ==> steps.len() >= 1 && is_walk(map, seq![from] + steps))
    &&& match algorithm {
        ScoutAlgorithm::Bfs => {
            &&& plan == route_steps(bfs_route(map, memory, from, base, bias, false))
            &&& (plan matches Some(steps) ==> exploring_steps(map, memory, from, false, steps))
            &&& (plan matches Some(steps) ==> forall|w: Seq<Point>| #[trigger] exploring_walk(map, memory, from, false, w) ==> steps.len() + 1 <= w.len())
            &&& (plan is None <==> nothing_to_explore(map, memory, from, false))
        },
        ScoutAlgorithm::FrontierWavefront => {
            &&& plan == spec_frontier_path(map, memory, from, base, bias)
            &&& (plan matches Some(steps) ==> exploring_steps(map, memory, from, false, steps))
            &&& (plan is None <==> nothing_to_explore(map, memory, from, false))
        },
        ScoutAlgorithm::Dfs => {
            &&& plan == route_steps(dfs_route(map, memory, from, base, bias))
            &&& (plan matches Some(steps) ==> exploring_steps(map, memory, from, false, steps))
            &&& (plan is None <==> nothing_to_explore(map, memory, from, false))
        },
        ScoutAlgorithm::AStarExploration => {
            &&& (plan matches Some(steps) ==> target_walk_ok(map, memory, from, base, bias, steps))
            &&& (plan is None <==> target_out_of_reach(map, memory, from, base, bias))
        },
        ScoutAlgorithm::RandomWalkCostBias => {
            &&& (plan is Some <==> map.neighbors(from).len() > 0)
            &&& (plan matches Some(steps) ==> steps.len() == 1 && map.neighbors(from).contains(steps[0]))
            &&& (plan matches Some(steps) ==> exists|c: int| 0 <= c < weight_total(step_weights(map, from, base, bias)) && #[trigger] weighted_pick(step_weights(map, from, base, bias), c) == Some(steps[0]))
        },
    }
}

/// The tiles a scout walks through next, not counting `from`, following its
/// exploration algorithm. Every algorithm but the random walk heads for a tile the
/// scout has not stood on.
pub fn scout_path(
    map: &WorldMap,
    memory: &ScoutMemory,
    from: Point,
    base: Point,
    algorithm: ScoutAlgorithm,
    bias: ExplorationBias,
) -> (r: Option<Vec<Point>>)
    requires
        map.wf(),
        algorithm == ScoutAlgorithm::AStarExploration ==> exploration_fits(map@, from, base),
    ensures
        exploration_plan(map@, memory@, from, base, algorithm, bias, opt_view(r)),
{
    match algorithm {
        ScoutAlgorithm::FrontierWavefront => frontier_wavefront_path(map, memory, from, base, bias),
        ScoutAlgorithm::AStarExploration => {
            let target = match exploration_target(map, memory, from, base, bias) {
                Some(t) => t,
                None => {
                    proof {
                        assert forall|i: int| #[trigger] is_exploration_target(map@, memory@, from, base, bias, i) implies {
                            let t = grid_point(i, map@.width as int);
                            t == from || no_walk_between(map@, from, t)
                        } by {
                            assert(exploration_candidate(map@, memory@, grid_point(i, map@.width as int)));
                        }
                    }
                    return None;
                },
            };
            let ghost ti = choose|i: int| is_exploration_target(map@, memory@, from, base, bias, i) && target == #[trigger] grid_point(i, map@.width as int);
            proof {
                lemma_in_grid_bounds(map@, ti);
                assert forall|i: int| #[trigger] is_exploration_target(map@, memory@, from, base, bias, i) implies i == ti by {
                    lemma_target_unique(map@, memory@, from, base, bias, i, ti);
                }
            }
            let r = astar_path(map, from, target);
            proof {
                if r is Some {
                    assert(is_exploration_target(map@, memory@, from, base, bias, ti));
                    assert(cheapest_steps(map@, from, grid_point(ti, map@.width as int), r->0@));
                }
            }
            r
        },
        ScoutAlgorithm::RandomWalkCostBias => {
            match random_cost_biased_step(map, from, base, bias) {
                Some(step) => {
                    let mut steps: Vec<Point> = Vec::new();
                    steps.push(step);
                    proof {
                        let w = seq![from] + steps@;
                        assert(w[0] == from && w[1] == step);
                        assert(step_ok(map@, w, 0));
                    }
                    Some(steps)
                },
                None => None,
            }
        },
        ScoutAlgorithm::Bfs => bfs_path_to_unvisited(map, memory, from, base, bias),
        ScoutAlgorithm::Dfs => dfs_path_to_unvisited(map, memory, from, base, bias),
    }
}

} // verus!
