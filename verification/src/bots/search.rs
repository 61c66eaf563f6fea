use vstd::prelude::*;

use crate::bots::pathfinding::{
    biased_neighbors, is_unvisited_frontier, manhattan_distance, spec_unvisited_frontier,
    weighted_neighbors, ScoutMemory,
};
use crate::bots::types::ExplorationBias;
use crate::bots::walks::{adjacent, is_walk, walk_between, walk_cost};
use crate::map::{MapView, Point, WorldMap};

verus! {

/// Path costs and distance estimates on `map` towards `goal` stay within `u32`.
pub open spec fn search_fits(map: MapView, goal: Point) -> bool {
    2 * map.width * map.height + map.width + map.height + goal.x + goal.y + 2 <= u32::MAX
}

/// What a scout heads for: any tile other than its own that it has not stood on,
/// or, for a frontier search, such a tile that also borders one it has stood on.
pub open spec fn exploration_goal(map: MapView, memory: Set<Point>, from: Point, p: Point, frontier: bool) -> bool {
    &&& p != from
    &&& if frontier { spec_unvisited_frontier(map, memory, p) } else { !memory.contains(p) }
}

pub fn is_exploration_goal(map: &WorldMap, memory: &ScoutMemory, from: Point, p: Point, frontier: bool) -> (b: bool)
    requires
        map.wf(),
    ensures
        b == exploration_goal(map@, memory@, from, p, frontier),
{
    if p == from {
        return false;
    }
    if frontier {
        is_unvisited_frontier(map, memory, p)
    } else {
        !memory.has_visited(p)
    }
}

/// `p` is the goal tile.
pub fn reached(p: Point, goal: Point) -> (b: bool)
    ensures
        b == (p == goal),
{
    p == goal
}

pub open spec fn opt_view(r: Option<Vec<Point>>) -> Option<Seq<Point>> {
    match r {
        Some(v) => Some(v@),
        None => None,
    }
}

pub open spec fn opt_cost_view(r: Option<(Vec<Point>, u32)>) -> Option<(Seq<Point>, u32)> {
    match r {
        Some((v, c)) => Some((v@, c)),
        None => None,
    }
}

/// The route that `pathfinding::astar` returns on `map` from `from` to `goal`,
/// stepping to walkable neighbours at their terrain cost, guided by the Manhattan distance.
pub uninterp spec fn astar_route(map: MapView, from: Point, goal: Point) -> Option<(Seq<Point>, u32)>;

/// The route that `pathfinding::dijkstra` returns on `map` from `from` to `goal`.
pub uninterp spec fn dijkstra_route(map: MapView, from: Point, goal: Point) -> Option<(Seq<Point>, u32)>;

/// The path that `pathfinding::bfs` returns from `from` to the nearest exploration
/// goal, trying neighbours in the scout's preferred order.
pub uninterp spec fn bfs_route(map: MapView, memory: Set<Point>, from: Point, base: Point, bias: ExplorationBias, frontier: bool) -> Option<Seq<Point>>;

/// The path that `pathfinding::dfs` returns from `from` to an unvisited tile,
/// trying neighbours in the scout's preferred order.
pub uninterp spec fn dfs_route(map: MapView, memory: Set<Point>, from: Point, base: Point, bias: ExplorationBias) -> Option<Seq<Point>>;

/// The path that `pathfinding::bfs_bidirectional` returns between `from` and `goal`.
pub uninterp spec fn bidirectional_route(map: MapView, from: Point, goal: Point) -> Option<Seq<Point>>;

/// A cheapest route: it walks from `from` to `goal`, `cost` is what it takes,
/// and no walk between them costs less.
pub open spec fn cheapest_route(map: MapView, from: Point, goal: Point, path: Seq<Point>, cost: u32) -> bool {
    &&& walk_between(map, path, from, goal)
    &&& cost == walk_cost(map, path)
    &&& forall|w: Seq<Point>| #[trigger] walk_between(map, w, from, goal) ==> cost <= walk_cost(map, w)
}

/// No walk leads from `from` to `goal`.
pub open spec fn no_walk_between(map: MapView, from: Point, goal: Point) -> bool {
    forall|w: Seq<Point>| !#[trigger] walk_between(map, w, from, goal)
}

/// A walk of at least one step from `from` to an exploration goal.
pub open spec fn exploring_walk(map: MapView, memory: Set<Point>, from: Point, frontier: bool, w: Seq<Point>) -> bool {
    &&& w.len() >= 2
    &&& w[0] == from
    &&& is_walk(map, w)
    &&& exploration_goal(map, memory, from, w.last(), frontier)
}

/// `pathfinding::astar` over the walkable neighbours of each tile, each entered at
/// its terrain cost, with the Manhattan distance to `goal` as estimate (it never
/// exceeds the true cost, as every step costs at least one tick).
/// Claimed: the result is `astar_route` of the arguments; a route it returns starts
/// at `from`, ends at `goal`, steps only to walkable neighbours and is a cheapest
/// such walk, with its cost; `None` comes only when no walk joins the two tiles.
/// Which of several cheapest walks is returned is left to the name.
#[verifier::external_body]
pub(crate) fn astar_search(map: &WorldMap, from: Point, goal: Point) -> (r: Option<(Vec<Point>, u32)>)
    requires
        map.wf(),
        search_fits(map@, goal),
    ensures
        opt_cost_view(r) == astar_route(map@, from, goal),
        r matches Some((path, cost)) ==> cheapest_route(map@, from, goal, path@, cost),
        r is None ==> no_walk_between(map@, from, goal),
{
    pathfinding::prelude::astar(
        &from,
        |p: &Point| weighted_neighbors(map, *p),
        |p: &Point| manhattan_distance(*p, goal),
        |p: &Point| reached(*p, goal),
    )
}

/// `pathfinding::dijkstra` over the walkable neighbours of each tile, each entered
/// at its terrain cost. Claimed: the result is `dijkstra_route` of the arguments;
/// a route it returns is a cheapest walk from `from` to `goal`, with its cost;
/// `None` comes only when no walk joins the two tiles.
#[verifier::external_body]
pub(crate) fn dijkstra_search(map: &WorldMap, from: Point, goal: Point) -> (r: Option<(Vec<Point>, u32)>)
    requires
        map.wf(),
        search_fits(map@, goal),
    ensures
        opt_cost_view(r) == dijkstra_route(map@, from, goal),
        r matches Some((path, cost)) ==> cheapest_route(map@, from, goal, path@, cost),
        r is None ==> no_walk_between(map@, from, goal),
{
    pathfinding::prelude::dijkstra(
        &from,
        |p: &Point| weighted_neighbors(map, *p),
        |p: &Point| reached(*p, goal),
    )
}

/// `pathfinding::bfs` from `from` over the neighbours in the scout's preferred order
/// to a tile satisfying `exploration_goal`. Claimed: the result is `bfs_route` of the
/// arguments; a path it returns is an exploring walk with as few tiles as any
/// exploring walk; `None` comes only when there is no exploring walk.
#[verifier::external_body]
pub(crate) fn bfs_search(map: &WorldMap, memory: &ScoutMemory, from: Point, base: Point, bias: ExplorationBias, frontier: bool) -> (r: Option<Vec<Point>>)
    requires
        map.wf(),
    ensures
        opt_view(r) == bfs_route(map@, memory@, from, base, bias, frontier),
        r matches Some(path) ==> exploring_walk(map@, memory@, from, frontier, path@),
        r matches Some(path) ==> forall|w: Seq<Point>| #[trigger] exploring_walk(map@, memory@, from, frontier, w) ==> path@.len() <= w.len(),
        r is None ==> forall|w: Seq<Point>| !#[trigger] exploring_walk(map@, memory@, from, frontier, w),
{
    pathfinding::prelude::bfs(
        &from,
        |p: &Point| biased_neighbors(map, *p, base, bias),
        |p: &Point| is_exploration_goal(map, memory, from, *p, frontier),
    )
}

/// `pathfinding::dfs` from `from` over the neighbours in the scout's preferred order
/// to a tile it has not stood on. Claimed: the result is `dfs_route` of the
/// arguments; a path it returns is an exploring walk; `None` comes only when there
/// is no exploring walk.
#[verifier::external_body]
pub(crate) fn dfs_search(map: &WorldMap, memory: &ScoutMemory, from: Point, base: Point, bias: ExplorationBias) -> (r: Option<Vec<Point>>)
    requires
        map.wf(),
    ensures
        opt_view(r) == dfs_route(map@, memory@, from, base, bias),
        r matches Some(path) ==> exploring_walk(map@, memory@, from, false, path@),
        r is None ==> forall|w: Seq<Point>| !#[trigger] exploring_walk(map@, memory@, from, false, w),
{
    pathfinding::prelude::dfs(
        from,
        |p: &Point| biased_neighbors(map, *p, base, bias),
        |p: &Point| is_exploration_goal(map, memory, from, *p, false),
    )
}

/// A chain of side-by-side tiles from `from` to `goal` whose inner tiles are walkable.
pub open spec fn adjacent_chain(map: MapView, path: Seq<Point>, from: Point, goal: Point) -> bool {
    &&& path.len() >= 1
    &&& path[0] == from
    &&& path.last() == goal
    &&& forall|i: int| 0 <= i < path.len() - 1 ==> #[trigger] adjacent(path[i], path[i + 1])
    &&& forall|i: int| 0 < i < path.len() - 1 ==> map.walkable(#[trigger] path[i])
}

/// `pathfinding::bfs_bidirectional` between `from` and `goal`, expanding both ends
/// with the walkable neighbours of each tile. Claimed: the result is
/// `bidirectional_route` of the arguments; a path it returns is a chain of
/// side-by-side tiles from `from` to `goal` whose inner tiles are walkable; `None`
/// comes only when no walk joins the two tiles; when `from` is `goal` the path is
/// that one tile. When both ends are walkable, the neighbours given for the
/// backward search are exactly the predecessors of each tile, and the crate
/// documents that the path returned is then a shortest one: no walk between the
/// two tiles has fewer tiles. Nothing is claimed of its length otherwise.
#[verifier::external_body]
pub(crate) fn bidirectional_search(map: &WorldMap, from: Point, goal: Point) -> (r: Option<Vec<Point>>)
    requires
        map.wf(),
    ensures
        opt_view(r) == bidirectional_route(map@, from, goal),
        r matches Some(path) ==> adjacent_chain(map@, path@, from, goal),
        r matches Some(path) ==> (from == goal ==> path@.len() == 1),
        r is None ==> no_walk_between(map@, from, goal),
        map@.walkable(from) && map@.walkable(goal) ==> (r matches Some(path) ==> forall|w: Seq<Point>| #[trigger] walk_between(map@, w, from, goal) ==> path@.len() <= w.len()),
{
    pathfinding::prelude::bfs_bidirectional(
        &from,
        &goal,
        |p: &Point| map.neighbors(*p),
        |p: &Point| map.neighbors(*p),
    )
}

/// `rand::random_range(0..bound)`: a number below `bound` drawn by chance.
#[verifier::external_body]
pub(crate) fn random_below(bound: usize) -> (r: usize)
    requires
        bound > 0,
    ensures
        r < bound,
{
    rand::random_range(0..bound)
}

} // verus!
