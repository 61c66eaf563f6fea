use explore::bots::pathfinding::{
    cost_biased_weights, path_without_start, pick_weighted_step, priced_route_to_steps, route_to_steps, total_weight,
};
use explore::bots::{miner_path, scout_path, ExplorationBias, MinerAlgorithm, ScoutAlgorithm, ScoutMemory};
use explore::map::{Point, Terrain, WorldMap};

fn pt(x: usize, y: usize) -> Point {
    Point { x, y }
}

fn plains_map() -> WorldMap {
    WorldMap::from_terrain_for_tests(5, 5, vec![Terrain::Plains; 25])
}

#[test]
fn miner_astar_returns_steps_without_start() {
    let map = plains_map();
    let path = miner_path(&map, pt(0, 0), pt(2, 0), MinerAlgorithm::AStar).expect("expected path");

    assert_eq!(path, vec![pt(1, 0), pt(2, 0)]);
}

#[test]
fn miner_dijkstra_reaches_goal() {
    let map = plains_map();
    let path = miner_path(&map, pt(0, 0), pt(2, 2), MinerAlgorithm::Dijkstra).expect("expected path");

    assert_eq!(path.last(), Some(&pt(2, 2)));
}

#[test]
fn scout_bfs_finds_unvisited_neighbor() {
    let map = plains_map();
    let memory = ScoutMemory::new(pt(2, 2));
    let path = scout_path(&map, &memory, pt(2, 2), pt(0, 0), ScoutAlgorithm::Bfs, ExplorationBias::West)
        .expect("expected path");

    assert_eq!(path.len(), 1);
    assert!(!memory.has_visited(path[0]));
}

#[test]
fn frontier_wavefront_does_not_bounce_to_base() {
    let map = plains_map();
    let mut memory = ScoutMemory::new(pt(2, 2));
    memory.mark_visited(pt(3, 2));

    let path = scout_path(
        &map,
        &memory,
        pt(3, 2),
        pt(2, 2),
        ScoutAlgorithm::FrontierWavefront,
        ExplorationBias::West,
    )
    .expect("expected path");

    assert_ne!(path[0], pt(2, 2));
    assert!(!memory.has_visited(path[0]));
}

#[test]
fn scout_bias_changes_bfs_first_step() {
    let map = plains_map();
    let memory = ScoutMemory::new(pt(2, 2));

    let west_path = scout_path(&map, &memory, pt(2, 2), pt(2, 2), ScoutAlgorithm::Bfs, ExplorationBias::West)
        .expect("expected west-biased path");
    let east_path = scout_path(&map, &memory, pt(2, 2), pt(2, 2), ScoutAlgorithm::Bfs, ExplorationBias::East)
        .expect("expected east-biased path");

    assert_eq!(west_path[0], pt(1, 2));
    assert_eq!(east_path[0], pt(3, 2));
}

#[test]
fn paths_do_not_cross_mountains_or_deep_water() {
    let map = WorldMap::from_terrain_for_tests(
        3,
        3,
        vec![
            Terrain::Plains,
            Terrain::Mountains,
            Terrain::Plains,
            Terrain::Plains,
            Terrain::DeepWater,
            Terrain::Plains,
            Terrain::Plains,
            Terrain::Plains,
            Terrain::Plains,
        ],
    );

    let path = miner_path(&map, pt(0, 0), pt(2, 0), MinerAlgorithm::AStar).expect("expected path around barriers");

    assert!(!path.contains(&pt(1, 0)));
    assert!(!path.contains(&pt(1, 1)));
}

#[test]
fn no_path_to_where_one_stands_or_behind_walls() {
    let map = WorldMap::from_terrain_for_tests(3, 1, vec![Terrain::Plains, Terrain::Mountains, Terrain::Plains]);
    for algorithm in MinerAlgorithm::ALL {
        assert_eq!(miner_path(&map, pt(0, 0), pt(0, 0), algorithm), None);
        assert_eq!(miner_path(&map, pt(0, 0), pt(2, 0), algorithm), None);
    }
}

#[test]
fn every_miner_algorithm_walks_to_the_goal() {
    let map = WorldMap::from_terrain_for_tests(
        3,
        3,
        vec![
            Terrain::Plains,
            Terrain::Hills,
            Terrain::Plains,
            Terrain::Plains,
            Terrain::Mountains,
            Terrain::Plains,
            Terrain::Plains,
            Terrain::Plains,
            Terrain::Plains,
        ],
    );
    for algorithm in MinerAlgorithm::ALL {
        let path = miner_path(&map, pt(0, 0), pt(2, 0), algorithm).expect("a way round exists");
        assert_eq!(path.last(), Some(&pt(2, 0)));
        let mut at = pt(0, 0);
        for step in &path {
            assert_eq!(at.x.abs_diff(step.x) + at.y.abs_diff(step.y), 1);
            assert!(map.is_walkable(*step));
            at = *step;
        }
    }
    // Over the hill costs 2 + 1 ticks; round the mountain costs 1 + 1 + 1 + 1 + 1.
    let cheapest = miner_path(&map, pt(0, 0), pt(2, 0), MinerAlgorithm::AStar).unwrap();
    assert_eq!(cheapest, vec![pt(1, 0), pt(2, 0)]);
    let dijkstra = miner_path(&map, pt(0, 0), pt(2, 0), MinerAlgorithm::Dijkstra).unwrap();
    assert_eq!(dijkstra.len(), 2);
}

#[test]
fn scouts_head_for_unvisited_tiles_with_every_algorithm() {
    let map = plains_map();
    let mut memory = ScoutMemory::new(pt(2, 2));
    memory.mark_visited(pt(1, 2));
    for algorithm in ScoutAlgorithm::ALL {
        let path = scout_path(&map, &memory, pt(2, 2), pt(2, 2), algorithm, ExplorationBias::North)
            .expect("unvisited tiles remain");
        assert!(!path.is_empty());
        if algorithm == ScoutAlgorithm::RandomWalkCostBias {
            // A random step onto a neighbouring tile, visited or not.
            assert_eq!(path.len(), 1);
            assert_eq!(path[0].x.abs_diff(2) + path[0].y.abs_diff(2), 1);
        } else {
            assert!(!memory.has_visited(*path.last().unwrap()));
        }
    }
}

#[test]
fn scouts_find_nothing_on_a_fully_visited_map() {
    let map = WorldMap::from_terrain_for_tests(2, 1, vec![Terrain::Plains; 2]);
    let mut memory = ScoutMemory::new(pt(0, 0));
    memory.mark_visited(pt(1, 0));
    for algorithm in [ScoutAlgorithm::Bfs, ScoutAlgorithm::Dfs, ScoutAlgorithm::FrontierWavefront, ScoutAlgorithm::AStarExploration] {
        assert_eq!(scout_path(&map, &memory, pt(0, 0), pt(0, 0), algorithm, ExplorationBias::West), None);
    }
}

#[test]
fn memory_remembers_marked_tiles() {
    let mut memory = ScoutMemory::new(pt(1, 1));
    assert!(memory.has_visited(pt(1, 1)));
    assert!(!memory.has_visited(pt(2, 1)));
    memory.mark_visited(pt(2, 1));
    memory.mark_visited(pt(2, 1));
    assert!(memory.has_visited(pt(2, 1)));
}

#[test]
fn routes_become_steps_without_their_start() {
    assert_eq!(route_to_steps(None), None);
    assert_eq!(route_to_steps(Some(vec![pt(0, 0)])), None);
    assert_eq!(route_to_steps(Some(vec![pt(0, 0), pt(1, 0), pt(1, 1)])), Some(vec![pt(1, 0), pt(1, 1)]));
    assert_eq!(priced_route_to_steps(Some((vec![pt(3, 3), pt(3, 4)], 2))), Some(vec![pt(3, 4)]));
    assert_eq!(priced_route_to_steps(None), None);
    assert_eq!(path_without_start(Vec::new()), Vec::<Point>::new());
}

#[test]
fn weighted_pick_walks_the_weights() {
    let weighted = vec![(pt(0, 0), 3), (pt(1, 0), 1), (pt(2, 0), 5)];
    assert_eq!(pick_weighted_step(&weighted, 0), Some(pt(0, 0)));
    assert_eq!(pick_weighted_step(&weighted, 2), Some(pt(0, 0)));
    assert_eq!(pick_weighted_step(&weighted, 3), Some(pt(1, 0)));
    assert_eq!(pick_weighted_step(&weighted, 4), Some(pt(2, 0)));
    assert_eq!(pick_weighted_step(&weighted, 8), Some(pt(2, 0)));
    assert_eq!(pick_weighted_step(&weighted, 9), None);
}

#[test]
fn bidirectional_route_has_fewest_tiles() {
    let map = WorldMap::from_terrain_for_tests(
        4,
        4,
        vec![
            Terrain::Plains, Terrain::Hills, Terrain::Hills, Terrain::Plains,
            Terrain::Plains, Terrain::Mountains, Terrain::Mountains, Terrain::Plains,
            Terrain::Plains, Terrain::Plains, Terrain::Plains, Terrain::Plains,
            Terrain::Plains, Terrain::Plains, Terrain::Plains, Terrain::Plains,
        ],
    );
    let path = miner_path(&map, pt(0, 0), pt(3, 0), MinerAlgorithm::Bidirectional).unwrap();
    assert_eq!(path, vec![pt(1, 0), pt(2, 0), pt(3, 0)]);
}

#[test]
fn no_cheapest_route_to_a_tile_off_the_map() {
    let map = plains_map();
    assert_eq!(miner_path(&map, pt(0, 0), pt(9, 9), MinerAlgorithm::AStar), None);
    assert_eq!(miner_path(&map, pt(0, 0), pt(usize::MAX, 3), MinerAlgorithm::Dijkstra), None);
}

#[test]
fn random_walk_weights_favour_cheap_tiles_and_the_bias() {
    let map = WorldMap::from_terrain_for_tests(
        3,
        3,
        vec![
            Terrain::Plains, Terrain::Hills, Terrain::Plains,
            Terrain::Plains, Terrain::Plains, Terrain::ShallowWater,
            Terrain::Plains, Terrain::Mountains, Terrain::Plains,
        ],
    );
    let ws = cost_biased_weights(&map, pt(1, 1), pt(1, 1), ExplorationBias::West);
    // West, east, north; the mountain to the south is left out.
    assert_eq!(ws.iter().map(|w| w.0).collect::<Vec<_>>(), vec![pt(0, 1), pt(2, 1), pt(1, 0)]);
    // Plains weigh 10, hills and shallow water 9, plus the bias bonus.
    let west = 10 + ExplorationBias::West.step_bonus(pt(1, 1), pt(0, 1), pt(1, 1));
    let east = 9 + ExplorationBias::West.step_bonus(pt(1, 1), pt(2, 1), pt(1, 1));
    let north = 9 + ExplorationBias::West.step_bonus(pt(1, 1), pt(1, 0), pt(1, 1));
    assert_eq!(ws, vec![(pt(0, 1), west), (pt(2, 1), east), (pt(1, 0), north)]);
    assert_eq!(total_weight(&ws), west + east + north);
}
