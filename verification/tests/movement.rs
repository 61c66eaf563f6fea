use std::collections::VecDeque;

use explore::bots::{MovementProgress, MovementStep};
use explore::map::{Point, Terrain, WorldMap};

fn pt(x: usize, y: usize) -> Point {
    Point { x, y }
}

#[test]
fn movement_waits_for_terrain_cost() {
    let map = WorldMap::from_terrain_for_tests(
        3,
        1,
        vec![Terrain::Plains, Terrain::Hills, Terrain::ShallowWater],
    );
    let mut movement = MovementProgress::default();
    let mut path = VecDeque::from(vec![pt(1, 0), pt(2, 0)]);
    let hill_cost = map.terrain_cost(pt(1, 0)).expect("hill cost");
    let shallow_water_cost = map.terrain_cost(pt(2, 0)).expect("shallow water cost");

    for _ in 1..hill_cost {
        assert_eq!(movement.advance(&map, &mut path), MovementStep::Waiting);
    }
    assert_eq!(movement.advance(&map, &mut path), MovementStep::Arrived(pt(1, 0)));

    for _ in 1..shallow_water_cost {
        assert_eq!(movement.advance(&map, &mut path), MovementStep::Waiting);
    }
    assert_eq!(movement.advance(&map, &mut path), MovementStep::Arrived(pt(2, 0)));
}

#[test]
fn movement_distinguishes_waiting_from_idle() {
    let map = WorldMap::from_terrain_for_tests(2, 1, vec![Terrain::Plains, Terrain::Hills]);
    let mut movement = MovementProgress::default();
    let mut path = VecDeque::from(vec![pt(1, 0)]);

    assert_eq!(movement.advance(&map, &mut path), MovementStep::Waiting);
    assert_eq!(movement.advance(&map, &mut path), MovementStep::Arrived(pt(1, 0)));
    assert_eq!(movement.advance(&map, &mut path), MovementStep::Idle);
}

#[test]
fn plains_are_entered_on_the_first_tick() {
    let map = WorldMap::from_terrain_for_tests(2, 1, vec![Terrain::Plains, Terrain::Base]);
    let mut movement = MovementProgress::default();
    let mut path = VecDeque::from(vec![pt(1, 0)]);
    assert_eq!(movement.advance(&map, &mut path), MovementStep::Arrived(pt(1, 0)));
    assert_eq!(movement, MovementProgress::default());
    assert!(path.is_empty());
}

#[test]
fn impassable_tile_is_dropped_from_the_path() {
    let map = WorldMap::from_terrain_for_tests(3, 1, vec![Terrain::Plains, Terrain::Mountains, Terrain::Plains]);
    let mut movement = MovementProgress::default();
    let mut path = VecDeque::from(vec![pt(1, 0), pt(2, 0)]);
    assert_eq!(movement.advance(&map, &mut path), MovementStep::Idle);
    assert_eq!(path, VecDeque::from(vec![pt(2, 0)]));
    assert_eq!(movement.target, None);
}
