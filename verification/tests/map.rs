use explore::map::minerals::generation_seed;
use explore::map::rng::SeededRng;
use explore::map::{MapOptions, MineralKind, Point, Terrain, TileColor, WorldMap};

fn pt(x: usize, y: usize) -> Point {
    Point { x, y }
}

/// A fixed landscape: mostly plains, with diagonal bands of hills and a column of
/// shallow water, standing in for generated terrain.
fn rolling_terrain(width: usize, height: usize) -> Vec<Terrain> {
    let mut terrain = Vec::with_capacity(width * height);
    for y in 0..height {
        for x in 0..width {
            let t = if (x + y) % 7 == 0 {
                Terrain::Hills
            } else if x % 11 == 5 {
                Terrain::ShallowWater
            } else {
                Terrain::Plains
            };
            terrain.push(t);
        }
    }
    terrain
}

fn initialized_map(seed: u32) -> WorldMap {
    let mut map = WorldMap::new(80, 24);
    map.set_options(MapOptions {
        seed: Some(seed),
        ..MapOptions::default()
    });
    assert!(map.install_terrain(seed, rolling_terrain(80, 24)));
    map
}

#[test]
fn same_seed_replays_same_map() {
    let first = initialized_map(12345);
    let second = initialized_map(12345);

    for p in first.points() {
        assert_eq!(first.terrain_at(p), second.terrain_at(p));
    }
    assert_eq!(first.minerals(), second.minerals());
    assert_eq!(first.base_center(), second.base_center());
}

#[test]
fn points_returns_all_coordinates() {
    let map = WorldMap::from_terrain_for_tests(3, 2, vec![Terrain::Plains; 6]);
    let points = map.points();
    assert_eq!(points.len(), 6);
    assert!(points.contains(&pt(0, 0)));
    assert!(points.contains(&pt(2, 1)));
}

#[test]
fn size_returns_dimensions() {
    let map = WorldMap::from_terrain_for_tests(5, 7, vec![Terrain::Plains; 35]);
    assert_eq!(map.size(), (5, 7));
}

#[test]
fn terrain_at_valid_point() {
    let map = WorldMap::from_terrain_for_tests(
        2,
        2,
        vec![
            Terrain::Plains,
            Terrain::Hills,
            Terrain::Mountains,
            Terrain::DeepWater,
        ],
    );
    assert_eq!(map.terrain_at(pt(0, 0)), Some(Terrain::Plains));
    assert_eq!(map.terrain_at(pt(1, 1)), Some(Terrain::DeepWater));
}

#[test]
fn terrain_at_out_of_bounds() {
    let map = WorldMap::from_terrain_for_tests(2, 2, vec![Terrain::Plains; 4]);
    assert_eq!(map.terrain_at(pt(5, 5)), None);
}

#[test]
fn is_walkable_returns_false_for_deep_water() {
    let map = WorldMap::from_terrain_for_tests(1, 1, vec![Terrain::DeepWater]);
    assert!(!map.is_walkable(pt(0, 0)));
}

#[test]
fn is_walkable_returns_false_for_mountains() {
    let map = WorldMap::from_terrain_for_tests(1, 1, vec![Terrain::Mountains]);
    assert!(!map.is_walkable(pt(0, 0)));
}

#[test]
fn is_walkable_returns_true_for_plains() {
    let map = WorldMap::from_terrain_for_tests(1, 1, vec![Terrain::Plains]);
    assert!(map.is_walkable(pt(0, 0)));
}

#[test]
fn is_walkable_returns_true_for_hills_and_shallow_water_and_base() {
    for terrain in [Terrain::Hills, Terrain::ShallowWater, Terrain::Base] {
        let map = WorldMap::from_terrain_for_tests(1, 1, vec![terrain]);
        assert!(map.is_walkable(pt(0, 0)), "{terrain:?} should be walkable");
    }
}

#[test]
fn is_walkable_out_of_bounds() {
    let map = WorldMap::from_terrain_for_tests(1, 1, vec![Terrain::Plains]);
    assert!(!map.is_walkable(pt(5, 5)));
}

#[test]
fn terrain_cost_plains_and_base() {
    for terrain in [Terrain::Plains, Terrain::Base] {
        let map = WorldMap::from_terrain_for_tests(1, 1, vec![terrain]);
        assert_eq!(map.terrain_cost(pt(0, 0)), Some(1));
    }
}

#[test]
fn terrain_cost_hills_and_shallow_water() {
    for terrain in [Terrain::Hills, Terrain::ShallowWater] {
        let map = WorldMap::from_terrain_for_tests(1, 1, vec![terrain]);
        assert_eq!(map.terrain_cost(pt(0, 0)), Some(2));
    }
}

#[test]
fn terrain_cost_impassable() {
    for terrain in [Terrain::DeepWater, Terrain::Mountains] {
        let map = WorldMap::from_terrain_for_tests(1, 1, vec![terrain]);
        assert_eq!(map.terrain_cost(pt(0, 0)), None);
    }
}

#[test]
fn terrain_cost_out_of_bounds() {
    let map = WorldMap::from_terrain_for_tests(1, 1, vec![Terrain::Plains]);
    assert_eq!(map.terrain_cost(pt(5, 5)), None);
}

#[test]
fn neighbors_includes_cardinal_walkable() {
    let map = WorldMap::from_terrain_for_tests(3, 3, vec![Terrain::Plains; 9]);
    let neighbors = map.neighbors(pt(1, 1));
    assert_eq!(neighbors.len(), 4);
    assert!(neighbors.contains(&pt(0, 1)));
    assert!(neighbors.contains(&pt(2, 1)));
    assert!(neighbors.contains(&pt(1, 0)));
    assert!(neighbors.contains(&pt(1, 2)));
}

#[test]
fn neighbors_excludes_impassable_terrain() {
    let map = WorldMap::from_terrain_for_tests(
        3,
        1,
        vec![Terrain::Mountains, Terrain::Plains, Terrain::DeepWater],
    );
    let neighbors = map.neighbors(pt(1, 0));
    assert_eq!(neighbors.len(), 0);
}

#[test]
fn neighbors_at_top_left_corner() {
    let map = WorldMap::from_terrain_for_tests(2, 2, vec![Terrain::Plains; 4]);
    let neighbors = map.neighbors(pt(0, 0));
    assert_eq!(neighbors.len(), 2);
    assert!(neighbors.contains(&pt(1, 0)));
    assert!(neighbors.contains(&pt(0, 1)));
}

#[test]
fn mineral_at_returns_none_without_minerals() {
    let map = WorldMap::from_terrain_for_tests(2, 2, vec![Terrain::Plains; 4]);
    assert_eq!(map.mineral_at(pt(0, 0)), None);
}

#[test]
fn render_tile_from_terrain_all_variants() {
    let map = WorldMap::from_terrain_for_tests(1, 1, vec![Terrain::Plains]);
    assert_eq!(map.render_tile_from_terrain(Terrain::DeepWater).0, "≈");
    assert_eq!(map.render_tile_from_terrain(Terrain::ShallowWater).0, "~");
    assert_eq!(map.render_tile_from_terrain(Terrain::Plains).0, ".");
    assert_eq!(map.render_tile_from_terrain(Terrain::Hills).0, "^");
    assert_eq!(map.render_tile_from_terrain(Terrain::Mountains).0, "▲");
    assert_eq!(map.render_tile_from_terrain(Terrain::Base).0, "B");
}

#[test]
fn render_tile_from_mineral_all_variants() {
    let map = WorldMap::from_terrain_for_tests(1, 1, vec![Terrain::Plains]);
    assert_eq!(map.render_tile_from_mineral(MineralKind::Energy).0, "E");
    assert_eq!(map.render_tile_from_mineral(MineralKind::Diamond).0, "D");
}

#[test]
fn seeded_rng_determinism() {
    let mut rng_a = SeededRng::new(42);
    let mut rng_b = SeededRng::new(42);
    for _ in 0..100 {
        assert_eq!(rng_a.next_u32(), rng_b.next_u32());
    }
}

#[test]
fn seeded_rng_range_usize() {
    let mut rng = SeededRng::new(42);
    for _ in 0..100 {
        let v = rng.range_usize(5..10);
        assert!((5..10).contains(&v));
    }
}

#[test]
fn seeded_rng_range_u32_inclusive() {
    let mut rng = SeededRng::new(42);
    for _ in 0..100 {
        let v = rng.range_u32_inclusive(3..=8);
        assert!((3..=8).contains(&v));
    }
}

#[test]
fn find_base_location_on_all_plains() {
    let map = WorldMap::from_terrain_for_tests(10, 10, vec![Terrain::Plains; 100]);
    let base = map.find_base_location();
    assert!(base.is_some(), "should find base on all-plains map");
    if let Some(base) = base {
        let (a, b, c, _) = base.coordinates;
        assert_eq!(a.x + 1, b.x);
        assert_eq!(a.y, b.y);
        assert_eq!(a.x, c.x);
        assert_eq!(a.y + 1, c.y);
    }
}

#[test]
fn base_center_returns_none_when_no_base() {
    let map = WorldMap::from_terrain_for_tests(5, 5, vec![Terrain::Plains; 25]);
    assert_eq!(map.base_center(), None);
}

#[test]
fn base_tiles_returns_none_when_no_base() {
    let map = WorldMap::from_terrain_for_tests(5, 5, vec![Terrain::Plains; 25]);
    assert_eq!(map.base_tiles(), None);
}

#[test]
fn initialized_map_has_base() {
    let map = initialized_map(42);
    assert!(map.base_center().is_some());
    assert!(map.base_tiles().is_some());
}

#[test]
fn initialized_map_has_minerals() {
    let map = initialized_map(42);
    let minerals = map.minerals();
    assert!(!minerals.is_empty());
    assert_eq!(
        minerals.len() as u32,
        map.options().energy_count + map.options().diamond_count,
    );
}

#[test]
fn rng_follows_the_linear_congruence() {
    let mut rng = SeededRng::new(1);
    // state = 1 * 6364136223846793005 + 1; output = state >> 32
    let expected = ((6364136223846793005u64.wrapping_add(1)) >> 32) as u32;
    assert_eq!(rng.next_u32(), expected);
}

#[test]
fn base_search_starts_at_the_centre() {
    let map = WorldMap::from_terrain_for_tests(10, 10, vec![Terrain::Plains; 100]);
    let base = map.find_base_location().unwrap();
    assert_eq!(base.coordinates.0, pt(5, 5));
    assert_eq!(base.coordinates.3, pt(6, 6));
}

#[test]
fn base_search_fails_without_plains_block() {
    let mut terrain = vec![Terrain::Plains; 16];
    for (i, t) in terrain.iter_mut().enumerate() {
        if (i % 4 + i / 4) % 2 == 0 {
            *t = Terrain::Hills;
        }
    }
    let mut map = WorldMap::from_terrain_for_tests(4, 4, terrain.clone());
    assert!(map.find_base_location().is_none());
    assert!(!map.install_terrain(7, terrain));
    assert_eq!(map.base_center(), None);
    assert!(map.minerals().is_empty());
}

#[test]
fn settled_map_marks_base_and_keeps_minerals_off_it() {
    let map = initialized_map(42);
    let tiles = map.base_tiles().unwrap();
    for t in tiles {
        assert_eq!(map.terrain_at(t), Some(Terrain::Base));
        assert_eq!(map.mineral_at(t), None);
    }
    assert_eq!(map.options().seed, Some(42));
    for (p, m) in map.minerals() {
        let t = map.terrain_at(p).unwrap();
        assert!(matches!(t, Terrain::Plains | Terrain::Hills | Terrain::ShallowWater));
        assert_eq!(m.value, m.max_value);
        match m.kind {
            MineralKind::Energy => assert!((3..=8).contains(&m.value)),
            MineralKind::Diamond => assert!((2..=5).contains(&m.value)),
        }
    }
}

#[test]
fn tile_colours_follow_the_terrain() {
    let map = WorldMap::from_terrain_for_tests(1, 1, vec![Terrain::Plains]);
    assert_eq!(map.render_tile_from_terrain(Terrain::Plains).1, TileColor::Green);
    assert_eq!(map.render_tile_from_mineral(MineralKind::Energy).1, TileColor::Yellow);
}

#[test]
fn rng_sequence_from_seed_zero() {
    let mut rng = SeededRng::new(0);
    assert_eq!(rng.next_u32(), 0);
    assert_eq!(rng.next_u32(), 1_481_765_933);
}

#[test]
fn crowded_map_lists_no_more_minerals_than_deposits() {
    let mut map = WorldMap::new(4, 4);
    map.set_options(MapOptions { seed: Some(3), energy_count: 40, diamond_count: 40, ..MapOptions::default() });
    assert!(map.install_terrain(3, vec![Terrain::Plains; 16]));
    let minerals = map.minerals();
    assert!(minerals.len() <= 80);
    // Only the twelve tiles off the base can hold a mineral.
    assert!(minerals.len() <= 12);
}

#[test]
fn generation_seeds_move_on_and_wrap() {
    assert_eq!(generation_seed(12345, 0), 12345);
    assert_eq!(generation_seed(12345, 3), 12348);
    assert_eq!(generation_seed(u32::MAX, 2), 1);
}
