use explore::bots::{
    plan_bots, BotConfig, BotEvent, BotKind, BotSnapshot, BotStatus, ExplorationBias, MinerAlgorithm,
    MinerBot, MiningOrder, ScoutAlgorithm, ScoutBot,
};
use explore::map::{MapOptions, MineralKind, Point, Terrain, WorldMap};

fn pt(x: usize, y: usize) -> Point {
    Point { x, y }
}

fn plains(width: usize, height: usize) -> WorldMap {
    WorldMap::from_terrain_for_tests(width, height, vec![Terrain::Plains; width * height])
}

#[test]
fn roster_places_scouts_on_the_base_and_numbers_miners_after_them() {
    let mut map = WorldMap::new(10, 10);
    map.set_options(MapOptions { seed: Some(9), ..MapOptions::default() });
    assert!(map.install_terrain(9, vec![Terrain::Plains; 100]));
    let config = BotConfig { scout_count: 3, miner_count: 2, ..BotConfig::default() };
    let roster = plan_bots(&map, config);
    let base = map.base_center().unwrap();
    let tiles = map.base_tiles().unwrap();
    assert_eq!(roster.scouts.len(), 3);
    assert_eq!(roster.miners.len(), 2);
    for (i, scout) in roster.scouts.iter().enumerate() {
        assert_eq!(scout.id, i as u32);
        assert_eq!(scout.base, base);
        assert!(tiles.contains(&scout.position()));
        assert_eq!(scout.bias, ExplorationBias::for_scout(i as u32));
    }
    assert_eq!(roster.miners[0].id, 3);
    assert_eq!(roster.miners[1].id, 4);
    assert_eq!(roster.miners[1].position(), base);
}

#[test]
fn no_bots_without_a_base() {
    let map = plains(6, 6);
    let roster = plan_bots(&map, BotConfig::default());
    assert!(roster.scouts.is_empty());
    assert!(roster.miners.is_empty());
}

#[test]
fn miner_mines_one_unit_and_returns() {
    let map = plains(5, 1);
    let mut miner = MinerBot::new(7, pt(0, 0), MinerAlgorithm::AStar);
    assert!(miner.wants_order());
    assert_eq!(
        miner.start_event(),
        BotEvent::BotMoved(BotSnapshot { id: 7, kind: BotKind::Miner, pos: pt(0, 0), status: BotStatus::Idle })
    );

    // An order for someone else is ignored.
    let other = MiningOrder { miner_id: 8, pos: pt(2, 0), kind: MineralKind::Energy };
    let events = miner.tick(&map, Some(other));
    assert!(miner.wants_order());
    assert_eq!(events.len(), 1);

    let order = MiningOrder { miner_id: 7, pos: pt(2, 0), kind: MineralKind::Energy };
    let mut all = Vec::new();
    all.extend(miner.tick(&map, Some(order)));
    assert!(!miner.wants_order());
    for _ in 0..10 {
        all.extend(miner.tick(&map, None));
    }
    assert!(all.contains(&BotEvent::MinerArrivedAtMineral { miner_id: 7, pos: pt(2, 0) }));
    let delivered: Vec<&BotEvent> = all.iter().filter(|e| matches!(e, BotEvent::ResourcesDelivered { .. })).collect();
    assert_eq!(delivered, vec![&BotEvent::ResourcesDelivered { miner_id: 7, pos: pt(2, 0), amount: 1 }]);
    assert_eq!(miner.position(), pt(0, 0));
    assert!(miner.wants_order());
}

#[test]
fn scout_explores_and_reports_minerals_only_at_base() {
    let mut map = WorldMap::new(9, 9);
    map.set_options(MapOptions { seed: Some(5), energy_count: 10, diamond_count: 10, ..MapOptions::default() });
    assert!(map.install_terrain(5, vec![Terrain::Plains; 81]));
    let base = map.base_center().unwrap();
    let mut scout = ScoutBot::new(0, base, base, ScoutAlgorithm::Bfs, ExplorationBias::West);
    let mut found = 0;
    let mut moves = 0;
    for _ in 0..400 {
        for event in scout.tick(&map) {
            match event {
                BotEvent::MineralFound { scout_id, pos, kind } => {
                    assert_eq!(scout_id, 0);
                    assert_eq!(scout.position(), base);
                    assert_eq!(map.mineral_at(pos).map(|m| m.kind), Some(kind));
                    found += 1;
                }
                BotEvent::BotMoved(snapshot) => {
                    assert_eq!(snapshot.kind, BotKind::Scout);
                    moves += 1;
                }
                _ => panic!("a scout sends no other events"),
            }
        }
    }
    assert!(moves > 0);
    assert!(found > 0);
}

#[test]
fn miner_with_an_order_off_the_map_reports_and_returns() {
    let map = plains(3, 1);
    let mut miner = MinerBot::new(1, pt(0, 0), MinerAlgorithm::AStar);
    let order = MiningOrder { miner_id: 1, pos: pt(50, 50), kind: MineralKind::Diamond };
    let events = miner.tick(&map, Some(order));
    assert!(events.contains(&BotEvent::MinerArrivedAtMineral { miner_id: 1, pos: pt(50, 50) }));
    let events = miner.tick(&map, None);
    assert!(events.contains(&BotEvent::ResourcesDelivered { miner_id: 1, pos: pt(50, 50), amount: 1 }));
    assert!(miner.wants_order());
}
