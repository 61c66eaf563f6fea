use explore::bots::{AssignmentStrategy, BotEvent, BotKind, BotSnapshot, BotStatus, MiningOrder};
use explore::map::{MapOptions, MineralKind, Point, Terrain, WorldMap};
use explore::state::game_world::GameWorld;

fn pt(x: usize, y: usize) -> Point {
    Point { x, y }
}

fn settled_map(width: usize, height: usize, options: MapOptions) -> WorldMap {
    let mut map = WorldMap::new(width, height);
    map.set_options(options);
    let seed = options.seed.unwrap_or(0);
    assert!(map.install_terrain(seed, vec![Terrain::Plains; width * height]));
    map
}

fn world_with(miners: Vec<u32>, strategy: AssignmentStrategy) -> GameWorld {
    let map = settled_map(
        10,
        10,
        MapOptions {
            seed: Some(42),
            energy_count: 2,
            diamond_count: 1,
            ..MapOptions::default()
        },
    );
    GameWorld::new(map, miners, strategy)
}

fn test_world() -> GameWorld {
    world_with(Vec::new(), AssignmentStrategy::LeastAssigned)
}

fn first_mineral_pos(world: &GameWorld) -> Point {
    world.map.minerals()[0].0
}

#[test]
fn records_known_mineral() {
    let mut world = test_world();
    let pos = first_mineral_pos(&world);
    let kind = world.map.mineral_at(pos).unwrap().kind;

    world.record_known_mineral(pos, kind);

    assert_eq!(world.known_minerals.len(), 1);
    assert_eq!(world.known_minerals[0].pos, pos);
    assert_eq!(world.known_minerals[0].kind, kind);
    assert_eq!(world.known_minerals[0].assigned_miners, 0);
}

#[test]
fn does_not_duplicate_known_mineral() {
    let mut world = test_world();
    let pos = first_mineral_pos(&world);
    let kind = world.map.mineral_at(pos).unwrap().kind;

    world.record_known_mineral(pos, kind);
    world.record_known_mineral(pos, kind);

    assert_eq!(world.known_minerals.len(), 1);
}

#[test]
fn record_miner_arrival_decrements_remaining() {
    let mut world = test_world();
    let pos = first_mineral_pos(&world);
    let kind = world.map.mineral_at(pos).unwrap().kind;
    world.record_known_mineral(pos, kind);

    let initial = world.known_minerals[0].remaining;
    world.record_miner_arrival(0, pos);

    assert_eq!(world.known_minerals[0].remaining, initial - 1);
}

#[test]
fn record_miner_arrival_does_not_go_below_zero() {
    let mut world = test_world();
    let pos = first_mineral_pos(&world);
    let kind = world.map.mineral_at(pos).unwrap().kind;
    world.record_known_mineral(pos, kind);

    for _ in 0..10 {
        world.record_miner_arrival(0, pos);
        world.record_miner_arrival(1, pos);
    }

    assert_eq!(world.known_minerals[0].remaining, 0);
}

#[test]
fn record_resource_delivery_adds_to_base() {
    let mut world = test_world();
    world.record_resource_delivery(0, pt(0, 0), 5);

    assert_eq!(world.resources_at_base, 5);
}

#[test]
fn record_resource_delivery_accumulates() {
    let mut world = test_world();
    world.record_resource_delivery(0, pt(0, 0), 3);
    world.record_resource_delivery(1, pt(0, 0), 7);

    assert_eq!(world.resources_at_base, 10);
}

#[test]
fn resource_delivery_reinserts_miner_into_idle() {
    let mut world = test_world();
    world.record_resource_delivery(99, pt(0, 0), 1);
    assert!(world.is_idle(99));
}

#[test]
fn record_known_mineral_sets_remaining_from_map() {
    let mut world = test_world();
    let pos = first_mineral_pos(&world);
    let kind = world.map.mineral_at(pos).unwrap().kind;
    let map_value = world.map.mineral_at(pos).unwrap().value;

    world.record_known_mineral(pos, kind);

    assert_eq!(world.known_minerals[0].remaining, map_value);
    assert_eq!(world.known_minerals[0].max_value, map_value);
}

#[test]
fn ignores_unknown_position() {
    let mut world = test_world();
    world.record_known_mineral(pt(99, 99), MineralKind::Energy);
    assert!(world.known_minerals.is_empty());
}

#[test]
fn idle_miner_is_sent_to_a_newly_known_mineral() {
    let mut world = world_with(vec![7], AssignmentStrategy::LeastAssigned);
    assert!(world.is_idle(7));
    let pos = first_mineral_pos(&world);
    let kind = world.map.mineral_at(pos).unwrap().kind;

    world.record_known_mineral(pos, kind);

    assert!(!world.is_idle(7));
    assert_eq!(world.known_minerals[0].assigned_miners, 1);
    assert_eq!(world.take_orders(), vec![MiningOrder { miner_id: 7, pos, kind }]);
    assert!(world.take_orders().is_empty());
}

#[test]
fn no_more_miners_than_units_are_sent() {
    let miners: Vec<u32> = (1..=12).collect();
    let mut world = world_with(miners, AssignmentStrategy::WeightedByValue);
    let pos = first_mineral_pos(&world);
    let mineral = world.map.mineral_at(pos).unwrap();

    world.record_known_mineral(pos, mineral.kind);

    assert_eq!(world.known_minerals[0].assigned_miners, mineral.value);
    assert_eq!(world.take_orders().len() as u32, mineral.value);
}

#[test]
fn delivery_frees_the_slot_and_reassigns() {
    let mut world = world_with(vec![1], AssignmentStrategy::RoundRobin);
    let pos = first_mineral_pos(&world);
    let kind = world.map.mineral_at(pos).unwrap().kind;
    world.record_known_mineral(pos, kind);
    assert_eq!(world.take_orders().len(), 1);

    world.record_miner_arrival(1, pos);
    world.record_resource_delivery(1, pos, 1);

    assert_eq!(world.resources_at_base, 1);
    // The mineral still has units left, so the miner goes straight back.
    assert_eq!(world.known_minerals[0].assigned_miners, 1);
    assert_eq!(world.take_orders(), vec![MiningOrder { miner_id: 1, pos, kind }]);
    assert!(!world.is_idle(1));
}

#[test]
fn least_assigned_prefers_the_mineral_with_fewest_miners() {
    let mut world = world_with(vec![1, 2], AssignmentStrategy::LeastAssigned);
    let minerals = world.map.minerals();
    let (a, ma) = minerals[0];
    let (b, mb) = minerals[1];
    world.record_known_mineral(a, ma.kind);
    world.record_known_mineral(b, mb.kind);
    let orders = world.take_orders();
    // Both miners were sent while only `a` was known; nobody went to `b`.
    assert_eq!(orders.len(), 2.min(ma.value as usize));
    assert!(orders.iter().all(|o| o.pos == a));
}

#[test]
fn events_update_snapshots_and_minerals() {
    let mut world = test_world();
    let snapshot = BotSnapshot { id: 3, kind: BotKind::Scout, pos: pt(1, 1), status: BotStatus::Exploring };
    world.apply_event(BotEvent::BotMoved(snapshot));
    assert_eq!(world.bot_snapshots.get(&3), Some(&snapshot));

    let pos = first_mineral_pos(&world);
    let kind = world.map.mineral_at(pos).unwrap().kind;
    world.apply_event(BotEvent::MineralFound { scout_id: 3, pos, kind });
    assert_eq!(world.known_minerals.len(), 1);

    world.apply_event(BotEvent::MinerArrivedAtMineral { miner_id: 4, pos });
    assert_eq!(world.known_minerals[0].remaining, world.known_minerals[0].max_value - 1);

    world.apply_event(BotEvent::ResourcesDelivered { miner_id: 4, pos, amount: 1 });
    assert_eq!(world.resources_at_base, 1);
}

#[test]
fn pausing_the_world_pauses_its_clock() {
    let mut world = test_world();
    assert!(!world.clock.is_paused());
    world.toggle_pause();
    assert!(world.clock.is_paused());
    world.toggle_pause();
    assert!(!world.clock.is_paused());
}

#[test]
fn assigned_counts_rise_only_by_orders_sent() {
    let mut world = world_with(vec![1, 2, 3], AssignmentStrategy::LeastAssigned);
    let minerals = world.map.minerals();
    let (a, ma) = minerals[0];
    world.record_known_mineral(a, ma.kind);
    let orders = world.take_orders();
    let to_a = orders.iter().filter(|o| o.pos == a).count() as u32;
    assert_eq!(world.known_minerals[0].assigned_miners, to_a);
    let (b, mb) = minerals[1];
    world.record_known_mineral(b, mb.kind);
    let orders = world.take_orders();
    let to_b = orders.iter().filter(|o| o.pos == b).count() as u32;
    assert_eq!(world.known_minerals[1].assigned_miners, to_b);
    assert_eq!(world.known_minerals[0].assigned_miners, to_a);
}
