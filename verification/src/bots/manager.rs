use vstd::prelude::*;

use crate::bots::miner::{map_fits_orders, MinerBot, MinerView};
use crate::bots::movement::MovementProgress;
use crate::bots::scout::{map_small, ScoutBot, ScoutView};
use crate::bots::search::random_below;
use crate::bots::types::{AssignmentStrategy, ExplorationBias, MinerAlgorithm, ScoutAlgorithm};
use crate::map::{Point, WorldMap};

verus! {

/// How many bots of each kind to send out and which algorithms they use.
#[derive(Debug, Clone, Copy, PartialEq, Eq, Structural)]
pub struct BotConfig {
    pub scout_count: u32,
    pub miner_count: u32,
    pub scout_algorithm: ScoutAlgorithm,
    pub miner_algorithm: MinerAlgorithm,
    pub assignment_strategy: AssignmentStrategy,
}

impl BotConfig {
    pub open spec fn spec_default() -> BotConfig {
        BotConfig {
            scout_count: 3,
            miner_count: 2,
            scout_algorithm: ScoutAlgorithm::FrontierWavefront,
            miner_algorithm: MinerAlgorithm::AStar,
            assignment_strategy: AssignmentStrategy::LeastAssigned,
        }
    }
}

impl Default for BotConfig {
    fn default() -> (c: Self)
        ensures
            c == BotConfig::spec_default(),
    {
        BotConfig {
            scout_count: 3,
            miner_count: 2,
            scout_algorithm: ScoutAlgorithm::FrontierWavefront,
            miner_algorithm: MinerAlgorithm::AStar,
            assignment_strategy: AssignmentStrategy::LeastAssigned,
        }
    }
}

/// The bots of a game, before they are set running.
pub struct BotRoster {
    pub scouts: Vec<ScoutBot>,
    pub miners: Vec<MinerBot>,
}

/// Scout `i` of a roster: id `i`, fresh, on one of the base tiles, with the
/// configured algorithm and the `i`-th bias.
pub open spec fn fresh_scout(s: ScoutView, i: int, base: Point, tiles: Seq<Point>, config: BotConfig) -> bool {
    &&& s.id == i
    &&& tiles.contains(s.pos)
    &&& s == (ScoutView {
        id: i as u32,
        base,
        algorithm: config.scout_algorithm,
        bias: ExplorationBias::spec_for_scout(i as u32),
        pos: s.pos,
        memory: set![s.pos],
        path: Seq::empty(),
        movement: MovementProgress { target: None, ticks_remaining: 0 },
        pending: None,
    })
}

/// Miner `i` of a roster: id `scout_count + i`, idle on the base, with the configured algorithm.
pub open spec fn fresh_miner(m: MinerView, i: int, base: Point, config: BotConfig) -> bool {
    m == (MinerView {
        id: (config.scout_count + i) as u32,
        base,
        algorithm: config.miner_algorithm,
        pos: base,
        active_order: None,
        returning_to_base: false,
        path: Seq::empty(),
        movement: MovementProgress { target: None, ticks_remaining: 0 },
    })
}

/// The bots of a new game on `map`: none without a base; otherwise `scout_count`
/// scouts, each on a base tile drawn by chance, then `miner_count` miners on the
/// base, numbered after the scouts.
pub fn plan_bots(map: &WorldMap, config: BotConfig) -> (r: BotRoster)
    requires
        map.wf(),
        config.scout_count + config.miner_count <= u32::MAX,
    ensures
        match WorldMap::spec_base_center(map@) {
            None => r.scouts@.len() == 0 && r.miners@.len() == 0,
            Some(base) => {
                let b = map@.base.unwrap().coordinates;
                let tiles = seq![b.0, b.1, b.2, b.3];
                &&& r.scouts@.len() == config.scout_count
                &&& r.miners@.len() == config.miner_count
                &&& forall|i: int| 0 <= i < r.scouts@.len() ==> fresh_scout(#[trigger] r.scouts@[i]@, i, base, tiles, config)
                &&& forall|i: int| 0 <= i < r.miners@.len() ==> fresh_miner(#[trigger] r.miners@[i]@, i, base, config)
            },
        },
{
    let mut scouts: Vec<ScoutBot> = Vec::new();
    let mut miners: Vec<MinerBot> = Vec::new();
    let base = match map.base_center() {
        Some(b) => b,
        None => return BotRoster { scouts, miners },
    };
    let spawn_tiles = match map.base_tiles() {
        Some(t) => t,
        None => [base, base, base, base],
    };
    let ghost b = map@.base.unwrap().coordinates;
    let ghost tiles = seq![b.0, b.1, b.2, b.3];
    assert(spawn_tiles@ == tiles);
    let mut id: u32 = 0;
    while id < config.scout_count
        invariant
            spawn_tiles@ == tiles,
            id <= config.scout_count,
            scouts@.len() == id,
            forall|i: int| 0 <= i < scouts@.len() ==> fresh_scout(#[trigger] scouts@[i]@, i, base, tiles, config),
        decreases config.scout_count - id,
    {
        let k = random_below(4);
        let spawn = spawn_tiles[k];
        assert(tiles[k as int] == spawn);
        let scout = ScoutBot::new(id, spawn, base, config.scout_algorithm, ExplorationBias::for_scout(id));
        scouts.push(scout);
        id += 1;
    }
    let mut index: u32 = 0;
    while index < config.miner_count
        invariant
            config.scout_count + config.miner_count <= u32::MAX,
            index <= config.miner_count,
            miners@.len() == index,
            forall|i: int| 0 <= i < miners@.len() ==> fresh_miner(#[trigger] miners@[i]@, i, base, config),
        decreases config.miner_count - index,
    {
        let miner = MinerBot::new(config.scout_count + index, base, config.miner_algorithm);
        miners.push(miner);
        index += 1;
    }
    BotRoster { scouts, miners }
}


/// Whether scouts and miners can run on `map`: its distances, path costs and
/// scores fit in `u32`.
pub fn map_fits_bots(map: &WorldMap) -> (b: bool)
    requires
        map.wf(),
    ensures
        b == (map_small(map@) && map_fits_orders(map@)),
{
    let (w, h) = map.size();
    let w = w as u128;
    let h = h as u128;
    assert(w * h <= usize::MAX);
    assert(w * h <= u64::MAX);
    let area = w * h;
    assert(2 * map@.width * map@.height == 2 * area) by (nonlinear_arith)
        requires
            area == map@.width * map@.height;
    let scout_bound = 9 * (w + h) + 2 * area + 64;
    let miner_bound = 4 * (w + h) + 2 * area + 2;
    scout_bound <= u32::MAX as u128 && miner_bound <= u32::MAX as u128
}

} // verus!
