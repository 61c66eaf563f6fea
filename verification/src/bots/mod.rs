pub mod manager;
pub mod miner;
pub mod movement;
pub mod pathfinding;
pub mod scout;
pub mod search;
pub mod types;
pub mod walks;

pub use manager::{map_fits_bots, plan_bots, BotConfig, BotRoster};
pub use miner::MinerBot;
pub use movement::{MovementProgress, MovementStep};
pub use pathfinding::{miner_path, scout_path, ScoutMemory};
pub use scout::ScoutBot;
pub use types::{
    AssignmentStrategy, BotEvent, BotKind, BotSnapshot, BotStatus, ExplorationBias,
    MinerAlgorithm, MiningOrder, ScoutAlgorithm,
};
