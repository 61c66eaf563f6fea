use vstd::prelude::*;

use crate::map::{MineralKind, Point};

verus! {

/// The compass direction a scout prefers to explore in.
#[derive(Debug, Clone, Copy, PartialEq, Eq, Structural)]
pub enum ExplorationBias {
    West,
    East,
    North,
    South,
}

/// `a - b` when `a > b`, zero otherwise.
pub open spec fn sat_diff(a: int, b: int) -> int {
    if a > b { a - b } else { 0 }
}

impl ExplorationBias {
    /// The bias given to the scout with id `id`: the four directions in turn.
    pub open spec fn spec_for_scout(id: u32) -> ExplorationBias {
        let r = id % 4;
        if r == 0 {
            ExplorationBias::West
        } else if r == 1 {
            ExplorationBias::East
        } else if r == 2 {
            ExplorationBias::North
        } else {
            ExplorationBias::South
        }
    }

    /// How far `point` lies from `base` against the preferred direction,
    /// truncated to 32 bits as the distance is narrowed to `u32`.
    pub open spec fn spec_penalty(self, point: Point, base: Point) -> u32 {
        match self {
            ExplorationBias::West => sat_diff(point.x as int, base.x as int) as u32,
            ExplorationBias::East => sat_diff(base.x as int, point.x as int) as u32,
            ExplorationBias::North => sat_diff(point.y as int, base.y as int) as u32,
            ExplorationBias::South => sat_diff(base.y as int, point.y as int) as u32,
        }
    }

    pub open spec fn spec_step_bonus(self, from: Point, to: Point, base: Point) -> u32 {
        let f = self.spec_penalty(from, base);
        let t = self.spec_penalty(to, base);
        if t < f {
            4
        } else if t == f {
            1
        } else {
            0
        }
    }

    pub fn for_scout(id: u32) -> (bias: Self)
        ensures
            bias == Self::spec_for_scout(id),
    {
        let r = id % 4;
        if r == 0 {
            ExplorationBias::West
        } else if r == 1 {
            ExplorationBias::East
        } else if r == 2 {
            ExplorationBias::North
        } else {
            ExplorationBias::South
        }
    }

    pub fn penalty(self, point: Point, base: Point) -> (p: u32)
        ensures
            p == self.spec_penalty(point, base),
    {
        match self {
            ExplorationBias::West => point.x.saturating_sub(base.x) as u32,
            ExplorationBias::East => base.x.saturating_sub(point.x) as u32,
            ExplorationBias::North => point.y.saturating_sub(base.y) as u32,
            ExplorationBias::South => base.y.saturating_sub(point.y) as u32,
        }
    }

    pub fn step_bonus(self, from: Point, to: Point, base: Point) -> (b: u32)
        ensures
            b == self.spec_step_bonus(from, to, base),
    {
        let from_penalty = self.penalty(from, base);
        let to_penalty = self.penalty(to, base);
        if to_penalty < from_penalty {
            4
        } else if to_penalty == from_penalty {
            1
        } else {
            0
        }
    }
}


/// The exploration strategy of scouts.
#[derive(Debug, Clone, Copy, PartialEq, Eq, Structural)]
pub enum ScoutAlgorithm {
    FrontierWavefront,
    AStarExploration,
    RandomWalkCostBias,
    Bfs,
    Dfs,
}

impl ScoutAlgorithm {
    /// Every variant, in the order the options screen cycles through them.
    pub const ALL: [Self; 5] = [Self::FrontierWavefront, Self::AStarExploration, Self::RandomWalkCostBias, Self::Bfs, Self::Dfs];

    /// Position of the variant in `ALL`.
    pub open spec fn ordinal(self) -> nat {
        match self {
            ScoutAlgorithm::FrontierWavefront => 0,
            ScoutAlgorithm::AStarExploration => 1,
            ScoutAlgorithm::RandomWalkCostBias => 2,
            ScoutAlgorithm::Bfs => 3,
            ScoutAlgorithm::Dfs => 4,
        }
    }

    /// The variant at position `i % 5` of `ALL`.
    pub open spec fn at_ordinal(i: int) -> ScoutAlgorithm {
        let r = i % 5;
        if r == 0 {
            ScoutAlgorithm::FrontierWavefront
        } else if r == 1 {
            ScoutAlgorithm::AStarExploration
        } else if r == 2 {
            ScoutAlgorithm::RandomWalkCostBias
        } else if r == 3 {
            ScoutAlgorithm::Bfs
        } else {
            ScoutAlgorithm::Dfs
        }
    }

    pub open spec fn spec_label(self) -> Seq<char> {
        match self {
            ScoutAlgorithm::FrontierWavefront => "Frontier"@,
            ScoutAlgorithm::AStarExploration => "A* explore"@,
            ScoutAlgorithm::RandomWalkCostBias => "Random cost"@,
            ScoutAlgorithm::Bfs => "BFS"@,
            ScoutAlgorithm::Dfs => "DFS"@,
        }
    }

    /// The short name shown on the options screen.
    pub fn label(self) -> (s: &'static str)
        ensures
            s@ == self.spec_label(),
    {
        match self {
            ScoutAlgorithm::FrontierWavefront => "Frontier",
            ScoutAlgorithm::AStarExploration => "A* explore",
            ScoutAlgorithm::RandomWalkCostBias => "Random cost",
            ScoutAlgorithm::Bfs => "BFS",
            ScoutAlgorithm::Dfs => "DFS",
        }
    }

    /// The variant before this one in `ALL`, wrapping around.
    pub fn previous(self) -> (r: Self)
        ensures
            r.ordinal() == (self.ordinal() + 4) % 5,
            r == Self::at_ordinal(self.ordinal() + 4int),
    {
        match self {
            ScoutAlgorithm::FrontierWavefront => ScoutAlgorithm::Dfs,
            ScoutAlgorithm::AStarExploration => ScoutAlgorithm::FrontierWavefront,
            ScoutAlgorithm::RandomWalkCostBias => ScoutAlgorithm::AStarExploration,
            ScoutAlgorithm::Bfs => ScoutAlgorithm::RandomWalkCostBias,
            ScoutAlgorithm::Dfs => ScoutAlgorithm::Bfs,
        }
    }

    /// The variant after this one in `ALL`, wrapping around.
    pub fn next(self) -> (r: Self)
        ensures
            r.ordinal() == (self.ordinal() + 1) % 5,
            r == Self::at_ordinal(self.ordinal() + 1int),
    {
        match self {
            ScoutAlgorithm::FrontierWavefront => ScoutAlgorithm::AStarExploration,
            ScoutAlgorithm::AStarExploration => ScoutAlgorithm::RandomWalkCostBias,
            ScoutAlgorithm::RandomWalkCostBias => ScoutAlgorithm::Bfs,
            ScoutAlgorithm::Bfs => ScoutAlgorithm::Dfs,
            ScoutAlgorithm::Dfs => ScoutAlgorithm::FrontierWavefront,
        }
    }
}

/// The path search that miners use.
#[derive(Debug, Clone, Copy, PartialEq, Eq, Structural)]
pub enum MinerAlgorithm {
    AStar,
    Dijkstra,
    Bidirectional,
}

impl MinerAlgorithm {
    /// Every variant, in the order the options screen cycles through them.
    pub const ALL: [Self; 3] = [Self::AStar, Self::Dijkstra, Self::Bidirectional];

    /// Position of the variant in `ALL`.
    pub open spec fn ordinal(self) -> nat {
        match self {
            MinerAlgorithm::AStar => 0,
            MinerAlgorithm::Dijkstra => 1,
            MinerAlgorithm::Bidirectional => 2,
        }
    }

    /// The variant at position `i % 3` of `ALL`.
    pub open spec fn at_ordinal(i: int) -> MinerAlgorithm {
        let r = i % 3;
        if r == 0 {
            MinerAlgorithm::AStar
        } else if r == 1 {
            MinerAlgorithm::Dijkstra
        } else {
            MinerAlgorithm::Bidirectional
        }
    }

    pub open spec fn spec_label(self) -> Seq<char> {
        match self {
            MinerAlgorithm::AStar => "A*"@,
            MinerAlgorithm::Dijkstra => "Dijkstra"@,
            MinerAlgorithm::Bidirectional => "Bidirectional"@,
        }
    }

    /// The short name shown on the options screen.
    pub fn label(self) -> (s: &'static str)
        ensures
            s@ == self.spec_label(),
    {
        match self {
            MinerAlgorithm::AStar => "A*",
            MinerAlgorithm::Dijkstra => "Dijkstra",
            MinerAlgorithm::Bidirectional => "Bidirectional",
        }
    }

    /// The variant before this one in `ALL`, wrapping around.
    pub fn previous(self) -> (r: Self)
        ensures
            r.ordinal() == (self.ordinal() + 2) % 3,
            r == Self::at_ordinal(self.ordinal() + 2int),
    {
        match self {
            MinerAlgorithm::AStar => MinerAlgorithm::Bidirectional,
            MinerAlgorithm::Dijkstra => MinerAlgorithm::AStar,
            MinerAlgorithm::Bidirectional => MinerAlgorithm::Dijkstra,
        }
    }

    /// The variant after this one in `ALL`, wrapping around.
    pub fn next(self) -> (r: Self)
        ensures
            r.ordinal() == (self.ordinal() + 1) % 3,
            r == Self::at_ordinal(self.ordinal() + 1int),
    {
        match self {
            MinerAlgorithm::AStar => MinerAlgorithm::Dijkstra,
            MinerAlgorithm::Dijkstra => MinerAlgorithm::Bidirectional,
            MinerAlgorithm::Bidirectional => MinerAlgorithm::AStar,
        }
    }
}

/// How idle miners are matched with known minerals.
#[derive(Debug, Clone, Copy, PartialEq, Eq, Structural)]
pub enum AssignmentStrategy {
    LeastAssigned,
    RoundRobin,
    WeightedByValue,
}

impl AssignmentStrategy {
    /// Every variant, in the order the options screen cycles through them.
    pub const ALL: [Self; 3] = [Self::LeastAssigned, Self::RoundRobin, Self::WeightedByValue];

    /// Position of the variant in `ALL`.
    pub open spec fn ordinal(self) -> nat {
        match self {
            AssignmentStrategy::LeastAssigned => 0,
            AssignmentStrategy::RoundRobin => 1,
            AssignmentStrategy::WeightedByValue => 2,
        }
    }

    /// The variant at position `i % 3` of `ALL`.
    pub open spec fn at_ordinal(i: int) -> AssignmentStrategy {
        let r = i % 3;
        if r == 0 {
            AssignmentStrategy::LeastAssigned
        } else if r == 1 {
            AssignmentStrategy::RoundRobin
        } else {
            AssignmentStrategy::WeightedByValue
        }
    }

    pub open spec fn spec_label(self) -> Seq<char> {
        match self {
            AssignmentStrategy::LeastAssigned => "Least assigned"@,
            AssignmentStrategy::RoundRobin => "Round robin"@,
            AssignmentStrategy::WeightedByValue => "Weighted value"@,
        }
    }

    /// The short name shown on the options screen.
    pub fn label(self) -> (s: &'static str)
        ensures
            s@ == self.spec_label(),
    {
        match self {
            AssignmentStrategy::LeastAssigned => "Least assigned",
            AssignmentStrategy::RoundRobin => "Round robin",
            AssignmentStrategy::WeightedByValue => "Weighted value",
        }
    }

    /// The variant before this one in `ALL`, wrapping around.
    pub fn previous(self) -> (r: Self)
        ensures
            r.ordinal() == (self.ordinal() + 2) % 3,
            r == Self::at_ordinal(self.ordinal() + 2int),
    {
        match self {
            AssignmentStrategy::LeastAssigned => AssignmentStrategy::WeightedByValue,
            AssignmentStrategy::RoundRobin => AssignmentStrategy::LeastAssigned,
            AssignmentStrategy::WeightedByValue => AssignmentStrategy::RoundRobin,
        }
    }

    /// The variant after this one in `ALL`, wrapping around.
    pub fn next(self) -> (r: Self)
        ensures
            r.ordinal() == (self.ordinal() + 1) % 3,
            r == Self::at_ordinal(self.ordinal() + 1int),
    {
        match self {
            AssignmentStrategy::LeastAssigned => AssignmentStrategy::RoundRobin,
            AssignmentStrategy::RoundRobin => AssignmentStrategy::WeightedByValue,
            AssignmentStrategy::WeightedByValue => AssignmentStrategy::LeastAssigned,
        }
    }
}

#[derive(Debug, Clone, Copy, PartialEq, Eq, Structural)]
pub enum BotKind {
    Scout,
    Miner,
}

#[derive(Debug, Clone, Copy, PartialEq, Eq, Structural)]
pub enum BotStatus {
    Idle,
    Exploring,
    Moving,
    Mining,
    ReturningToBase,
}

/// An instruction for miner `miner_id` to harvest the mineral at `pos`.
#[derive(Debug, Clone, Copy, PartialEq, Eq, Structural)]
pub struct MiningOrder {
    pub miner_id: u32,
    pub pos: Point,
    pub kind: MineralKind,
}

/// Where a bot is and what it is doing.
#[derive(Debug, Clone, Copy, PartialEq, Eq, Structural)]
pub struct BotSnapshot {
    pub id: u32,
    pub kind: BotKind,
    pub pos: Point,
    pub status: BotStatus,
}

/// What bots report to the game world.
#[derive(Debug, Clone, Copy, PartialEq, Eq, Structural)]
pub enum BotEvent {
    MineralFound { scout_id: u32, pos: Point, kind: MineralKind },
    MinerArrivedAtMineral { miner_id: u32, pos: Point },
    ResourcesDelivered { miner_id: u32, pos: Point, amount: u32 },
    BotMoved(BotSnapshot),
}


/// Stepping back then forward through an option list returns to where one started,
/// and so does stepping forward then back: `next` and `previous` undo each other.
pub proof fn lemma_option_cycles_invert(s: ScoutAlgorithm, m: MinerAlgorithm, a: AssignmentStrategy)
    ensures
        ScoutAlgorithm::at_ordinal(ScoutAlgorithm::at_ordinal(s.ordinal() + 1int).ordinal() + 4int) == s,
        ScoutAlgorithm::at_ordinal(ScoutAlgorithm::at_ordinal(s.ordinal() + 4int).ordinal() + 1int) == s,
        MinerAlgorithm::at_ordinal(MinerAlgorithm::at_ordinal(m.ordinal() + 1int).ordinal() + 2int) == m,
        MinerAlgorithm::at_ordinal(MinerAlgorithm::at_ordinal(m.ordinal() + 2int).ordinal() + 1int) == m,
        AssignmentStrategy::at_ordinal(AssignmentStrategy::at_ordinal(a.ordinal() + 1int).ordinal() + 2int) == a,
        AssignmentStrategy::at_ordinal(AssignmentStrategy::at_ordinal(a.ordinal() + 2int).ordinal() + 1int) == a,
{
}

/// Every option list is a cycle through all of its variants: `ordinal` and
/// `at_ordinal` are inverse, so repeated `next` visits each variant once per lap.
pub proof fn lemma_ordinals_enumerate(s: ScoutAlgorithm, m: MinerAlgorithm, a: AssignmentStrategy)
    ensures
        ScoutAlgorithm::at_ordinal(s.ordinal() as int) == s,
        s.ordinal() < 5,
        MinerAlgorithm::at_ordinal(m.ordinal() as int) == m,
        m.ordinal() < 3,
        AssignmentStrategy::at_ordinal(a.ordinal() as int) == a,
        a.ordinal() < 3,
{
}

/// No two variants of an option list share a label.
pub proof fn lemma_labels_distinct()
    ensures
        forall|a: ScoutAlgorithm, b: ScoutAlgorithm| a != b ==> #[trigger] a.spec_label() != #[trigger] b.spec_label(),
        forall|a: MinerAlgorithm, b: MinerAlgorithm| a != b ==> #[trigger] a.spec_label() != #[trigger] b.spec_label(),
        forall|a: AssignmentStrategy, b: AssignmentStrategy| a != b ==> #[trigger] a.spec_label() != #[trigger] b.spec_label(),
{
    reveal_strlit("Frontier");
    reveal_strlit("A* explore");
    reveal_strlit("Random cost");
    reveal_strlit("BFS");
    reveal_strlit("DFS");
    reveal_strlit("A*");
    reveal_strlit("Dijkstra");
    reveal_strlit("Bidirectional");
    reveal_strlit("Least assigned");
    reveal_strlit("Round robin");
    reveal_strlit("Weighted value");
    assert("BFS"@[0] != "DFS"@[0]);
    assert("Least assigned"@[0] != "Weighted value"@[0]);
    assert forall|a: ScoutAlgorithm, b: ScoutAlgorithm| a != b implies #[trigger] a.spec_label() != #[trigger] b.spec_label() by {
        if a.spec_label() == b.spec_label() {
            assert(a.spec_label().len() == b.spec_label().len());
            assert(a.spec_label()[0] == b.spec_label()[0]);
        }
    }
    assert forall|a: MinerAlgorithm, b: MinerAlgorithm| a != b implies #[trigger] a.spec_label() != #[trigger] b.spec_label() by {
        if a.spec_label() == b.spec_label() {
            assert(a.spec_label().len() == b.spec_label().len());
        }
    }
    assert forall|a: AssignmentStrategy, b: AssignmentStrategy| a != b implies #[trigger] a.spec_label() != #[trigger] b.spec_label() by {
        if a.spec_label() == b.spec_label() {
            assert(a.spec_label().len() == b.spec_label().len());
            assert(a.spec_label()[0] == b.spec_label()[0]);
        }
    }
}

/// Scout biases repeat with period four.
pub proof fn lemma_scout_bias_period(id: u32)
    requires
        id + 4 <= u32::MAX,
    ensures
        ExplorationBias::spec_for_scout((id + 4) as u32) == ExplorationBias::spec_for_scout(id),
{
}

} // verus!
