use vstd::prelude::*;

use std::collections::VecDeque;

use crate::bots::movement::{spec_advance, MovementProgress, MovementStep};
use crate::bots::pathfinding::{exploration_plan, miner_path, scout_path, spec_miner_path, ScoutMemory};
use crate::bots::search::opt_view;
use crate::bots::types::{
    BotEvent, BotKind, BotSnapshot, BotStatus, ExplorationBias, MinerAlgorithm, ScoutAlgorithm,
};
use crate::map::{MapView, MineralKind, Point, WorldMap};

verus! {

/// A map whose distances and scores between any two of its tiles fit in `u32`.
pub open spec fn map_small(map: MapView) -> bool {
    9 * (map.width + map.height) + 2 * map.width * map.height + 64 <= u32::MAX
}

/// The event telling where a bot of `kind` is and what it does.
pub open spec fn moved(id: u32, kind: BotKind, pos: Point, status: BotStatus) -> BotEvent {
    BotEvent::BotMoved(BotSnapshot { id, kind, pos, status })
}

pub fn move_event(id: u32, kind: BotKind, pos: Point, status: BotStatus) -> (e: BotEvent)
    ensures
        e == moved(id, kind, pos, status),
{
    BotEvent::BotMoved(BotSnapshot { id, kind, pos, status })
}

/// A path as a queue of tiles.
pub fn deque_of(steps: Vec<Point>) -> (q: VecDeque<Point>)
    ensures
        q@ == steps@,
{
    let mut q: VecDeque<Point> = VecDeque::new();
    let n = steps.len();
    let mut i: usize = 0;
    while i < n
        invariant
            n == steps@.len(),
            i <= n,
            q@ == steps@.take(i as int),
        decreases n - i,
    {
        q.push_back(steps[i]);
        i += 1;
        assert(q@ =~= steps@.take(i as int));
    }
    assert(steps@.take(n as int) =~= steps@);
    q
}

/// What a scout reports after entering `pos`: while carrying news of a mineral it
/// is returning to base, and delivers the news (forgetting it) once on the base
/// tile; otherwise it is exploring, and on finding a mineral it remembers it and
/// drops its path so as to head home.
/// Gives the events, the path left and the news carried.
pub open spec fn spec_report(map: MapView, id: u32, pos: Point, base: Point, path: Seq<Point>, pending: Option<(Point, MineralKind)>) -> (Seq<BotEvent>, Seq<Point>, Option<(Point, MineralKind)>) {
    match pending {
        Some((mineral_pos, kind)) => {
            let m = moved(id, BotKind::Scout, pos, BotStatus::ReturningToBase);
            if pos == base {
                (seq![m, BotEvent::MineralFound { scout_id: id, pos: mineral_pos, kind }], path, None)
            } else {
                (seq![m], path, pending)
            }
        },
        None => {
            let m = moved(id, BotKind::Scout, pos, BotStatus::Exploring);
            match map.mineral_at(pos) {
                Some(mineral) => (seq![m], Seq::empty(), Some((pos, mineral.kind))),
                None => (seq![m], path, None),
            }
        },
    }
}

fn report_scout_step(
    map: &WorldMap,
    id: u32,
    pos: Point,
    base: Point,
    path: &mut VecDeque<Point>,
    pending_discovery: &mut Option<(Point, MineralKind)>,
) -> (events: Vec<BotEvent>)
    requires
        map.wf(),
    ensures
        (events@, final(path)@, *final(pending_discovery)) == spec_report(map@, id, pos, base, old(path)@, *old(pending_discovery)),
{
    let mut events: Vec<BotEvent> = Vec::new();
    match *pending_discovery {
        Some((mineral_pos, kind)) => {
            events.push(move_event(id, BotKind::Scout, pos, BotStatus::ReturningToBase));
            if pos == base {
                events.push(BotEvent::MineralFound { scout_id: id, pos: mineral_pos, kind });
                *pending_discovery = None;
            }
        },
        None => {
            events.push(move_event(id, BotKind::Scout, pos, BotStatus::Exploring));
            match map.mineral_at(pos) {
                Some(mineral) => {
                    *pending_discovery = Some((pos, mineral.kind));
                    path.clear();
                },
                None => {},
            }
        },
    }
    assert(events@ =~= spec_report(map@, id, pos, base, old(path)@, *old(pending_discovery)).0);
    events
}

/// What a scout is: who it is, its algorithm and bias, where it stands, what it
/// remembers, where it is heading and the news it carries.
pub struct ScoutView {
    pub id: u32,
    pub base: Point,
    pub algorithm: ScoutAlgorithm,
    pub bias: ExplorationBias,
    pub pos: Point,
    pub memory: Set<Point>,
    pub path: Seq<Point>,
    pub movement: MovementProgress,
    pub pending: Option<(Point, MineralKind)>,
}

/// One tick of a scout given `plan`, the path it would take if it had none: with an
/// empty path it takes the plan (or stays without one), makes one tick of movement,
/// and on entering a tile remembers it and reports (see `spec_report`).
pub open spec fn spec_scout_tick(s: ScoutView, map: MapView, plan: Option<Seq<Point>>) -> (ScoutView, Seq<BotEvent>) {
    let path0 = if s.path.len() == 0 {
        match plan {
            Some(p) => p,
            None => Seq::empty(),
        }
    } else {
        s.path
    };
    let (m1, path1, step) = spec_advance(s.movement, map, path0);
    match step {
        MovementStep::Arrived(next) => {
            let (events, path2, pending2) = spec_report(map, s.id, next, s.base, path1, s.pending);
            (ScoutView { pos: next, memory: s.memory.insert(next), path: path2, movement: m1, pending: pending2, ..s }, events)
        },
        _ => (ScoutView { path: path1, movement: m1, ..s }, Seq::empty()),
    }
}

/// A scout reports a mineral only from its base tile, and only the mineral it was
/// carrying news of; having reported, it carries no news.
pub proof fn lemma_reports_only_at_base(s: ScoutView, map: MapView, plan: Option<Seq<Point>>, i: int)
    requires
        0 <= i < spec_scout_tick(s, map, plan).1.len(),
        spec_scout_tick(s, map, plan).1[i] is MineralFound,
    ensures
        ({
            let (after, events) = spec_scout_tick(s, map, plan);
            &&& after.pos == s.base
            &&& after.pending is None
            &&& s.pending == Some((events[i]->MineralFound_pos, events[i]->kind))
            &&& events[i]->scout_id == s.id
        }),
{
}

/// News of a mineral is kept until the scout stands on its base, and a scout
/// exploring onto a mineral tile takes news of that mineral and drops its path to
/// head home.
pub proof fn lemma_news_kept_until_base(s: ScoutView, map: MapView, plan: Option<Seq<Point>>)
    ensures
        ({
            let after = spec_scout_tick(s, map, plan).0;
            &&& s.pending is Some && after.pos != s.base ==> after.pending == s.pending
            &&& s.pending is None && after.pos != s.pos && map.mineral_at(after.pos) is Some ==> {
                &&& after.pending == Some((after.pos, map.mineral_at(after.pos)->0.kind))
                &&& after.path.len() == 0
            }
            &&& after.memory == s.memory.insert(after.pos) || after.memory == s.memory
        }),
{
}

/// Every move a scout tick reports is the scout's own, of a scout, and at the tile
/// it stands on after the tick (the tile it just entered), returning to base while
/// it carries news and exploring otherwise; a tick that enters no tile reports
/// nothing.
pub proof fn lemma_scout_reports_where_it_stands(s: ScoutView, map: MapView, plan: Option<Seq<Point>>, i: int)
    requires
        0 <= i < spec_scout_tick(s, map, plan).1.len(),
    ensures
        ({
            let (after, events) = spec_scout_tick(s, map, plan);
            &&& events[i] matches BotEvent::BotMoved(snap) ==> snap.id == s.id && snap.kind == BotKind::Scout && snap.pos == after.pos
            &&& events[0] is BotMoved
            &&& events[0] matches BotEvent::BotMoved(snap) ==> snap.status == (if s.pending is Some { BotStatus::ReturningToBase } else { BotStatus::Exploring })
            &&& after.memory.contains(after.pos)
        }),
{
}

/// The scout, its base and the tile it is entering lie on the map.
pub open spec fn scout_placed(s: ScoutView, map: MapView) -> bool {
    &&& map.in_bounds(s.pos)
    &&& map.in_bounds(s.base)
    &&& (s.movement.target matches Some(t) ==> map.in_bounds(t))
}

/// A plan the scout may make from state `s`: none is needed while it has a path;
/// with news to deliver it is the A* way home; otherwise what its exploration
/// algorithm proposes from where it stands (see `exploration_plan`).
pub open spec fn plan_ok(s: ScoutView, map: MapView, plan: Option<Seq<Point>>) -> bool {
    if s.path.len() > 0 {
        plan is None
    } else if s.pending is Some {
        plan == spec_miner_path(map, s.pos, s.base, MinerAlgorithm::AStar)
    } else {
        exploration_plan(map, s.memory, s.pos, s.base, s.algorithm, s.bias, plan)
    }
}

/// A scout bot.
pub struct ScoutBot {
    pub id: u32,
    pub base: Point,
    pub algorithm: ScoutAlgorithm,
    pub bias: ExplorationBias,
    pos: Point,
    memory: ScoutMemory,
    path: VecDeque<Point>,
    movement: MovementProgress,
    pending_discovery: Option<(Point, MineralKind)>,
}

impl View for ScoutBot {
    type V = ScoutView;

    closed spec fn view(&self) -> ScoutView {
        ScoutView {
            id: self.id,
            base: self.base,
            algorithm: self.algorithm,
            bias: self.bias,
            pos: self.pos,
            memory: self.memory@,
            path: self.path@,
            movement: self.movement,
            pending: self.pending_discovery,
        }
    }
}

impl ScoutBot {
    /// A scout standing on `spawn` that remembers only that tile.
    pub fn new(id: u32, spawn: Point, base: Point, algorithm: ScoutAlgorithm, bias: ExplorationBias) -> (s: ScoutBot)
        ensures
            s@ == (ScoutView {
                id,
                base,
                algorithm,
                bias,
                pos: spawn,
                memory: set![spawn],
                path: Seq::empty(),
                movement: MovementProgress { target: None, ticks_remaining: 0 },
                pending: None,
            }),
    {
        ScoutBot {
            id,
            base,
            algorithm,
            bias,
            pos: spawn,
            memory: ScoutMemory::new(spawn),
            path: VecDeque::new(),
            movement: MovementProgress::default(),
            pending_discovery: None,
        }
    }

    pub fn position(&self) -> (p: Point)
        ensures
            p == self@.pos,
    {
        self.pos
    }

    /// The event a scout sends when it starts: exploring where it stands.
    pub fn start_event(&self) -> (e: BotEvent)
        ensures
            e == moved(self@.id, BotKind::Scout, self@.pos, BotStatus::Exploring),
    {
        move_event(self.id, BotKind::Scout, self.pos, BotStatus::Exploring)
    }

    /// One tick given `plan` (see `spec_scout_tick`).
    pub fn tick_with_plan(&mut self, map: &WorldMap, plan: Option<Vec<Point>>) -> (events: Vec<BotEvent>)
        requires
            map.wf(),
        ensures
            (final(self)@, events@) == spec_scout_tick(old(self)@, map@, opt_view(plan)),
    {
        if self.path.len() == 0 {
            self.path = match plan {
                Some(steps) => deque_of(steps),
                None => VecDeque::new(),
            };
        }
        match self.movement.advance(map, &mut self.path) {
            MovementStep::Arrived(next) => {
                self.pos = next;
                self.memory.mark_visited(next);
                report_scout_step(map, self.id, next, self.base, &mut self.path, &mut self.pending_discovery)
            },
            MovementStep::Waiting => Vec::new(),
            MovementStep::Idle => Vec::new(),
        }
    }

    /// One tick: when the scout has no path it plans one (home with news, else by
    /// its exploration algorithm), then it moves and reports.
    pub fn tick(&mut self, map: &WorldMap) -> (events: Vec<BotEvent>)
        requires
            map.wf(),
            map_small(map@),
            scout_placed(old(self)@, map@),
        ensures
            scout_placed(final(self)@, map@),
            exists|plan: Option<Seq<Point>>| plan_ok(old(self)@, map@, plan) && #[trigger] spec_scout_tick(old(self)@, map@, plan) == (final(self)@, events@),
    {
        let plan = if self.path.len() == 0 {
            if self.pending_discovery.is_some() {
                miner_path(map, self.pos, self.base, MinerAlgorithm::AStar)
            } else {
                scout_path(map, &self.memory, self.pos, self.base, self.algorithm, self.bias)
            }
        } else {
            None
        };
        let ghost p = opt_view(plan);
        let events = self.tick_with_plan(map, plan);
        assert(plan_ok(old(self)@, map@, p));
        events
    }
}

} // verus!
