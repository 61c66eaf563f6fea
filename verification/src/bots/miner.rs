use vstd::prelude::*;

use std::collections::VecDeque;

use crate::bots::movement::{spec_advance, MovementProgress, MovementStep};
use crate::bots::pathfinding::{miner_path, spec_miner_path};
use crate::bots::scout::{deque_of, move_event, moved};
use crate::bots::search::search_fits;
use crate::bots::types::{BotEvent, BotKind, BotStatus, MinerAlgorithm, MiningOrder};
use crate::map::{MapView, Point, WorldMap};

verus! {

/// A path, or no path at all.
pub open spec fn path_or_empty(p: Option<Seq<Point>>) -> Seq<Point> {
    match p {
        Some(s) => s,
        None => Seq::empty(),
    }
}

/// What a miner is: who it is, its base and path search, where it stands, the order
/// it works on, whether it is on its way home, its path and its movement.
pub struct MinerView {
    pub id: u32,
    pub base: Point,
    pub algorithm: MinerAlgorithm,
    pub pos: Point,
    pub active_order: Option<MiningOrder>,
    pub returning_to_base: bool,
    pub path: Seq<Point>,
    pub movement: MovementProgress,
}

/// The end of a leg: at the mineral the miner reports its arrival, starts mining and
/// heads home; at home it delivers one unit and becomes idle.
pub open spec fn spec_complete_phase(m: MinerView, map: MapView) -> (MinerView, Seq<BotEvent>) {
    match m.active_order {
        None => (m, Seq::empty()),
        Some(order) => if !m.returning_to_base {
            (
                MinerView { path: path_or_empty(spec_miner_path(map, m.pos, m.base, m.algorithm)), returning_to_base: true, ..m },
                seq![
                    BotEvent::MinerArrivedAtMineral { miner_id: m.id, pos: order.pos },
                    moved(m.id, BotKind::Miner, m.pos, BotStatus::Mining),
                ],
            )
        } else {
            (
                MinerView { active_order: None, returning_to_base: false, ..m },
                seq![
                    BotEvent::ResourcesDelivered { miner_id: m.id, pos: order.pos, amount: 1 },
                    moved(m.id, BotKind::Miner, m.pos, BotStatus::Idle),
                ],
            )
        },
    }
}

/// One tick of a miner that received `received` from the order queue (it only reads
/// the queue while it has no order): an idle miner takes an order addressed to it
/// and plans the way there, or else reports that it is idle. A busy miner moves one
/// tick along its path, reporting each tile it enters; when it has nowhere left to
/// go it completes the current leg (see `spec_complete_phase`).
pub open spec fn spec_miner_tick(m: MinerView, map: MapView, received: Option<MiningOrder>) -> (MinerView, Seq<BotEvent>) {
    let idle = moved(m.id, BotKind::Miner, m.pos, BotStatus::Idle);
    let started = match received {
        Some(order) => if m.active_order is None && order.miner_id == m.id {
            Some(MinerView {
                path: path_or_empty(spec_miner_path(map, m.pos, order.pos, m.algorithm)),
                active_order: Some(order),
                returning_to_base: false,
                ..m
            })
        } else {
            None
        },
        None => None,
    };
    if m.active_order is None && started is None {
        (m, seq![idle])
    } else {
        let m0 = match started {
            Some(s) => s,
            None => m,
        };
        let (mv, path1, step) = spec_advance(m0.movement, map, m0.path);
        let m1 = MinerView { movement: mv, path: path1, ..m0 };
        match step {
            MovementStep::Arrived(next) => {
                let status = if m1.returning_to_base { BotStatus::ReturningToBase } else { BotStatus::Moving };
                (MinerView { pos: next, ..m1 }, seq![moved(m1.id, BotKind::Miner, next, status)])
            },
            MovementStep::Waiting => (m1, Seq::empty()),
            MovementStep::Idle => spec_complete_phase(m1, map),
        }
    }
}

/// Every move a miner tick reports is the miner's own, of a miner, and at the tile
/// it stands on after the tick: the tile it just entered, or where it stays.
pub proof fn lemma_miner_reports_where_it_stands(m: MinerView, map: MapView, received: Option<MiningOrder>, i: int)
    requires
        0 <= i < spec_miner_tick(m, map, received).1.len(),
    ensures
        ({
            let (after, events) = spec_miner_tick(m, map, received);
            events[i] matches BotEvent::BotMoved(snap) ==> snap.id == m.id && snap.kind == BotKind::Miner && snap.pos == after.pos
        }),
{
}

/// When a miner tick enters a tile, the miner stands there afterwards and its one
/// event reports it there, heading home or moving out as it is; otherwise it has
/// not moved.
pub proof fn lemma_miner_moves_one_tile_per_report(m: MinerView, map: MapView, received: Option<MiningOrder>)
    ensures
        ({
            let (after, events) = spec_miner_tick(m, map, received);
            after.pos != m.pos ==> (events.len() == 1 && (events[0] matches BotEvent::BotMoved(snap) && snap.pos == after.pos
                && snap.status == (if after.returning_to_base { BotStatus::ReturningToBase } else { BotStatus::Moving })))
        }),
{
}

/// A miner delivers exactly one unit, for the order it worked on and only when the
/// leg home ends; it is then idle.
pub proof fn lemma_delivers_one_unit_on_return(m: MinerView, map: MapView, received: Option<MiningOrder>, i: int)
    requires
        0 <= i < spec_miner_tick(m, map, received).1.len(),
        spec_miner_tick(m, map, received).1[i] is ResourcesDelivered,
    ensures
        ({
            let (after, events) = spec_miner_tick(m, map, received);
            &&& events[i]->ResourcesDelivered_amount == 1
            &&& events[i]->ResourcesDelivered_miner_id == m.id
            &&& m.active_order matches Some(o) && events[i]->ResourcesDelivered_pos == o.pos
            &&& m.returning_to_base
            &&& after.active_order is None
            &&& !after.returning_to_base
        }),
{
}

/// A miner reports reaching its mineral only at the end of the leg out, and then
/// turns for home.
pub proof fn lemma_arrival_turns_home(m: MinerView, map: MapView, received: Option<MiningOrder>, i: int)
    requires
        0 <= i < spec_miner_tick(m, map, received).1.len(),
        spec_miner_tick(m, map, received).1[i] is MinerArrivedAtMineral,
    ensures
        ({
            let (after, events) = spec_miner_tick(m, map, received);
            &&& !m.returning_to_base || m.active_order is None
            &&& after.returning_to_base
            &&& after.active_order matches Some(o) && events[i] == (BotEvent::MinerArrivedAtMineral { miner_id: m.id, pos: o.pos })
        }),
{
}

/// A miner only takes an order addressed to it, and only while it has none: after a
/// tick it works on the order it had, on the order it received, or on none.
pub proof fn lemma_takes_only_its_orders(m: MinerView, map: MapView, received: Option<MiningOrder>)
    ensures
        ({
            let after = spec_miner_tick(m, map, received).0;
            ||| after.active_order is None
            ||| after.active_order == m.active_order
            ||| (m.active_order is None && after.active_order == received && received->0.miner_id == m.id)
        }),
{
}

/// A miner bot.
pub struct MinerBot {
    pub id: u32,
    pub base: Point,
    pub algorithm: MinerAlgorithm,
    pos: Point,
    active_order: Option<MiningOrder>,
    returning_to_base: bool,
    path: VecDeque<Point>,
    movement: MovementProgress,
}

impl View for MinerBot {
    type V = MinerView;

    closed spec fn view(&self) -> MinerView {
        MinerView {
            id: self.id,
            base: self.base,
            algorithm: self.algorithm,
            pos: self.pos,
            active_order: self.active_order,
            returning_to_base: self.returning_to_base,
            path: self.path@,
            movement: self.movement,
        }
    }
}

/// The miner, its base and the tile it is entering lie on the map.
pub open spec fn miner_placed(m: MinerView, map: MapView) -> bool {
    &&& map.in_bounds(m.pos)
    &&& map.in_bounds(m.base)
    &&& (m.movement.target matches Some(t) ==> map.in_bounds(t))
}

impl MinerBot {
    /// An idle miner standing on its base.
    pub fn new(id: u32, base: Point, algorithm: MinerAlgorithm) -> (m: MinerBot)
        ensures
            m@ == (MinerView {
                id,
                base,
                algorithm,
                pos: base,
                active_order: None,
                returning_to_base: false,
                path: Seq::empty(),
                movement: MovementProgress { target: None, ticks_remaining: 0 },
            }),
    {
        MinerBot {
            id,
            base,
            algorithm,
            pos: base,
            active_order: None,
            returning_to_base: false,
            path: VecDeque::new(),
            movement: MovementProgress::default(),
        }
    }

    pub fn position(&self) -> (p: Point)
        ensures
            p == self@.pos,
    {
        self.pos
    }

    /// The miner reads its order queue only while it has no order.
    pub fn wants_order(&self) -> (b: bool)
        ensures
            b == self@.active_order is None,
    {
        self.active_order.is_none()
    }

    /// The event a miner sends when it starts: idle where it stands.
    pub fn start_event(&self) -> (e: BotEvent)
        ensures
            e == moved(self@.id, BotKind::Miner, self@.pos, BotStatus::Idle),
    {
        move_event(self.id, BotKind::Miner, self.pos, BotStatus::Idle)
    }

    fn complete_phase(&mut self, map: &WorldMap) -> (events: Vec<BotEvent>)
        requires
            map.wf(),
            search_fits(map@, old(self)@.base),
        ensures
            (final(self)@, events@) == spec_complete_phase(old(self)@, map@),
    {
        let order = match self.active_order {
            Some(o) => o,
            None => return Vec::new(),
        };
        let mut events: Vec<BotEvent> = Vec::new();
        if !self.returning_to_base {
            events.push(BotEvent::MinerArrivedAtMineral { miner_id: self.id, pos: order.pos });
            events.push(move_event(self.id, BotKind::Miner, self.pos, BotStatus::Mining));
            self.path = match miner_path(map, self.pos, self.base, self.algorithm) {
                Some(steps) => deque_of(steps),
                None => VecDeque::new(),
            };
            self.returning_to_base = true;
        } else {
            events.push(BotEvent::ResourcesDelivered { miner_id: self.id, pos: order.pos, amount: 1 });
            self.active_order = None;
            self.returning_to_base = false;
            events.push(move_event(self.id, BotKind::Miner, self.pos, BotStatus::Idle));
        }
        assert(events@ =~= spec_complete_phase(old(self)@, map@).1);
        events
    }

    /// One tick (see `spec_miner_tick`); `received` is what was read from the order
    /// queue, which is only read while the miner wants an order.
    pub fn tick(&mut self, map: &WorldMap, received: Option<MiningOrder>) -> (events: Vec<BotEvent>)
        requires
            map.wf(),
            map_fits_orders(map@),
            miner_placed(old(self)@, map@),
            received is Some ==> old(self)@.active_order is None,
        ensures
            (final(self)@, events@) == spec_miner_tick(old(self)@, map@, received),
            miner_placed(final(self)@, map@),
    {
        if self.active_order.is_none() {
            let started = match received {
                Some(order) => {
                    if order.miner_id == self.id {
                        self.path = match miner_path(map, self.pos, order.pos, self.algorithm) {
                            Some(steps) => deque_of(steps),
                            None => VecDeque::new(),
                        };
                        self.active_order = Some(order);
                        self.returning_to_base = false;
                        true
                    } else {
                        false
                    }
                },
                None => false,
            };
            if !started {
                let mut events: Vec<BotEvent> = Vec::new();
                events.push(move_event(self.id, BotKind::Miner, self.pos, BotStatus::Idle));
                assert(events@ =~= seq![moved(self.id, BotKind::Miner, self.pos, BotStatus::Idle)]);
                return events;
            }
        }
        let ghost m1 = self@;
        match self.movement.advance(map, &mut self.path) {
            MovementStep::Arrived(next) => {
                self.pos = next;
                let status = if self.returning_to_base { BotStatus::ReturningToBase } else { BotStatus::Moving };
                let mut events: Vec<BotEvent> = Vec::new();
                events.push(move_event(self.id, BotKind::Miner, next, status));
                assert(events@ =~= seq![moved(self.id, BotKind::Miner, next, status)]);
                events
            },
            MovementStep::Waiting => Vec::new(),
            MovementStep::Idle => self.complete_phase(map),
        }
    }
}

/// Routes between any two tiles of the map can be searched without overflow.
pub open spec fn map_fits_orders(map: MapView) -> bool {
    4 * (map.width + map.height) + 2 * map.width * map.height + 2 <= u32::MAX
}

} // verus!
