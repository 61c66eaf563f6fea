use vstd::prelude::*;

use std::collections::{HashMap, HashSet};
use std::sync::Arc;

use vstd::std_specs::iter::IteratorSpec;

use crate::bots::types::{AssignmentStrategy, BotEvent, BotSnapshot, MiningOrder};
use crate::map::{MapView, MineralKind, Point, WorldMap};
use crate::state::clock::{spec_toggle_pause, ClockView, GameClock};

verus! {

broadcast use vstd::std_specs::hash::group_hash_axioms;

/// A mineral that scouts have reported: how much is left, how much there was,
/// and how many miners are on their way to it.
#[derive(Debug, Clone, Copy, PartialEq, Eq, Structural)]
pub struct KnownMineral {
    pub pos: Point,
    pub kind: MineralKind,
    pub remaining: u32,
    pub max_value: u32,
    pub assigned_miners: u32,
}

/// What the game world is, apart from its map and clock: the resources delivered,
/// what each bot last reported, the known minerals, how miners are assigned, which
/// miners are idle, where each miner was sent, the miners that take orders, and the
/// orders issued but not yet handed to the miners.
pub struct WorldView {
    pub map: MapView,
    pub clock: ClockView,
    pub resources_at_base: u32,
    pub bot_snapshots: Map<u32, BotSnapshot>,
    pub known_minerals: Seq<KnownMineral>,
    pub strategy: AssignmentStrategy,
    pub cursor: int,
    pub idle_miners: Set<u32>,
    pub assignments: Map<u32, Point>,
    pub miners: Set<u32>,
    pub outbox: Seq<MiningOrder>,
}

/// The simulation state of a game in progress.
pub struct GameWorld {
    pub map: Arc<WorldMap>,
    pub clock: GameClock,
    pub resources_at_base: u32,
    pub bot_snapshots: HashMap<u32, BotSnapshot>,
    pub known_minerals: Vec<KnownMineral>,
    assignment_strategy: AssignmentStrategy,
    assignment_cursor: usize,
    idle_miners: HashSet<u32>,
    miner_assignments: HashMap<u32, Point>,
    miner_ids: Vec<u32>,
    outbox: Vec<MiningOrder>,
}

impl View for GameWorld {
    type V = WorldView;

    closed spec fn view(&self) -> WorldView {
        WorldView {
            map: (*self.map)@,
            clock: self.clock@,
            resources_at_base: self.resources_at_base,
            bot_snapshots: self.bot_snapshots@,
            known_minerals: self.known_minerals@,
            strategy: self.assignment_strategy,
            cursor: self.assignment_cursor as int,
            idle_miners: self.idle_miners@,
            assignments: self.miner_assignments@,
            miners: self.miner_ids@.to_set(),
            outbox: self.outbox@,
        }
    }
}

/// No two known minerals share a tile.
pub open spec fn distinct_positions(known: Seq<KnownMineral>) -> bool {
    forall|i: int, j: int| 0 <= i < known.len() && 0 <= j < known.len() && i != j ==> #[trigger] known[i].pos != #[trigger] known[j].pos
}

/// Entry `i` is the known mineral on tile `pos`.
pub open spec fn known_at(known: Seq<KnownMineral>, pos: Point, i: int) -> bool {
    0 <= i < known.len() && known[i].pos == pos
}

/// A mineral with more units left than miners heading for it.
pub open spec fn has_room(k: KnownMineral) -> bool {
    k.remaining > k.assigned_miners
}

/// Least assigned: entry `i` has room, and among those with room the fewest miners,
/// then the fewest units left, and is the first such.
pub open spec fn least_assigned_choice(known: Seq<KnownMineral>, i: int) -> bool {
    &&& 0 <= i < known.len()
    &&& has_room(known[i])
    &&& forall|j: int| 0 <= j < known.len() && has_room(#[trigger] known[j]) ==> {
        let a = (known[i].assigned_miners, known[i].remaining);
        let b = (known[j].assigned_miners, known[j].remaining);
        &&& (a.0 < b.0 || (a.0 == b.0 && a.1 <= b.1))
        &&& (j < i ==> (a.0 < b.0 || (a.0 == b.0 && a.1 < b.1)))
    }
}

/// Units left that no miner is heading for yet.
pub open spec fn unclaimed(k: KnownMineral) -> int {
    if k.remaining > k.assigned_miners { k.remaining - k.assigned_miners } else { 0 }
}

/// Weighted by value: entry `i` has room and the most unclaimed units among those
/// with room, and is the last such.
pub open spec fn most_valuable_choice(known: Seq<KnownMineral>, i: int) -> bool {
    &&& 0 <= i < known.len()
    &&& has_room(known[i])
    &&& forall|j: int| 0 <= j < known.len() && has_room(#[trigger] known[j]) ==> {
        &&& unclaimed(known[j]) <= unclaimed(known[i])
        &&& (j > i ==> unclaimed(known[j]) < unclaimed(known[i]))
    }
}

/// Walking the list circularly from `cursor`, the entry `o` steps on is the first
/// one with room.
pub open spec fn round_robin_offset(known: Seq<KnownMineral>, cursor: int, o: int) -> bool {
    let n = known.len() as int;
    &&& 0 <= o < n
    &&& has_room(known[(cursor + o) % n])
    &&& forall|p: int| 0 <= p < o ==> !has_room(#[trigger] known[(cursor + p) % n])
}

/// Round robin: entry `i` is the first with room when walking the list circularly
/// from `cursor`.
pub open spec fn round_robin_choice(known: Seq<KnownMineral>, cursor: int, i: int) -> bool {
    exists|o: int| #[trigger] round_robin_offset(known, cursor, o) && i == (cursor + o) % (known.len() as int)
}

/// The entry the strategy picks, if any.
pub open spec fn chosen_index(w: WorldView, i: int) -> bool {
    match w.strategy {
        AssignmentStrategy::LeastAssigned => least_assigned_choice(w.known_minerals, i),
        AssignmentStrategy::RoundRobin => round_robin_choice(w.known_minerals, w.cursor, i),
        AssignmentStrategy::WeightedByValue => most_valuable_choice(w.known_minerals, i),
    }
}

/// The tile of the mineral the strategy picks for the next idle miner.
pub open spec fn spec_choose(w: WorldView) -> Option<Point> {
    if exists|i: int| chosen_index(w, i) {
        Some(w.known_minerals[choose|i: int| chosen_index(w, i)].pos)
    } else {
        None
    }
}

/// The world invariant: known minerals on distinct tiles, and the round-robin
/// cursor inside the list (or zero).
pub open spec fn world_wf(w: WorldView) -> bool {
    &&& distinct_positions(w.known_minerals)
    &&& (w.cursor == 0 || w.cursor < w.known_minerals.len())
    &&& w.cursor >= 0
    &&& w.map.wf()
}

impl GameWorld {
    pub open spec fn wf(&self) -> bool {
        world_wf(self@)
    }

    /// The index of the known mineral on `pos`, if any.
    fn find_known(&self, pos: Point) -> (r: Option<usize>)
        ensures
            match r {
                Some(i) => known_at(self@.known_minerals, pos, i as int) && forall|j: int| 0 <= j < i ==> self@.known_minerals[j].pos != pos,
                None => forall|j: int| 0 <= j < self@.known_minerals.len() ==> self@.known_minerals[j].pos != pos,
            },
    {
        let n = self.known_minerals.len();
        let mut i: usize = 0;
        while i < n
            invariant
                n == self@.known_minerals.len(),
                i <= n,
                forall|j: int| 0 <= j < i ==> self@.known_minerals[j].pos != pos,
            decreases n - i,
        {
            if self.known_minerals[i].pos == pos {
                return Some(i);
            }
            i += 1;
        }
        None
    }

    /// Least assigned strategy: the first mineral with room that has the fewest
    /// miners, then the fewest units left.
    fn choose_least_assigned(&self) -> (r: Option<usize>)
        ensures
            match r {
                Some(i) => least_assigned_choice(self@.known_minerals, i as int),
                None => forall|j: int| 0 <= j < self@.known_minerals.len() ==> !has_room(#[trigger] self@.known_minerals[j]),
            },
    {
        let n = self.known_minerals.len();
        let mut best: Option<usize> = None;
        let mut i: usize = 0;
        while i < n
            invariant
                n == self@.known_minerals.len(),
                i <= n,
                best is None ==> forall|j: int| 0 <= j < i ==> !has_room(#[trigger] self@.known_minerals[j]),
                best matches Some(b) ==> {
                    let k = self@.known_minerals;
                    &&& b < i
                    &&& has_room(k[b as int])
                    &&& forall|j: int| 0 <= j < i && has_room(#[trigger] k[j]) ==> {
                        let a = (k[b as int].assigned_miners, k[b as int].remaining);
                        let c = (k[j].assigned_miners, k[j].remaining);
                        &&& (a.0 < c.0 || (a.0 == c.0 && a.1 <= c.1))
                        &&& (j < b ==> (a.0 < c.0 || (a.0 == c.0 && a.1 < c.1)))
                    }
                },
            decreases n - i,
        {
            let m = self.known_minerals[i];
            if m.remaining > m.assigned_miners {
                let better = match best {
                    None => true,
                    Some(b) => {
                        let cur = self.known_minerals[b];
                        m.assigned_miners < cur.assigned_miners || (m.assigned_miners == cur.assigned_miners && m.remaining < cur.remaining)
                    },
                };
                if better {
                    best = Some(i);
                }
            }
            i += 1;
        }
        best
    }

    /// Weighted strategy: the last mineral with room that has the most unclaimed units.
    fn choose_most_valuable(&self) -> (r: Option<usize>)
        ensures
            match r {
                Some(i) => most_valuable_choice(self@.known_minerals, i as int),
                None => forall|j: int| 0 <= j < self@.known_minerals.len() ==> !has_room(#[trigger] self@.known_minerals[j]),
            },
    {
        let n = self.known_minerals.len();
        let mut best: Option<usize> = None;
        let mut best_value: u32 = 0;
        let mut i: usize = 0;
        while i < n
            invariant
                n == self@.known_minerals.len(),
                i <= n,
                best is None ==> forall|j: int| 0 <= j < i ==> !has_room(#[trigger] self@.known_minerals[j]),
                best matches Some(b) ==> {
                    let k = self@.known_minerals;
                    &&& b < i
                    &&& has_room(k[b as int])
                    &&& best_value == unclaimed(k[b as int])
                    &&& forall|j: int| 0 <= j < i && has_room(#[trigger] k[j]) ==> {
                        &&& unclaimed(k[j]) <= unclaimed(k[b as int])
                        &&& (j > b ==> unclaimed(k[j]) < unclaimed(k[b as int]))
                    }
                },
            decreases n - i,
        {
            let m = self.known_minerals[i];
            if m.remaining > m.assigned_miners {
                let value = m.remaining.saturating_sub(m.assigned_miners);
                let better = match best {
                    None => true,
                    Some(_) => value >= best_value,
                };
                if better {
                    best = Some(i);
                    best_value = value;
                }
            }
            i += 1;
        }
        best
    }
}


proof fn lemma_choice_unique(w: WorldView, i: int, j: int)
    requires
        chosen_index(w, i),
        chosen_index(w, j),
    ensures
        i == j,
{
    let k = w.known_minerals;
    match w.strategy {
        AssignmentStrategy::LeastAssigned => {
            assert(has_room(k[i]) && has_room(k[j]));
        },
        AssignmentStrategy::WeightedByValue => {
            assert(has_room(k[i]) && has_room(k[j]));
        },
        AssignmentStrategy::RoundRobin => {
            let oi = choose|o: int| #[trigger] round_robin_offset(k, w.cursor, o) && i == (w.cursor + o) % (k.len() as int);
            let oj = choose|o: int| #[trigger] round_robin_offset(k, w.cursor, o) && j == (w.cursor + o) % (k.len() as int);
            if oi < oj {
                assert(!has_room(k[(w.cursor + oi) % (k.len() as int)]));
            } else if oj < oi {
                assert(!has_room(k[(w.cursor + oj) % (k.len() as int)]));
            }
        },
    }
}

proof fn lemma_choose_is(w: WorldView, i: int)
    requires
        chosen_index(w, i),
    ensures
        spec_choose(w) == Some(w.known_minerals[i].pos),
{
    let c = choose|c: int| chosen_index(w, c);
    lemma_choice_unique(w, i, c);
}

impl GameWorld {
    /// Round-robin strategy: the first mineral with room, walking the list
    /// circularly from the cursor.
    fn choose_round_robin(&self) -> (r: Option<usize>)
        requires
            self.wf(),
        ensures
            match r {
                Some(i) => round_robin_choice(self@.known_minerals, self@.cursor, i as int),
                None => forall|o: int| !#[trigger] round_robin_offset(self@.known_minerals, self@.cursor, o),
            },
    {
        let n = self.known_minerals.len();
        if n == 0 {
            return None;
        }
        let cursor = self.assignment_cursor;
        let ghost k = self@.known_minerals;
        let mut offset: usize = 0;
        while offset < n
            invariant
                n == k.len(),
                k == self@.known_minerals,
                n > 0,
                cursor == self@.cursor,
                cursor < n,
                offset <= n,
                forall|p: int| 0 <= p < offset ==> !has_room(#[trigger] k[(cursor + p) % (n as int)]),
            decreases n - offset,
        {
            let index = if offset < n - cursor { cursor + offset } else { offset - (n - cursor) };
            assert(index == (cursor + offset) % (n as int)) by {
                if offset < n - cursor {
                    vstd::arithmetic::div_mod::lemma_fundamental_div_mod_converse(cursor + offset, n as int, 0, cursor + offset);
                } else {
                    vstd::arithmetic::div_mod::lemma_fundamental_div_mod_converse(cursor + offset, n as int, 1, cursor + offset - n);
                }
            }
            let m = self.known_minerals[index];
            if m.remaining > m.assigned_miners {
                assert(round_robin_offset(k, cursor as int, offset as int));
                return Some(index);
            }
            offset += 1;
        }
        proof {
            assert forall|o: int| !#[trigger] round_robin_offset(k, cursor as int, o) by {
                if 0 <= o < n {
                    assert(!has_room(k[(cursor + o) % (n as int)]));
                }
            }
        }
        None
    }

    /// The known mineral the assignment strategy picks for the next idle miner.
    fn choose_mineral_for_assignment(&self) -> (r: Option<Point>)
        requires
            self.wf(),
        ensures
            r == spec_choose(self@),
            r matches Some(pos) ==> exists|i: int| chosen_index(self@, i) && #[trigger] self@.known_minerals[i].pos == pos,
    {
        let found = match self.assignment_strategy {
            AssignmentStrategy::LeastAssigned => self.choose_least_assigned(),
            AssignmentStrategy::RoundRobin => self.choose_round_robin(),
            AssignmentStrategy::WeightedByValue => self.choose_most_valuable(),
        };
        match found {
            Some(i) => {
                proof {
                    lemma_choose_is(self@, i as int);
                }
                Some(self.known_minerals[i].pos)
            },
            None => {
                proof {
                    if exists|i: int| chosen_index(self@, i) {
                        let i = choose|i: int| chosen_index(self@, i);
                        if self@.strategy == AssignmentStrategy::RoundRobin {
                            let o = choose|o: int| #[trigger] round_robin_offset(self@.known_minerals, self@.cursor, o) && i == (self@.cursor + o) % (self@.known_minerals.len() as int);
                        } else {
                            assert(has_room(self@.known_minerals[i]));
                        }
                    }
                }
                None
            },
        }
    }
}


/// The world once `order` is issued: miner `miner` goes to the known mineral on `pos`,
/// which counts one more miner; the miner's assignment is recorded; the round-robin
/// cursor moves on; the order waits in the outbox. Nothing happens (and `false` is
/// given) when no mineral is known there or `miner` takes no orders.
pub open spec fn spec_send(w: WorldView, miner: u32, pos: Point) -> (WorldView, bool) {
    if exists|i: int| known_at(w.known_minerals, pos, i) {
        let i = choose|i: int| known_at(w.known_minerals, pos, i);
        let k = w.known_minerals[i];
        let n = w.known_minerals.len() as int;
        if w.miners.contains(miner) {
            (WorldView {
                known_minerals: w.known_minerals.update(i, KnownMineral { assigned_miners: (k.assigned_miners + 1) as u32, ..k }),
                assignments: w.assignments.insert(miner, pos),
                cursor: if w.strategy == AssignmentStrategy::RoundRobin { (w.cursor + 1) % (if n > 1 { n } else { 1 }) } else { w.cursor },
                outbox: w.outbox.push(MiningOrder { miner_id: miner, pos, kind: k.kind }),
                ..w
            }, true)
        } else {
            (w, false)
        }
    } else {
        (w, false)
    }
}

/// Idle miner `miner` gets the mineral the strategy picks, and stops being idle
/// once the order is issued.
pub open spec fn spec_assign_one(w: WorldView, miner: u32) -> WorldView {
    match spec_choose(w) {
        None => w,
        Some(pos) => {
            let (w2, sent) = spec_send(w, miner, pos);
            if sent { WorldView { idle_miners: w2.idle_miners.remove(miner), ..w2 } } else { w2 }
        },
    }
}

/// The idle miners in `order` get assignments one after the other.
pub open spec fn spec_assign_all(w: WorldView, order: Seq<u32>) -> WorldView
    decreases order.len(),
{
    if order.len() == 0 {
        w
    } else {
        spec_assign_all(spec_assign_one(w, order[0]), order.drop_first())
    }
}

/// Every idle miner in turn, in some order (that of the set's iteration), gets an assignment.
pub open spec fn assigned_in_some_order(before: WorldView, after: WorldView) -> bool {
    exists|order: Seq<u32>| #[trigger] order.to_set() == before.idle_miners && order.no_duplicates() && after == spec_assign_all(before, order)
}

proof fn lemma_known_unique(known: Seq<KnownMineral>, pos: Point, i: int)
    requires
        distinct_positions(known),
        known_at(known, pos, i),
    ensures
        (choose|j: int| known_at(known, pos, j)) == i,
{
    let j = choose|j: int| known_at(known, pos, j);
    if j != i {
        assert(known[i].pos != known[j].pos);
    }
}

impl GameWorld {
    fn takes_orders(&self, miner_id: u32) -> (b: bool)
        ensures
            b == self@.miners.contains(miner_id),
    {
        let n = self.miner_ids.len();
        let mut i: usize = 0;
        while i < n
            invariant
                n == self.miner_ids@.len(),
                i <= n,
                forall|j: int| 0 <= j < i ==> self.miner_ids@[j] != miner_id,
            decreases n - i,
        {
            if self.miner_ids[i] == miner_id {
                assert(self.miner_ids@.contains(miner_id));
                return true;
            }
            i += 1;
        }
        assert(!self.miner_ids@.contains(miner_id));
        false
    }

    fn send_mining_order(&mut self, miner_id: u32, pos: Point) -> (sent: bool)
        requires
            old(self).wf(),
            forall|i: int| known_at(old(self)@.known_minerals, pos, i) ==> has_room(old(self)@.known_minerals[i]),
        ensures
            final(self).wf(),
            (final(self)@, sent) == spec_send(old(self)@, miner_id, pos),
    {
        let idx = match self.find_known(pos) {
            Some(i) => i,
            None => return false,
        };
        proof {
            lemma_known_unique(self@.known_minerals, pos, idx as int);
        }
        if !self.takes_orders(miner_id) {
            return false;
        }
        let mineral = self.known_minerals[idx];
        let order = MiningOrder { miner_id, pos, kind: mineral.kind };
        self.outbox.push(order);
        let ghost before = self.known_minerals@;
        self.known_minerals.set(idx, KnownMineral { assigned_miners: mineral.assigned_miners + 1, ..mineral });
        assert forall|i: int, j: int| 0 <= i < self.known_minerals@.len() && 0 <= j < self.known_minerals@.len() && i != j implies
            #[trigger] self.known_minerals@[i].pos != #[trigger] self.known_minerals@[j].pos by {
            assert(self.known_minerals@[i].pos == before[i].pos);
            assert(self.known_minerals@[j].pos == before[j].pos);
        }
        self.miner_assignments.insert(miner_id, pos);
        if self.assignment_strategy == AssignmentStrategy::RoundRobin {
            let n = self.known_minerals.len();
            let modulus = if n > 1 { n } else { 1 };
            self.assignment_cursor = (self.assignment_cursor + 1) % modulus;
        }
        true
    }

    fn assign_one(&mut self, miner_id: u32)
        requires
            old(self).wf(),
        ensures
            final(self).wf(),
            final(self)@ == spec_assign_one(old(self)@, miner_id),
    {
        match self.choose_mineral_for_assignment() {
            Some(pos) => {
                proof {
                    let i = choose|i: int| chosen_index(self@, i) && #[trigger] self@.known_minerals[i].pos == pos;
                    assert forall|j: int| known_at(self@.known_minerals, pos, j) implies has_room(self@.known_minerals[j]) by {
                        if j != i {
                            assert(self@.known_minerals[i].pos != self@.known_minerals[j].pos);
                        }
                        match self@.strategy {
                            AssignmentStrategy::RoundRobin => {
                                let o = choose|o: int| #[trigger] round_robin_offset(self@.known_minerals, self@.cursor, o) && i == (self@.cursor + o) % (self@.known_minerals.len() as int);
                            },
                            _ => {},
                        }
                    }
                }
                if self.send_mining_order(miner_id, pos) {
                    self.idle_miners.remove(&miner_id);
                }
            },
            None => {},
        }
    }

    /// Every idle miner in turn (in the order the set is walked) gets the mineral the
    /// strategy picks, and leaves the idle set once its order is issued.
    fn assign_idle_miners(&mut self)
        requires
            old(self).wf(),
        ensures
            final(self).wf(),
            assigned_in_some_order(old(self)@, final(self)@),
    {
        let mut ids: Vec<u32> = Vec::new();
        let ghost keys = vstd::std_specs::hash::spec_hash_keys_iter(&self.idle_miners).remaining();
        proof {
            vstd::std_specs::hash::axiom_spec_hash_keys_iter(&self.idle_miners);
        }
        for id in it: self.idle_miners.iter()
            invariant
                it.seq() == keys,
                ids@.len() == it.index(),
                forall|j: int| 0 <= j < it.index() ==> ids@[j] == *keys[j],
        {
            ids.push(*id);
        }
        assert(ids@ =~= keys.unref());
        let n = ids.len();
        let mut i: usize = 0;
        let ghost w0 = self@;
        assert(ids@.skip(0) =~= ids@);
        while i < n
            invariant
                self.wf(),
                n == ids@.len(),
                i <= n,
                spec_assign_all(w0, ids@) == spec_assign_all(self@, ids@.skip(i as int)),
            decreases n - i,
        {
            assert(ids@.skip(i as int)[0] == ids@[i as int]);
            assert(ids@.skip(i as int).drop_first() =~= ids@.skip(i + 1));
            self.assign_one(ids[i]);
            i += 1;
        }
        assert(ids@.skip(n as int) =~= Seq::<u32>::empty());
    }
}


/// The world once miner `miner` is no longer heading anywhere: its assignment is
/// dropped and the mineral it was sent to (or, without a record, the one on
/// `fallback`) counts one miner less, never below zero.
pub open spec fn spec_unassign(w: WorldView, miner: u32, fallback: Point) -> WorldView {
    release_miner_slot(WorldView { assignments: w.assignments.remove(miner), ..w }, heading_of(w, miner, fallback))
}

/// Where miner `miner` was sent, or `fallback` when no assignment is recorded.
pub open spec fn heading_of(w: WorldView, miner: u32, fallback: Point) -> Point {
    if w.assignments.contains_key(miner) { w.assignments[miner] } else { fallback }
}

/// The known mineral on `pos`, if any, counts one miner less (never below zero).
pub open spec fn release_miner_slot(w: WorldView, pos: Point) -> WorldView {
    if exists|i: int| known_at(w.known_minerals, pos, i) {
        let i = choose|i: int| known_at(w.known_minerals, pos, i);
        let k = w.known_minerals[i];
        let left = if k.assigned_miners > 0 { (k.assigned_miners - 1) as u32 } else { 0u32 };
        WorldView { known_minerals: w.known_minerals.update(i, KnownMineral { assigned_miners: left, ..k }), ..w }
    } else {
        w
    }
}

/// The world once a scout reports the mineral on `pos`: a tile already known, or
/// without a mineral on the map, changes nothing; otherwise the mineral is added
/// with its units left and starting units, with no miner heading for it.
pub open spec fn spec_learn_mineral(w: WorldView, pos: Point, kind: MineralKind) -> Option<WorldView> {
    if exists|i: int| known_at(w.known_minerals, pos, i) {
        None
    } else {
        match w.map.mineral_at(pos) {
            None => None,
            Some(m) => Some(WorldView {
                known_minerals: w.known_minerals.push(KnownMineral { pos, kind, remaining: m.value, max_value: m.max_value, assigned_miners: 0 }),
                ..w
            }),
        }
    }
}

/// The world once miner `miner` reports reaching `pos`: the known mineral there, if
/// it has units left, loses one, and the miner is recorded as assigned to `pos`.
pub open spec fn spec_arrival(w: WorldView, miner: u32, pos: Point) -> WorldView {
    let w1 = WorldView { assignments: w.assignments.insert(miner, pos), ..w };
    if exists|i: int| known_at(w.known_minerals, pos, i) {
        let i = choose|i: int| known_at(w.known_minerals, pos, i);
        let k = w.known_minerals[i];
        if k.remaining > 0 {
            WorldView { known_minerals: w.known_minerals.update(i, KnownMineral { remaining: (k.remaining - 1) as u32, ..k }), ..w1 }
        } else {
            w1
        }
    } else {
        w1
    }
}

/// The world once miner `miner` delivers `amount` units mined at `pos`, before the
/// idle miners are assigned: the resources grow, the miner is unassigned and idle.
pub open spec fn spec_delivered(w: WorldView, miner: u32, pos: Point, amount: u32) -> WorldView {
    let w1 = spec_unassign(WorldView { resources_at_base: (w.resources_at_base + amount) as u32, ..w }, miner, pos);
    WorldView { idle_miners: w1.idle_miners.insert(miner), ..w1 }
}

impl GameWorld {
    /// A world on `map` whose miners `miner_ids` start idle, with nothing known yet.
    pub fn new(map: WorldMap, miner_ids: Vec<u32>, assignment_strategy: AssignmentStrategy) -> (w: GameWorld)
        requires
            map.wf(),
        ensures
            w.wf(),
            w@.map == map@,
            w@.clock == (ClockView { accumulated_nanos: 0, tick_count: 0, paused: false }),
            w@.resources_at_base == 0,
            w@.bot_snapshots == Map::<u32, BotSnapshot>::empty(),
            w@.known_minerals == Seq::<KnownMineral>::empty(),
            w@.strategy == assignment_strategy,
            w@.cursor == 0,
            w@.idle_miners == miner_ids@.to_set(),
            w@.assignments == Map::<u32, Point>::empty(),
            w@.miners == miner_ids@.to_set(),
            w@.outbox == Seq::<MiningOrder>::empty(),
    {
        let mut idle_miners: HashSet<u32> = HashSet::new();
        let n = miner_ids.len();
        let mut i: usize = 0;
        while i < n
            invariant
                n == miner_ids@.len(),
                i <= n,
                idle_miners@ == miner_ids@.take(i as int).to_set(),
            decreases n - i,
        {
            proof {
                assert(miner_ids@.take(i + 1) =~= miner_ids@.take(i as int).push(miner_ids@[i as int]));
                miner_ids@.take(i as int).lemma_push_to_set_commute(miner_ids@[i as int]);
            }
            idle_miners.insert(miner_ids[i]);
            i += 1;
        }
        assert(miner_ids@.take(n as int) =~= miner_ids@);
        GameWorld {
            map: Arc::new(map),
            clock: GameClock::new(),
            resources_at_base: 0,
            bot_snapshots: HashMap::new(),
            known_minerals: Vec::new(),
            assignment_strategy,
            assignment_cursor: 0,
            idle_miners,
            miner_assignments: HashMap::new(),
            miner_ids,
            outbox: Vec::new(),
        }
    }

    fn unassign_miner(&mut self, miner_id: u32, fallback_pos: Point)
        requires
            old(self).wf(),
        ensures
            final(self).wf(),
            final(self)@ == spec_unassign(old(self)@, miner_id, fallback_pos),
    {
        let pos = match self.miner_assignments.remove(&miner_id) {
            Some(p) => p,
            None => fallback_pos,
        };
        assert(self.miner_assignments@ == old(self)@.assignments.remove(miner_id));
        assert(pos == heading_of(old(self)@, miner_id, fallback_pos));
        match self.find_known(pos) {
            Some(idx) => {
                proof {
                    lemma_known_unique(old(self)@.known_minerals, pos, idx as int);
                }
                let mineral = self.known_minerals[idx];
                let ghost before = self.known_minerals@;
                self.known_minerals.set(idx, KnownMineral { assigned_miners: mineral.assigned_miners.saturating_sub(1), ..mineral });
                assert forall|i: int, j: int| 0 <= i < self.known_minerals@.len() && 0 <= j < self.known_minerals@.len() && i != j implies
                    #[trigger] self.known_minerals@[i].pos != #[trigger] self.known_minerals@[j].pos by {
                    assert(self.known_minerals@[i].pos == before[i].pos);
                    assert(self.known_minerals@[j].pos == before[j].pos);
                }
            },
            None => {
                assert(!exists|i: int| known_at(old(self)@.known_minerals, pos, i));
            },
        }
    }

    /// A scout reported the mineral on `pos` (see `spec_learn_mineral`); when it is
    /// new, the idle miners are then assigned.
    pub fn record_known_mineral(&mut self, pos: Point, kind: MineralKind)
        requires
            old(self).wf(),
        ensures
            final(self).wf(),
            match spec_learn_mineral(old(self)@, pos, kind) {
                None => final(self)@ == old(self)@,
                Some(w1) => assigned_in_some_order(w1, final(self)@),
            },
    {
        if self.find_known(pos).is_some() {
            return;
        }
        let mineral = match self.map.mineral_at(pos) {
            Some(m) => m,
            None => return,
        };
        let ghost before = self.known_minerals@;
        self.known_minerals.push(KnownMineral { pos, kind, remaining: mineral.value, max_value: mineral.max_value, assigned_miners: 0 });
        assert forall|i: int, j: int| 0 <= i < self.known_minerals@.len() && 0 <= j < self.known_minerals@.len() && i != j implies
            #[trigger] self.known_minerals@[i].pos != #[trigger] self.known_minerals@[j].pos by {
            if i < before.len() {
                assert(self.known_minerals@[i] == before[i]);
            }
            if j < before.len() {
                assert(self.known_minerals@[j] == before[j]);
            }
        }
        assert(self@ == spec_learn_mineral(old(self)@, pos, kind)->0);
        self.assign_idle_miners();
    }

    /// Miner `miner_id` reached `pos` (see `spec_arrival`).
    pub fn record_miner_arrival(&mut self, miner_id: u32, pos: Point)
        requires
            old(self).wf(),
        ensures
            final(self).wf(),
            final(self)@ == spec_arrival(old(self)@, miner_id, pos),
    {
        match self.find_known(pos) {
            Some(idx) => {
                proof {
                    lemma_known_unique(old(self)@.known_minerals, pos, idx as int);
                }
                let mineral = self.known_minerals[idx];
                if mineral.remaining > 0 {
                    let ghost before = self.known_minerals@;
                    self.known_minerals.set(idx, KnownMineral { remaining: mineral.remaining - 1, ..mineral });
                    assert forall|i: int, j: int| 0 <= i < self.known_minerals@.len() && 0 <= j < self.known_minerals@.len() && i != j implies
                        #[trigger] self.known_minerals@[i].pos != #[trigger] self.known_minerals@[j].pos by {
                        assert(self.known_minerals@[i].pos == before[i].pos);
                        assert(self.known_minerals@[j].pos == before[j].pos);
                    }
                }
            },
            None => {},
        }
        self.miner_assignments.insert(miner_id, pos);
    }

    /// Miner `miner_id` delivered `amount` units mined at `pos` (see
    /// `spec_delivered`); the idle miners are then assigned.
    pub fn record_resource_delivery(&mut self, miner_id: u32, pos: Point, amount: u32)
        requires
            old(self).wf(),
            old(self)@.resources_at_base + amount <= u32::MAX,
        ensures
            final(self).wf(),
            assigned_in_some_order(spec_delivered(old(self)@, miner_id, pos, amount), final(self)@),
    {
        self.resources_at_base = self.resources_at_base + amount;
        self.unassign_miner(miner_id, pos);
        self.idle_miners.insert(miner_id);
        self.assign_idle_miners();
    }

    /// Pauses the clock when running, resumes it when paused.
    pub fn toggle_pause(&mut self)
        requires
            old(self).wf(),
        ensures
            final(self).wf(),
            final(self)@ == (WorldView { clock: spec_toggle_pause(old(self)@.clock), ..old(self)@ }),
    {
        self.clock.toggle_pause();
    }

    /// The map of the game.
    pub fn world_map(&self) -> (m: &WorldMap)
        ensures
            m@ == self@.map,
    {
        &self.map
    }

    /// Whether miner `miner_id` is idle.
    pub fn is_idle(&self, miner_id: u32) -> (b: bool)
        ensures
            b == self@.idle_miners.contains(miner_id),
    {
        self.idle_miners.contains(&miner_id)
    }

    /// Hands over the orders issued since the last call, oldest first.
    pub fn take_orders(&mut self) -> (orders: Vec<MiningOrder>)
        ensures
            orders@ == old(self)@.outbox,
            final(self)@ == (WorldView { outbox: Seq::empty(), ..old(self)@ }),
    {
        let mut orders: Vec<MiningOrder> = Vec::new();
        std::mem::swap(&mut orders, &mut self.outbox);
        orders
    }
}


/// The parts of the world that handing out orders leaves alone.
pub open spec fn same_outside_orders(a: WorldView, b: WorldView) -> bool {
    &&& a.map == b.map
    &&& a.clock == b.clock
    &&& a.resources_at_base == b.resources_at_base
    &&& a.bot_snapshots == b.bot_snapshots
    &&& a.strategy == b.strategy
    &&& a.miners == b.miners
    &&& a.known_minerals.len() == b.known_minerals.len()
    &&& forall|i: int| 0 <= i < a.known_minerals.len() ==> {
        &&& (#[trigger] b.known_minerals[i]).pos == a.known_minerals[i].pos
        &&& b.known_minerals[i].kind == a.known_minerals[i].kind
        &&& b.known_minerals[i].remaining == a.known_minerals[i].remaining
        &&& b.known_minerals[i].max_value == a.known_minerals[i].max_value
    }
}

/// A miner is only sent to a known mineral that has more units left than miners
/// already heading for it.
pub proof fn lemma_orders_go_where_there_is_room(w: WorldView)
    requires
        spec_choose(w) is Some,
    ensures
        exists|i: int| known_at(w.known_minerals, spec_choose(w)->0, i) && #[trigger] has_room(w.known_minerals[i]),
{
    let c = choose|c: int| chosen_index(w, c);
    let k = w.known_minerals;
    if w.strategy == AssignmentStrategy::RoundRobin {
        let o = choose|o: int| #[trigger] round_robin_offset(k, w.cursor, o) && c == (w.cursor + o) % (k.len() as int);
        assert(has_room(k[c]));
    }
    assert(known_at(k, spec_choose(w)->0, c) && has_room(k[c]));
}

/// Assigning one idle miner issues at most one order, to that miner, for a known
/// mineral, and changes nothing but the orders, assignments, idle miners, cursor
/// and the count of miners heading for the minerals.
pub proof fn lemma_assign_one_issues_one_order(w: WorldView, miner: u32)
    ensures
        same_outside_orders(w, spec_assign_one(w, miner)),
        ({
            let after = spec_assign_one(w, miner);
            ||| after == w
            ||| {
                &&& after.outbox.len() == w.outbox.len() + 1
                &&& after.outbox.take(w.outbox.len() as int) == w.outbox
                &&& after.outbox.last().miner_id == miner
                &&& w.miners.contains(miner)
                &&& exists|i: int| known_at(w.known_minerals, after.outbox.last().pos, i)
                &&& after.idle_miners == w.idle_miners.remove(miner)
                &&& after.assignments == w.assignments.insert(miner, after.outbox.last().pos)
            }
        }),
{
    if let Some(pos) = spec_choose(w) {
        let (w2, sent) = spec_send(w, miner, pos);
        if sent {
            assert(w2.outbox.take(w.outbox.len() as int) =~= w.outbox);
        }
    }
}

/// Handing out orders to the idle miners, in any order, leaves the map, clock,
/// resources, snapshots and what is known of each mineral (but for the count of
/// miners heading for it) as they were.
pub proof fn lemma_assign_all_keeps_the_rest(w: WorldView, order: Seq<u32>)
    ensures
        same_outside_orders(w, spec_assign_all(w, order)),
    decreases order.len(),
{
    if order.len() > 0 {
        let w1 = spec_assign_one(w, order[0]);
        lemma_assign_one_issues_one_order(w, order[0]);
        lemma_assign_all_keeps_the_rest(w1, order.drop_first());
    }
}

/// How many of `orders` send a miner to `pos`.
pub open spec fn orders_to(orders: Seq<MiningOrder>, pos: Point) -> nat
    decreases orders.len(),
{
    if orders.len() == 0 {
        0
    } else {
        orders_to(orders.drop_last(), pos) + if orders.last().pos == pos { 1nat } else { 0nat }
    }
}

proof fn lemma_orders_to_concat(a: Seq<MiningOrder>, b: Seq<MiningOrder>, pos: Point)
    ensures
        orders_to(a + b, pos) == orders_to(a, pos) + orders_to(b, pos),
    decreases b.len(),
{
    if b.len() > 0 {
        assert((a + b).drop_last() =~= a + b.drop_last());
        lemma_orders_to_concat(a, b.drop_last(), pos);
    } else {
        assert(a + b =~= a);
    }
}

/// One idle miner assigned: either nothing changes, or one order is added for
/// a known mineral, and that mineral alone counts one more miner heading for it.
proof fn lemma_assign_one_counts(w: WorldView, miner: u32)
    requires
        distinct_positions(w.known_minerals),
    ensures
        ({
            let after = spec_assign_one(w, miner);
            ||| (after.outbox == w.outbox && after.known_minerals == w.known_minerals)
            ||| {
                &&& after.outbox == w.outbox.push(after.outbox.last())
                &&& after.known_minerals.len() == w.known_minerals.len()
                &&& forall|j: int| 0 <= j < w.known_minerals.len() ==> (#[trigger] after.known_minerals[j]).assigned_miners
                    == w.known_minerals[j].assigned_miners + if w.known_minerals[j].pos == after.outbox.last().pos { 1int } else { 0int }
            }
        }),
{
    if let Some(pos) = spec_choose(w) {
        let (w2, sent) = spec_send(w, miner, pos);
        if sent {
            lemma_orders_go_where_there_is_room(w);
            let i = choose|i: int| known_at(w.known_minerals, pos, i);
            let c = choose|c: int| known_at(w.known_minerals, pos, c) && #[trigger] has_room(w.known_minerals[c]);
            assert(c == i) by {
                if c != i {
                    assert(w.known_minerals[c].pos != w.known_minerals[i].pos);
                }
            }
            assert(w2.outbox =~= w.outbox.push(w2.outbox.last()));
            assert forall|j: int| 0 <= j < w.known_minerals.len() implies (#[trigger] w2.known_minerals[j]).assigned_miners
                == w.known_minerals[j].assigned_miners + if w.known_minerals[j].pos == w2.outbox.last().pos { 1int } else { 0int } by {
                if j != i {
                    assert(w.known_minerals[j].pos != w.known_minerals[i].pos);
                }
            }
        }
    }
}

/// Handing out orders to idle miners only adds orders, keeps the earlier ones,
/// and each known mineral counts exactly one more miner heading for it per order
/// added for its tile.
pub proof fn lemma_assign_all_counts_orders(w: WorldView, order: Seq<u32>)
    requires
        distinct_positions(w.known_minerals),
    ensures
        ({
            let after = spec_assign_all(w, order);
            &&& after.outbox.len() >= w.outbox.len()
            &&& after.outbox.take(w.outbox.len() as int) == w.outbox
            &&& after.known_minerals.len() == w.known_minerals.len()
            &&& forall|j: int| 0 <= j < w.known_minerals.len() ==> (#[trigger] after.known_minerals[j]).assigned_miners
                == w.known_minerals[j].assigned_miners + orders_to(after.outbox.skip(w.outbox.len() as int), w.known_minerals[j].pos)
        }),
    decreases order.len(),
{
    let after = spec_assign_all(w, order);
    if order.len() == 0 {
        assert(after.outbox.skip(w.outbox.len() as int) =~= Seq::<MiningOrder>::empty());
        assert(after.outbox.take(w.outbox.len() as int) =~= w.outbox);
    } else {
        let w1 = spec_assign_one(w, order[0]);
        lemma_assign_one_counts(w, order[0]);
        lemma_assign_one_issues_one_order(w, order[0]);
        assert(distinct_positions(w1.known_minerals)) by {
            assert forall|i: int, j: int| 0 <= i < w1.known_minerals.len() && 0 <= j < w1.known_minerals.len() && i != j implies
                #[trigger] w1.known_minerals[i].pos != #[trigger] w1.known_minerals[j].pos by {
                assert(w1.known_minerals[i].pos == w.known_minerals[i].pos);
                assert(w1.known_minerals[j].pos == w.known_minerals[j].pos);
            }
        }
        lemma_assign_all_counts_orders(w1, order.drop_first());
        let n = w.outbox.len() as int;
        let n1 = w1.outbox.len() as int;
        assert(after.outbox.take(n1) == w1.outbox);
        assert(after.outbox.take(n) =~= w1.outbox.take(n));
        assert(w1.outbox.take(n) =~= w.outbox);
        let fresh = after.outbox.skip(n1);
        assert forall|j: int| 0 <= j < w.known_minerals.len() implies (#[trigger] after.known_minerals[j]).assigned_miners
            == w.known_minerals[j].assigned_miners + orders_to(after.outbox.skip(n), w.known_minerals[j].pos) by {
            let pos = w.known_minerals[j].pos;
            assert(w1.known_minerals[j].pos == pos);
            assert(after.outbox.skip(n) =~= w1.outbox.skip(n) + fresh);
            lemma_orders_to_concat(w1.outbox.skip(n), fresh, pos);
            assert(after.known_minerals[j].assigned_miners == w1.known_minerals[j].assigned_miners + orders_to(fresh, pos));
            assert(orders_to(Seq::<MiningOrder>::empty(), pos) == 0);
            if w1.outbox.len() == w.outbox.len() + 1 {
                let o = w1.outbox.last();
                assert(w1.outbox.skip(n) =~= seq![o]);
                assert(seq![o].drop_last() =~= Seq::<MiningOrder>::empty());
                assert(orders_to(seq![o], pos) == if o.pos == pos { 1nat } else { 0nat });
                assert(w1.known_minerals[j].assigned_miners == w.known_minerals[j].assigned_miners + if pos == o.pos { 1int } else { 0int });
            } else {
                assert(w1.outbox.skip(n) =~= Seq::<MiningOrder>::empty());
                assert(w1.known_minerals == w.known_minerals);
            }
        }
    }
}

/// After a scout's report or a delivery, each known mineral counts as many more
/// miners heading for it as orders were sent to its tile in that call, and no
/// more: the counts rise only by the orders sent.
pub proof fn lemma_assigned_counts_follow_orders(before: WorldView, after: WorldView)
    requires
        distinct_positions(before.known_minerals),
        assigned_in_some_order(before, after),
    ensures
        after.outbox.take(before.outbox.len() as int) == before.outbox,
        after.known_minerals.len() == before.known_minerals.len(),
        forall|j: int| 0 <= j < before.known_minerals.len() ==> (#[trigger] after.known_minerals[j]).assigned_miners
            == before.known_minerals[j].assigned_miners + orders_to(after.outbox.skip(before.outbox.len() as int), before.known_minerals[j].pos),
{
    let order = choose|order: Seq<u32>| #[trigger] order.to_set() == before.idle_miners && order.no_duplicates() && after == spec_assign_all(before, order);
    lemma_assign_all_counts_orders(before, order);
}

/// A scout's report of a new mineral appends exactly one entry, with the map's
/// units and no miner yet but those sent to it in the same call; every earlier
/// entry keeps its tile, kind and units, and counts only the miners sent to it in
/// that call more; no two entries share a tile.
pub proof fn lemma_report_appends_one_entry(before: WorldView, pos: Point, kind: MineralKind, after: WorldView)
    requires
        world_wf(before),
        spec_learn_mineral(before, pos, kind) is Some,
        assigned_in_some_order(spec_learn_mineral(before, pos, kind)->0, after),
    ensures
        ({
            let n = before.known_minerals.len() as int;
            let fresh = after.outbox.skip(before.outbox.len() as int);
            let m = before.map.mineral_at(pos)->0;
            &&& after.known_minerals.len() == n + 1
            &&& after.outbox.take(before.outbox.len() as int) == before.outbox
            &&& after.known_minerals[n].pos == pos
            &&& after.known_minerals[n].kind == kind
            &&& after.known_minerals[n].remaining == m.value
            &&& after.known_minerals[n].max_value == m.max_value
            &&& after.known_minerals[n].assigned_miners == orders_to(fresh, pos)
            &&& forall|j: int| 0 <= j < n ==> {
                &&& (#[trigger] after.known_minerals[j]).pos == before.known_minerals[j].pos
                &&& after.known_minerals[j].kind == before.known_minerals[j].kind
                &&& after.known_minerals[j].remaining == before.known_minerals[j].remaining
                &&& after.known_minerals[j].assigned_miners == before.known_minerals[j].assigned_miners + orders_to(fresh, before.known_minerals[j].pos)
            }
            &&& distinct_positions(after.known_minerals)
        }),
{
    let w1 = spec_learn_mineral(before, pos, kind)->0;
    let n = before.known_minerals.len() as int;
    assert(distinct_positions(w1.known_minerals)) by {
        assert forall|i: int, j: int| 0 <= i < w1.known_minerals.len() && 0 <= j < w1.known_minerals.len() && i != j implies
            #[trigger] w1.known_minerals[i].pos != #[trigger] w1.known_minerals[j].pos by {
            if i < n && j < n {
                assert(w1.known_minerals[i] == before.known_minerals[i]);
                assert(w1.known_minerals[j] == before.known_minerals[j]);
            } else if i < n {
                assert(!known_at(before.known_minerals, pos, i));
            } else {
                assert(!known_at(before.known_minerals, pos, j));
            }
        }
    }
    lemma_assigned_counts_follow_orders(w1, after);
    let order = choose|order: Seq<u32>| #[trigger] order.to_set() == w1.idle_miners && order.no_duplicates() && after == spec_assign_all(w1, order);
    lemma_assign_all_keeps_the_rest(w1, order);
    assert(w1.outbox == before.outbox);
    assert forall|j: int| 0 <= j < n implies {
        &&& (#[trigger] after.known_minerals[j]).pos == before.known_minerals[j].pos
        &&& after.known_minerals[j].kind == before.known_minerals[j].kind
        &&& after.known_minerals[j].remaining == before.known_minerals[j].remaining
        &&& after.known_minerals[j].assigned_miners == before.known_minerals[j].assigned_miners + orders_to(after.outbox.skip(before.outbox.len() as int), before.known_minerals[j].pos)
    } by {
        assert(w1.known_minerals[j] == before.known_minerals[j]);
        assert(after.known_minerals[j].assigned_miners == w1.known_minerals[j].assigned_miners + orders_to(after.outbox.skip(w1.outbox.len() as int), w1.known_minerals[j].pos));
    }
    assert(after.known_minerals[n].assigned_miners == w1.known_minerals[n].assigned_miners + orders_to(after.outbox.skip(w1.outbox.len() as int), w1.known_minerals[n].pos));
    assert(distinct_positions(after.known_minerals)) by {
        assert forall|i: int, j: int| 0 <= i < after.known_minerals.len() && 0 <= j < after.known_minerals.len() && i != j implies
            #[trigger] after.known_minerals[i].pos != #[trigger] after.known_minerals[j].pos by {
            assert(after.known_minerals[i].pos == w1.known_minerals[i].pos);
            assert(after.known_minerals[j].pos == w1.known_minerals[j].pos);
        }
    }
}

/// Miner `miner` is idle, or an order for it waits in the outbox.
pub open spec fn idle_or_sent(w: WorldView, miner: u32) -> bool {
    w.idle_miners.contains(miner) || exists|k: int| 0 <= k < w.outbox.len() && #[trigger] w.outbox[k].miner_id == miner
}

/// Handing out orders never drops a miner: one that was idle, or had an order
/// waiting, still is idle or has an order waiting.
pub proof fn lemma_assign_all_keeps_miners_accounted(w: WorldView, order: Seq<u32>, miner: u32)
    requires
        idle_or_sent(w, miner),
    ensures
        idle_or_sent(spec_assign_all(w, order), miner),
    decreases order.len(),
{
    if order.len() > 0 {
        let w1 = spec_assign_one(w, order[0]);
        lemma_assign_one_issues_one_order(w, order[0]);
        if w1 != w {
            if !w.idle_miners.contains(miner) {
                let k = choose|k: int| 0 <= k < w.outbox.len() && #[trigger] w.outbox[k].miner_id == miner;
                assert(w1.outbox.take(w.outbox.len() as int)[k] == w.outbox[k]);
                assert(w1.outbox[k].miner_id == miner);
            } else if order[0] == miner {
                assert(w1.outbox[w1.outbox.len() - 1].miner_id == miner);
            } else {
                assert(w1.idle_miners.contains(miner));
            }
        }
        lemma_assign_all_keeps_miners_accounted(w1, order.drop_first(), miner);
    }
}

/// A miner that delivers is idle again afterwards, unless it was straight away
/// sent to another mineral.
pub proof fn lemma_delivering_miner_is_idle_or_sent(before: WorldView, miner: u32, pos: Point, amount: u32, after: WorldView)
    requires
        assigned_in_some_order(spec_delivered(before, miner, pos, amount), after),
    ensures
        idle_or_sent(after, miner),
{
    let d = spec_delivered(before, miner, pos, amount);
    let order = choose|order: Seq<u32>| #[trigger] order.to_set() == d.idle_miners && order.no_duplicates() && after == spec_assign_all(d, order);
    assert(d.idle_miners.contains(miner));
    lemma_assign_all_keeps_miners_accounted(d, order, miner);
}

/// A delivery adds exactly the delivered units to the resources at base, however
/// the idle miners are then assigned.
pub proof fn lemma_delivery_adds_resources(before: WorldView, miner: u32, pos: Point, amount: u32, after: WorldView)
    requires
        before.resources_at_base + amount <= u32::MAX,
        assigned_in_some_order(spec_delivered(before, miner, pos, amount), after),
    ensures
        after.resources_at_base == before.resources_at_base + amount,
        after.map == before.map,
        after.known_minerals.len() == before.known_minerals.len(),
{
    let d = spec_delivered(before, miner, pos, amount);
    let order = choose|order: Seq<u32>| #[trigger] order.to_set() == d.idle_miners && order.no_duplicates() && after == spec_assign_all(d, order);
    lemma_assign_all_keeps_the_rest(d, order);
}

/// An arriving miner takes at most one unit, from the mineral on its tile only,
/// and never below zero; nothing else known about the minerals changes.
pub proof fn lemma_arrival_takes_one_unit(w: WorldView, miner: u32, pos: Point, j: int)
    requires
        world_wf(w),
        0 <= j < w.known_minerals.len(),
    ensures
        ({
            let after = spec_arrival(w, miner, pos);
            let k = w.known_minerals[j];
            let k2 = after.known_minerals[j];
            &&& after.known_minerals.len() == w.known_minerals.len()
            &&& k2 == (if k.pos == pos && k.remaining > 0 { KnownMineral { remaining: (k.remaining - 1) as u32, ..k } } else { k })
            &&& after.assignments == w.assignments.insert(miner, pos)
        }),
{
    if w.known_minerals[j].pos == pos {
        lemma_known_unique(w.known_minerals, pos, j);
    } else if exists|i: int| known_at(w.known_minerals, pos, i) {
        let i = choose|i: int| known_at(w.known_minerals, pos, i);
        assert(i != j);
    }
}

/// What handling `event` does to the world: a found mineral is learned (and idle
/// miners assigned), a move updates the bot's snapshot, an arrival and a delivery
/// are recorded (a delivery also assigns idle miners).
pub open spec fn event_applied(before: WorldView, event: BotEvent, after: WorldView) -> bool {
    match event {
        BotEvent::MineralFound { scout_id, pos, kind } => match spec_learn_mineral(before, pos, kind) {
            None => after == before,
            Some(w1) => assigned_in_some_order(w1, after),
        },
        BotEvent::BotMoved(snapshot) => after == (WorldView { bot_snapshots: before.bot_snapshots.insert(snapshot.id, snapshot), ..before }),
        BotEvent::MinerArrivedAtMineral { miner_id, pos } => after == spec_arrival(before, miner_id, pos),
        BotEvent::ResourcesDelivered { miner_id, pos, amount } => assigned_in_some_order(spec_delivered(before, miner_id, pos, amount), after),
    }
}

impl GameWorld {
    /// Handles one event from the bots (see `event_applied`).
    pub fn apply_event(&mut self, event: BotEvent)
        requires
            old(self).wf(),
            event matches BotEvent::ResourcesDelivered { amount, .. } ==> old(self)@.resources_at_base + amount <= u32::MAX,
        ensures
            final(self).wf(),
            event_applied(old(self)@, event, final(self)@),
    {
        match event {
            BotEvent::MineralFound { pos, kind, .. } => self.record_known_mineral(pos, kind),
            BotEvent::BotMoved(snapshot) => {
                self.bot_snapshots.insert(snapshot.id, snapshot);
            },
            BotEvent::MinerArrivedAtMineral { miner_id, pos } => self.record_miner_arrival(miner_id, pos),
            BotEvent::ResourcesDelivered { miner_id, pos, amount } => self.record_resource_delivery(miner_id, pos, amount),
        }
    }
}

} // verus!
