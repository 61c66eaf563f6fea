use vstd::prelude::*;

use std::collections::VecDeque;

use crate::map::{MapView, Point, WorldMap};

verus! {

/// Progress of a bot towards the next tile of its path: the tile it is entering
/// and how many more ticks that takes.
#[derive(Debug, Clone, Copy, PartialEq, Eq, Structural)]
pub struct MovementProgress {
    pub target: Option<Point>,
    pub ticks_remaining: u32,
}

/// What one tick of movement did.
#[derive(Debug, Clone, Copy, PartialEq, Eq, Structural)]
pub enum MovementStep {
    /// The bot entered this tile.
    Arrived(Point),
    /// The bot is still on its way to its target.
    Waiting,
    /// There was nowhere (walkable) to go.
    Idle,
}

impl Default for MovementProgress {
    fn default() -> (m: Self)
        ensures
            m == (MovementProgress { target: None, ticks_remaining: 0 }),
    {
        MovementProgress { target: None, ticks_remaining: 0 }
    }
}

/// One tick of movement: without a target, the next tile of the path is taken as
/// target (the tick is idle when the path is empty or the tile cannot be entered;
/// such a tile is dropped from the path). Then one tick is spent on the target,
/// and the bot arrives when no ticks remain.
pub open spec fn spec_advance(m: MovementProgress, map: MapView, path: Seq<Point>) -> (MovementProgress, Seq<Point>, MovementStep) {
    if m.target.is_none() && path.len() == 0 {
        (m, path, MovementStep::Idle)
    } else if m.target.is_none() && map.cost(path[0]).is_none() {
        (m, path.drop_first(), MovementStep::Idle)
    } else {
        let (target, ticks, rest) = if m.target.is_none() {
            (path[0], map.cost(path[0]).unwrap(), path.drop_first())
        } else {
            (m.target.unwrap(), m.ticks_remaining, path)
        };
        let left = if ticks > 0 { (ticks - 1) as u32 } else { 0u32 };
        if left == 0 {
            (MovementProgress { target: None, ticks_remaining: 0 }, rest, MovementStep::Arrived(target))
        } else {
            (MovementProgress { target: Some(target), ticks_remaining: left }, rest, MovementStep::Waiting)
        }
    }
}

impl MovementProgress {
    pub fn advance(&mut self, map: &WorldMap, path: &mut VecDeque<Point>) -> (step: MovementStep)
        requires
            map.wf(),
        ensures
            (*final(self), final(path)@, step) == spec_advance(*old(self), map@, old(path)@),
    {
        if self.target.is_none() {
            let next = match path.pop_front() {
                Some(p) => p,
                None => return MovementStep::Idle,
            };
            let ticks = match map.terrain_cost(next) {
                Some(t) => t,
                None => return MovementStep::Idle,
            };
            self.target = Some(next);
            self.ticks_remaining = ticks;
        }
        assert(path@ =~= (if old(self).target.is_none() { old(path)@.drop_first() } else { old(path)@ }));
        self.ticks_remaining = self.ticks_remaining.saturating_sub(1);
        if self.ticks_remaining == 0 {
            let target = match self.target {
                Some(t) => t,
                None => return MovementStep::Idle,
            };
            self.target = None;
            return MovementStep::Arrived(target);
        }
        MovementStep::Waiting
    }
}

/// `n` ticks of movement in a row.
pub open spec fn advance_times(m: MovementProgress, map: MapView, path: Seq<Point>, n: nat) -> (MovementProgress, Seq<Point>, MovementStep)
    decreases n,
{
    if n <= 1 {
        spec_advance(m, map, path)
    } else {
        let (m1, p1, s1) = advance_times(m, map, path, (n - 1) as nat);
        spec_advance(m1, map, p1)
    }
}

/// Entering a tile takes as many ticks as its terrain cost: from rest, with `p` next
/// on the path, the first `cost(p) - 1` ticks wait and the tick after arrives at `p`,
/// leaving the rest of the path.
pub proof fn lemma_entering_takes_cost_ticks(map: MapView, p: Point, rest: Seq<Point>, n: nat)
    requires
        map.cost(p).is_some(),
        1 <= n <= map.cost(p).unwrap(),
    ensures
        ({
            let c = map.cost(p).unwrap();
            let (m, path, step) = advance_times(MovementProgress { target: None, ticks_remaining: 0 }, map, seq![p] + rest, n);
            &&& path == rest
            &&& (n < c ==> step == MovementStep::Waiting && m == (MovementProgress { target: Some(p), ticks_remaining: (c - n) as u32 }))
            &&& (n == c ==> step == MovementStep::Arrived(p) && m == (MovementProgress { target: None, ticks_remaining: 0 }))
        }),
    decreases n,
{
    assert((seq![p] + rest)[0] == p);
    assert((seq![p] + rest).drop_first() =~= rest);
    if n > 1 {
        lemma_entering_takes_cost_ticks(map, p, rest, (n - 1) as nat);
    }
}

} // verus!
