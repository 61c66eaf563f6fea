use vstd::prelude::*;

use super::rng::{lcg_next, lcg_output, SeededRng};
use super::search::{lemma_first_plains_block_found, lemma_first_plains_block_reads_terrain, base_search_order, spec_base_location};
use super::{lemma_index_in_grid, grid_point, Base, MapView, Mineral, MineralKind, Point, Terrain, WorldMap};

verus! {

/// The seed tried at attempt number `attempt` when settling a map from `seed`:
/// the seed moved on by the attempt number, wrapping at 2^32.
pub fn generation_seed(seed: u32, attempt: u32) -> (s: u32)
    ensures
        s == (seed as int + attempt as int) % 0x1_0000_0000,
{
    seed.wrapping_add(attempt)
}

/// Minerals lie on plains, hills or shallow water, one per tile.
pub open spec fn accepts_mineral(terrain: Seq<Terrain>, minerals: Seq<Option<Mineral>>, idx: int) -> bool {
    &&& (terrain[idx] == Terrain::Plains || terrain[idx] == Terrain::Hills || terrain[idx] == Terrain::ShallowWater)
    &&& minerals[idx].is_none()
}

/// Up to `tries` attempts to drop a mineral on a random tile: each attempt draws a
/// column then a row and keeps the first tile that accepts a mineral.
/// Gives the new mineral slots and the generator state afterwards.
pub open spec fn place_attempts(
    terrain: Seq<Terrain>,
    minerals: Seq<Option<Mineral>>,
    w: int,
    h: int,
    state: u64,
    kind: MineralKind,
    value: u32,
    tries: nat,
) -> (Seq<Option<Mineral>>, u64)
    decreases tries,
{
    if tries == 0 {
        (minerals, state)
    } else {
        let s1 = lcg_next(state);
        let x = (lcg_output(s1) as int) % w;
        let s2 = lcg_next(s1);
        let y = (lcg_output(s2) as int) % h;
        let idx = y * w + x;
        if accepts_mineral(terrain, minerals, idx) {
            (minerals.update(idx, Some(Mineral { kind, value, max_value: value })), s2)
        } else {
            place_attempts(terrain, minerals, w, h, s2, kind, value, (tries - 1) as nat)
        }
    }
}

/// `n` deposits of `kind` in turn; each draws its value `lo + output % span`, then
/// makes ten placement attempts.
pub open spec fn deposits(
    terrain: Seq<Terrain>,
    minerals: Seq<Option<Mineral>>,
    w: int,
    h: int,
    state: u64,
    kind: MineralKind,
    lo: u32,
    span: u32,
    n: nat,
) -> (Seq<Option<Mineral>>, u64)
    decreases n,
{
    if n == 0 {
        (minerals, state)
    } else {
        let (m, s) = deposits(terrain, minerals, w, h, state, kind, lo, span, (n - 1) as nat);
        let s1 = lcg_next(s);
        let value = (lo + lcg_output(s1) % span) as u32;
        place_attempts(terrain, m, w, h, s1, kind, value, 10)
    }
}

/// The state the mineral generator starts from for a map seed.
pub open spec fn mineral_rng_start(seed: u32) -> u64 {
    seed.wrapping_add(0x9E37_79B9u32) as u64
}

/// The mineral slots a map gets: starting from no minerals, the energy deposits
/// (values 3 to 8), then the diamond deposits (values 2 to 5).
pub open spec fn spec_mineral_layout(v: MapView) -> Seq<Option<Mineral>> {
    let w = v.width as int;
    let h = v.height as int;
    let none = Seq::new((w * h) as nat, |i: int| None::<Mineral>);
    let (m1, s1) = deposits(v.terrain, none, w, h, mineral_rng_start(v.options.seed.unwrap()), MineralKind::Energy, 3, 6, v.options.energy_count as nat);
    let (m2, s2) = deposits(v.terrain, m1, w, h, s1, MineralKind::Diamond, 2, 4, v.options.diamond_count as nat);
    m2
}

/// The minerals of a row-by-row list of slots, with their tiles, in slot order.
pub open spec fn listed_minerals(w: int, slots: Seq<Option<Mineral>>) -> Seq<(Point, Mineral)>
    decreases slots.len(),
{
    if slots.len() == 0 {
        Seq::empty()
    } else {
        let before = listed_minerals(w, slots.drop_last());
        match slots.last() {
            Some(m) => before.push((grid_point(slots.len() - 1, w), m)),
            None => before,
        }
    }
}

/// The terrain once the four tiles of `b` are marked as base.
pub open spec fn with_base_tiles(v: MapView, b: Base) -> Seq<Terrain> {
    v.terrain
        .update(v.index_of(b.coordinates.0), Terrain::Base)
        .update(v.index_of(b.coordinates.1), Terrain::Base)
        .update(v.index_of(b.coordinates.2), Terrain::Base)
        .update(v.index_of(b.coordinates.3), Terrain::Base)
}

/// What installing terrain `terrain` generated from `seed` does to map `v`: when
/// the scan finds a base site, the base is marked, the seed recorded and the
/// minerals laid out; otherwise only the terrain changes.
pub open spec fn spec_install_terrain(v: MapView, seed: u32, terrain: Seq<Terrain>) -> MapView {
    let t = MapView { terrain, ..v };
    match spec_base_location(t) {
        None => t,
        Some(b) => {
            let settled = MapView {
                terrain: with_base_tiles(t, b),
                base: Some(b),
                options: MapOptions { seed: Some(seed), ..v.options },
                ..t
            };
            MapView { minerals: spec_mineral_layout(settled), ..settled }
        },
    }
}

use super::MapOptions;

/// The two maps differ at most in their mineral slots.
pub open spec fn same_but_minerals(a: MapView, b: MapView) -> bool {
    &&& a.width == b.width
    &&& a.height == b.height
    &&& a.options == b.options
    &&& a.base == b.base
    &&& a.terrain == b.terrain
}

impl WorldMap {
    fn try_place_mineral(&mut self, kind: MineralKind, value: u32, rng: &mut SeededRng)
        requires
            old(self).wf(),
            old(self)@.terrain.len() == old(self)@.width * old(self)@.height,
            old(self)@.width > 0,
            old(self)@.height > 0,
        ensures
            final(self).wf(),
            (final(self)@.minerals, final(rng)@) == place_attempts(old(self)@.terrain, old(self)@.minerals, old(self)@.width as int, old(self)@.height as int, old(rng)@, kind, value, 10),
            same_but_minerals(final(self)@, old(self)@),
    {
        let ghost goal = place_attempts(self@.terrain, self@.minerals, self.width as int, self.height as int, rng@, kind, value, 10);
        let mut attempt: usize = 0;
        while attempt < 10
            invariant
                self.wf(),
                same_but_minerals(self@, old(self)@),
                self@.width > 0,
                self@.height > 0,
                self@.terrain.len() == self@.width * self@.height,
                attempt <= 10,
                goal == place_attempts(old(self)@.terrain, old(self)@.minerals, old(self)@.width as int, old(self)@.height as int, old(rng)@, kind, value, 10),
                goal == place_attempts(self@.terrain, self@.minerals, self.width as int, self.height as int, rng@, kind, value, (10 - attempt) as nat),
            decreases 10 - attempt,
        {
            let ghost m0 = self@.minerals;
            let ghost st = rng@;
            let ghost tries = (10 - attempt) as nat;
            let x = rng.range_usize(0..self.width);
            let y = rng.range_usize(0..self.height);
            proof {
                lemma_index_in_grid(x as int, y as int, self.width as int, self.height as int);
            }
            let idx = y * self.width + x;
            let ghost s2 = rng@;
            assert(x as int == (lcg_output(lcg_next(st)) as int) % (self.width as int));
            assert(y as int == (lcg_output(s2) as int) % (self.height as int));
            assert(place_attempts(self@.terrain, m0, self.width as int, self.height as int, st, kind, value, tries)
                == (if accepts_mineral(self@.terrain, m0, idx as int) {
                    (m0.update(idx as int, Some(Mineral { kind, value, max_value: value })), s2)
                } else {
                    place_attempts(self@.terrain, m0, self.width as int, self.height as int, s2, kind, value, (tries - 1) as nat)
                }));
            let terrain = self.terrain_map[idx];
            if (terrain == Terrain::Plains || terrain == Terrain::Hills || terrain == Terrain::ShallowWater)
                && self.mineral_map[idx].is_none()
            {
                assert(accepts_mineral(self@.terrain, m0, idx as int));
                self.mineral_map.set(idx, Some(Mineral { kind, value, max_value: value }));
                assert(self@.minerals == m0.update(idx as int, Some(Mineral { kind, value, max_value: value })));
                assert(goal == (self@.minerals, rng@));
                return;
            }
            attempt += 1;
        }
    }

    /// Lays out the minerals of the map afresh from its seed (see `spec_mineral_layout`).
    fn create_minerals(&mut self)
        requires
            old(self).wf(),
            old(self)@.terrain.len() == old(self)@.width * old(self)@.height,
            old(self)@.width > 0,
            old(self)@.height > 0,
            old(self)@.options.seed.is_some(),
        ensures
            final(self).wf(),
            final(self)@ == (MapView { minerals: spec_mineral_layout(old(self)@), ..old(self)@ }),
    {
        let n = self.width * self.height;
        let mut fresh: Vec<Option<Mineral>> = Vec::with_capacity(n);
        let mut i: usize = 0;
        while i < n
            invariant
                i <= n,
                fresh@ == Seq::new(i as nat, |j: int| None::<Mineral>),
            decreases n - i,
        {
            fresh.push(None);
            i += 1;
            assert(fresh@ =~= Seq::new(i as nat, |j: int| None::<Mineral>));
        }
        self.mineral_map = fresh;
        let seed = self.seed();
        let mut rng = SeededRng::new(seed.wrapping_add(0x9E37_79B9));
        let ghost v = old(self)@;
        let ghost w = v.width as int;
        let ghost h = v.height as int;
        let ghost none = Seq::new((w * h) as nat, |i: int| None::<Mineral>);

        let energy = self.options.energy_count;
        self.lay_deposits(&mut rng, MineralKind::Energy, 3, 8, energy);
        let diamonds = self.options.diamond_count;
        self.lay_deposits(&mut rng, MineralKind::Diamond, 2, 5, diamonds);
    }

    /// `count` deposits of `kind` with values drawn from `lo..=hi`.
    fn lay_deposits(&mut self, rng: &mut SeededRng, kind: MineralKind, lo: u32, hi: u32, count: u32)
        requires
            old(self).wf(),
            old(self)@.terrain.len() == old(self)@.width * old(self)@.height,
            old(self)@.width > 0,
            old(self)@.height > 0,
            lo <= hi < u32::MAX,
        ensures
            final(self).wf(),
            same_but_minerals(final(self)@, old(self)@),
            (final(self)@.minerals, final(rng)@) == deposits(old(self)@.terrain, old(self)@.minerals, old(self)@.width as int, old(self)@.height as int, old(rng)@, kind, lo, (hi - lo + 1) as u32, count as nat),
    {
        let ghost v = self@;
        let ghost s0 = rng@;
        let ghost w = v.width as int;
        let ghost h = v.height as int;
        let ghost span = (hi - lo + 1) as u32;
        let mut placed: u32 = 0;
        while placed < count
            invariant
                self.wf(),
                same_but_minerals(self@, v),
                v.terrain.len() == v.width * v.height,
                v.width > 0,
                v.height > 0,
                lo <= hi < u32::MAX,
                span == hi - lo + 1,
                w == v.width as int,
                h == v.height as int,
                placed <= count,
                (self@.minerals, rng@) == deposits(v.terrain, v.minerals, w, h, s0, kind, lo, span, placed as nat),
            decreases count - placed,
        {
            let ghost before = (self@.minerals, rng@);
            let value = rng.range_u32_inclusive(lo..=hi);
            assert(value == (lo + lcg_output(rng@) % span) as u32);
            let ghost mid = rng@;
            assert(mid == lcg_next(before.1));
            self.try_place_mineral(kind, value, rng);
            assert((self@.minerals, rng@) == place_attempts(v.terrain, before.0, w, h, mid, kind, value, 10));
            assert(deposits(v.terrain, v.minerals, w, h, s0, kind, lo, span, (placed + 1) as nat)
                == place_attempts(v.terrain, before.0, w, h, lcg_next(before.1), kind, (lo + lcg_output(lcg_next(before.1)) % span) as u32, 10));
            placed += 1;
        }
    }
}


impl WorldMap {
    /// Every mineral on the map with its tile, row by row.
    pub fn minerals(&self) -> (ms: Vec<(Point, Mineral)>)
        requires
            self.wf(),
        ensures
            ms@ == listed_minerals(self@.width as int, self@.minerals),
    {
        let mut minerals: Vec<(Point, Mineral)> = Vec::new();
        let n = self.mineral_map.len();
        let mut idx: usize = 0;
        while idx < n
            invariant
                self.wf(),
                n == self@.minerals.len(),
                idx <= n,
                minerals@ == listed_minerals(self@.width as int, self@.minerals.take(idx as int)),
            decreases n - idx,
        {
            assert(self@.minerals.take(idx + 1).drop_last() =~= self@.minerals.take(idx as int));
            match self.mineral_map[idx] {
                Some(mineral) => {
                    // A map with a mineral slot has a positive width.
                    let coordinates = Point { x: idx % self.width, y: idx / self.width };
                    minerals.push((coordinates, mineral));
                },
                None => {},
            }
            idx += 1;
        }
        assert(self@.minerals.take(n as int) =~= self@.minerals);
        minerals
    }

    fn set_terrain_at(&mut self, coordinates: Point, terrain: Terrain)
        requires
            old(self).wf(),
            old(self)@.in_bounds(coordinates),
            old(self)@.terrain.len() == old(self)@.width * old(self)@.height,
        ensures
            final(self).wf(),
            final(self)@ == (MapView { terrain: old(self)@.terrain.update(old(self)@.index_of(coordinates), terrain), ..old(self)@ }),
    {
        let index = match self.get_index_from_coordinates(coordinates) {
            Some(i) => i,
            None => return,
        };
        self.terrain_map.set(index, terrain);
    }

    /// Installs terrain generated from `generation_seed` and tries to settle on it:
    /// when the scan finds a 2x2 block of plains the block becomes the base, the seed
    /// is recorded and the minerals are laid out, and `true` is returned; otherwise
    /// only the terrain is replaced and `false` is returned.
    pub fn install_terrain(&mut self, generation_seed: u32, terrain: Vec<Terrain>) -> (settled: bool)
        requires
            old(self).wf(),
            terrain.len() == old(self)@.width * old(self)@.height,
            old(self)@.width > 0,
            old(self)@.height > 0,
        ensures
            final(self).wf(),
            final(self)@ == spec_install_terrain(old(self)@, generation_seed, terrain@),
            settled == spec_base_location(MapView { terrain: terrain@, ..old(self)@ }).is_some(),
    {
        self.terrain_map = terrain;
        let ghost t = self@;
        match self.find_base_location() {
            None => false,
            Some(base) => {
                self.options.seed = Some(generation_seed);
                let b = base.coordinates;
                self.set_terrain_at(b.0, Terrain::Base);
                self.set_terrain_at(b.1, Terrain::Base);
                self.set_terrain_at(b.2, Terrain::Base);
                self.set_terrain_at(b.3, Terrain::Base);
                self.base = Some(base);
                assert(self@.terrain == with_base_tiles(t, base));
                self.create_minerals();
                true
            },
        }
    }
}


/// Terrain a mineral may lie on.
pub open spec fn holds_minerals(t: Terrain) -> bool {
    t == Terrain::Plains || t == Terrain::Hills || t == Terrain::ShallowWater
}

/// A mineral value fit for its kind: energy deposits hold 3 to 8 units, diamond
/// deposits 2 to 5, and a fresh deposit is full.
pub open spec fn fresh_deposit(m: Mineral) -> bool {
    &&& m.value == m.max_value
    &&& (m.kind == MineralKind::Energy ==> 3 <= m.value <= 8)
    &&& (m.kind == MineralKind::Diamond ==> 2 <= m.value <= 5)
}

/// One slot per tile, and every mineral is a fresh deposit on plains, hills or
/// shallow water.
pub open spec fn sound_layout(terrain: Seq<Terrain>, slots: Seq<Option<Mineral>>) -> bool {
    &&& slots.len() == terrain.len()
    &&& forall|i: int| 0 <= i < slots.len() && #[trigger] slots[i] is Some ==> holds_minerals(terrain[i]) && fresh_deposit(slots[i]->0)
}

proof fn lemma_attempts_sound(terrain: Seq<Terrain>, minerals: Seq<Option<Mineral>>, w: int, h: int, state: u64, kind: MineralKind, value: u32, tries: nat)
    requires
        w > 0,
        h > 0,
        terrain.len() == w * h,
        sound_layout(terrain, minerals),
        fresh_deposit(Mineral { kind, value, max_value: value }),
    ensures
        sound_layout(terrain, place_attempts(terrain, minerals, w, h, state, kind, value, tries).0),
    decreases tries,
{
    if tries > 0 {
        let s1 = lcg_next(state);
        let x = (lcg_output(s1) as int) % w;
        let s2 = lcg_next(s1);
        let y = (lcg_output(s2) as int) % h;
        lemma_index_in_grid(x, y, w, h);
        lemma_attempts_sound(terrain, minerals, w, h, s2, kind, value, (tries - 1) as nat);
    }
}

proof fn lemma_deposits_sound(terrain: Seq<Terrain>, minerals: Seq<Option<Mineral>>, w: int, h: int, state: u64, kind: MineralKind, lo: u32, span: u32, n: nat)
    requires
        w > 0,
        h > 0,
        terrain.len() == w * h,
        sound_layout(terrain, minerals),
        span > 0,
        kind == MineralKind::Energy ==> 3 <= lo && lo + span <= 9,
        kind == MineralKind::Diamond ==> 2 <= lo && lo + span <= 6,
    ensures
        sound_layout(terrain, deposits(terrain, minerals, w, h, state, kind, lo, span, n).0),
    decreases n,
{
    if n > 0 {
        lemma_deposits_sound(terrain, minerals, w, h, state, kind, lo, span, (n - 1) as nat);
        let (m, s) = deposits(terrain, minerals, w, h, state, kind, lo, span, (n - 1) as nat);
        let s1 = lcg_next(s);
        let value = (lo + lcg_output(s1) % span) as u32;
        lemma_attempts_sound(terrain, m, w, h, s1, kind, value, 10);
    }
}

/// Minerals are only laid on plains, hills or shallow water, one slot per tile,
/// each a full deposit of 3 to 8 units of energy or 2 to 5 diamonds.
pub proof fn lemma_minerals_on_open_ground(v: MapView)
    requires
        v.width > 0,
        v.height > 0,
        v.terrain.len() == v.width * v.height,
    ensures
        sound_layout(v.terrain, spec_mineral_layout(v)),
{
    let w = v.width as int;
    let h = v.height as int;
    let none = Seq::new((w * h) as nat, |i: int| None::<Mineral>);
    let (m1, s1) = deposits(v.terrain, none, w, h, mineral_rng_start(v.options.seed.unwrap()), MineralKind::Energy, 3, 6, v.options.energy_count as nat);
    lemma_deposits_sound(v.terrain, none, w, h, mineral_rng_start(v.options.seed.unwrap()), MineralKind::Energy, 3, 6, v.options.energy_count as nat);
    lemma_deposits_sound(v.terrain, m1, w, h, s1, MineralKind::Diamond, 2, 4, v.options.diamond_count as nat);
}

/// Once terrain is installed and a base settled, the four base tiles are base
/// terrain and no mineral lies on them (nor anywhere but plains, hills or shallow
/// water).
pub proof fn lemma_settled_map_keeps_base_clear(v: MapView, seed: u32, terrain: Seq<Terrain>)
    requires
        v.wf(),
        v.width > 0,
        v.height > 0,
        terrain.len() == v.width * v.height,
        spec_base_location(MapView { terrain, ..v }) is Some,
    ensures
        ({
            let after = spec_install_terrain(v, seed, terrain);
            let b = after.base->0;
            &&& after.base == spec_base_location(MapView { terrain, ..v })
            &&& after.options.seed == Some(seed)
            &&& after.terrain_at(b.coordinates.0) == Some(Terrain::Base)
            &&& after.terrain_at(b.coordinates.1) == Some(Terrain::Base)
            &&& after.terrain_at(b.coordinates.2) == Some(Terrain::Base)
            &&& after.terrain_at(b.coordinates.3) == Some(Terrain::Base)
            &&& sound_layout(after.terrain, after.minerals)
        }),
{
    let t = MapView { terrain, ..v };
    lemma_first_plains_block_found(t, base_search_order(t.width as int, t.height as int));
    let b = spec_base_location(t)->0;
    let p = b.coordinates.0;
    let w = v.width as int;
    let i = p.y * w + p.x;
    assert(t.index_of(b.coordinates.1) == i + 1);
    assert(t.index_of(b.coordinates.2) == i + w) by (nonlinear_arith)
        requires
            t.index_of(b.coordinates.2) == (p.y + 1) * w + p.x,
            i == p.y * w + p.x;
    assert(t.index_of(b.coordinates.3) == i + w + 1) by (nonlinear_arith)
        requires
            t.index_of(b.coordinates.3) == (p.y + 1) * w + p.x + 1,
            i == p.y * w + p.x;
    lemma_index_in_grid(p.x + 1, p.y + 1, w, v.height as int);
    lemma_index_in_grid(p.x as int, p.y as int, w, v.height as int);
    assert(i + w + 1 == (p.y + 1) * w + p.x + 1) by (nonlinear_arith)
        requires
            i == p.y * w + p.x;
    let settled = MapView {
        terrain: with_base_tiles(t, b),
        base: Some(b),
        options: MapOptions { seed: Some(seed), ..v.options },
        ..t
    };
    lemma_minerals_on_open_ground(settled);
}

proof fn lemma_listed_fill_slot(w: int, s: Seq<Option<Mineral>>, idx: int, m: Mineral)
    requires
        0 <= idx < s.len(),
        s[idx] is None,
    ensures
        listed_minerals(w, s.update(idx, Some(m))).len() == listed_minerals(w, s).len() + 1,
    decreases s.len(),
{
    let t = s.update(idx, Some(m));
    if idx == s.len() - 1 {
        assert(t.drop_last() =~= s.drop_last());
    } else {
        assert(t.drop_last() =~= s.drop_last().update(idx, Some(m)));
        lemma_listed_fill_slot(w, s.drop_last(), idx, m);
    }
}

proof fn lemma_listed_no_minerals(w: int, n: nat)
    ensures
        listed_minerals(w, Seq::new(n, |i: int| None::<Mineral>)).len() == 0,
    decreases n,
{
    if n > 0 {
        assert(Seq::new(n, |i: int| None::<Mineral>).drop_last() =~= Seq::new((n - 1) as nat, |i: int| None::<Mineral>));
        lemma_listed_no_minerals(w, (n - 1) as nat);
    }
}

proof fn lemma_attempts_add_at_most_one(terrain: Seq<Terrain>, minerals: Seq<Option<Mineral>>, w: int, h: int, state: u64, kind: MineralKind, value: u32, tries: nat)
    requires
        w > 0,
        h > 0,
        minerals.len() == w * h,
    ensures
        place_attempts(terrain, minerals, w, h, state, kind, value, tries).0.len() == minerals.len(),
        listed_minerals(w, place_attempts(terrain, minerals, w, h, state, kind, value, tries).0).len() <= listed_minerals(w, minerals).len() + 1,
    decreases tries,
{
    if tries > 0 {
        let s1 = lcg_next(state);
        let x = (lcg_output(s1) as int) % w;
        let s2 = lcg_next(s1);
        let y = (lcg_output(s2) as int) % h;
        lemma_index_in_grid(x, y, w, h);
        let idx = y * w + x;
        if accepts_mineral(terrain, minerals, idx) {
            lemma_listed_fill_slot(w, minerals, idx, Mineral { kind, value, max_value: value });
        } else {
            lemma_attempts_add_at_most_one(terrain, minerals, w, h, s2, kind, value, (tries - 1) as nat);
        }
    }
}

proof fn lemma_deposits_add_at_most(terrain: Seq<Terrain>, minerals: Seq<Option<Mineral>>, w: int, h: int, state: u64, kind: MineralKind, lo: u32, span: u32, n: nat)
    requires
        w > 0,
        h > 0,
        minerals.len() == w * h,
    ensures
        deposits(terrain, minerals, w, h, state, kind, lo, span, n).0.len() == minerals.len(),
        listed_minerals(w, deposits(terrain, minerals, w, h, state, kind, lo, span, n).0).len() <= listed_minerals(w, minerals).len() + n,
    decreases n,
{
    if n > 0 {
        lemma_deposits_add_at_most(terrain, minerals, w, h, state, kind, lo, span, (n - 1) as nat);
        let (m, st) = deposits(terrain, minerals, w, h, state, kind, lo, span, (n - 1) as nat);
        let s1 = lcg_next(st);
        let value = (lo + lcg_output(s1) % span) as u32;
        lemma_attempts_add_at_most_one(terrain, m, w, h, s1, kind, value, 10);
    }
}

/// A mineral layout holds at most as many minerals as deposits were asked for:
/// the energy count plus the diamond count (a deposit whose ten placement
/// attempts all fail is left out).
pub proof fn lemma_mineral_count_bounded(v: MapView)
    requires
        v.width > 0,
        v.height > 0,
    ensures
        listed_minerals(v.width as int, spec_mineral_layout(v)).len() <= v.options.energy_count + v.options.diamond_count,
{
    let w = v.width as int;
    let h = v.height as int;
    let none = Seq::new((w * h) as nat, |i: int| None::<Mineral>);
    lemma_listed_no_minerals(w, (w * h) as nat);
    let (m1, s1) = deposits(v.terrain, none, w, h, mineral_rng_start(v.options.seed.unwrap()), MineralKind::Energy, 3, 6, v.options.energy_count as nat);
    lemma_deposits_add_at_most(v.terrain, none, w, h, mineral_rng_start(v.options.seed.unwrap()), MineralKind::Energy, 3, 6, v.options.energy_count as nat);
    lemma_deposits_add_at_most(v.terrain, m1, w, h, s1, MineralKind::Diamond, 2, 4, v.options.diamond_count as nat);
}

/// Once a base is settled, the map lists at most the energy count plus the
/// diamond count of minerals.
pub proof fn lemma_settled_mineral_count(v: MapView, seed: u32, terrain: Seq<Terrain>)
    requires
        v.wf(),
        v.width > 0,
        v.height > 0,
        terrain.len() == v.width * v.height,
        spec_base_location(MapView { terrain, ..v }) is Some,
    ensures
        ({
            let after = spec_install_terrain(v, seed, terrain);
            listed_minerals(after.width as int, after.minerals).len() <= after.options.energy_count + after.options.diamond_count
        }),
{
    let t = MapView { terrain, ..v };
    let b = spec_base_location(t)->0;
    let settled = MapView {
        terrain: with_base_tiles(t, b),
        base: Some(b),
        options: MapOptions { seed: Some(seed), ..v.options },
        ..t
    };
    lemma_mineral_count_bounded(settled);
}

/// Settling is reproducible: two maps of the same size and options that settle
/// on the same terrain from the same seed end up identical, whatever minerals,
/// base or terrain they held before.
pub proof fn lemma_install_reproducible(a: MapView, b: MapView, seed: u32, terrain: Seq<Terrain>)
    requires
        a.width == b.width,
        a.height == b.height,
        a.options == b.options,
        spec_base_location(MapView { terrain, ..a }) is Some,
    ensures
        spec_install_terrain(a, seed, terrain) == spec_install_terrain(b, seed, terrain),
{
    let ta = MapView { terrain, ..a };
    let tb = MapView { terrain, ..b };
    lemma_first_plains_block_reads_terrain(ta, tb, base_search_order(a.width as int, a.height as int));
    if let Some(base) = spec_base_location(ta) {
        assert(with_base_tiles(ta, base) == with_base_tiles(tb, base));
    }
}

} // verus!
