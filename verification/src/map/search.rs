use vstd::prelude::*;

use super::{block_at, Base, MapView, Point, Terrain, WorldMap};

verus! {

/// `a` when positive, zero otherwise.
pub open spec fn clamp0(a: int) -> int {
    if a > 0 { a } else { 0 }
}

pub open spec fn min_int(a: int, b: int) -> int {
    if a <= b { a } else { b }
}

/// Number of integers from `lo` to `hi` inclusive.
pub open spec fn span_len(lo: int, hi: int) -> nat {
    if hi >= lo { (hi - lo + 1) as nat } else { 0 }
}

/// The tiles `(lo, y)`, `(lo + 1, y)`, ..., `(hi, y)`.
pub open spec fn row_run(lo: int, hi: int, y: int) -> Seq<Point> {
    Seq::new(span_len(lo, hi), |i: int| Point { x: (lo + i) as usize, y: y as usize })
}

/// The tiles `(x, lo)`, `(x, lo + 1)`, ..., `(x, hi)`.
pub open spec fn column_run(x: int, lo: int, hi: int) -> Seq<Point> {
    Seq::new(span_len(lo, hi), |i: int| Point { x: x as usize, y: (lo + i) as usize })
}

/// Candidates on the upper side of ring `k` around `(cx, cy)`, left to right.
pub open spec fn ring_top(cx: int, cy: int, k: int) -> Seq<Point> {
    row_run(clamp0(cx - k), cx + k, clamp0(cy - k))
}

/// Candidates on the right side of ring `k`, top to bottom.
pub open spec fn ring_right(cx: int, cy: int, k: int) -> Seq<Point> {
    column_run(cx + k, clamp0(cy - k) + 1, cy + k)
}

/// Candidates the scan tries on the lower side of ring `k`: the columns from
/// `cx + k - 1` up to `cx - k + 1` (clamped at zero), never right of `cx + k`.
pub open spec fn ring_bottom(cx: int, cy: int, k: int) -> Seq<Point> {
    row_run(clamp0(cx + k - 1), min_int(clamp0(cx - k) + 1, cx + k), cy + k)
}

/// Candidates the scan tries on the left side of ring `k`: the rows from
/// `cy + k - 1` up to `cy - k + 1` (clamped at zero), never below `cy + k`.
pub open spec fn ring_left(cx: int, cy: int, k: int) -> Seq<Point> {
    column_run(clamp0(cx - k), clamp0(cy + k - 1), min_int(clamp0(cy - k) + 1, cy + k))
}

pub open spec fn ring(cx: int, cy: int, k: int) -> Seq<Point> {
    ring_top(cx, cy, k) + ring_right(cx, cy, k) + ring_bottom(cx, cy, k) + ring_left(cx, cy, k)
}

/// Rings `k`, `k + 1`, ..., `n - 1`, in that order.
pub open spec fn rings_from(cx: int, cy: int, k: int, n: int) -> Seq<Point>
    decreases n - k,
{
    if k >= n {
        Seq::empty()
    } else {
        ring(cx, cy, k) + rings_from(cx, cy, k + 1, n)
    }
}

/// The largest ring the scan visits on a `w` by `h` map.
pub open spec fn last_ring(w: int, h: int) -> int {
    let cx = w / 2;
    let cy = h / 2;
    let a = if cx >= cy { cx } else { cy };
    let b = if w - cx - 1 >= h - cy - 1 { w - cx - 1 } else { h - cy - 1 };
    if a >= b { a } else { b }
}

/// The order in which top-left corners of the base are tried: rings of growing
/// size around the middle of the map.
pub open spec fn base_search_order(w: int, h: int) -> Seq<Point> {
    rings_from(w / 2, h / 2, 0, last_ring(w, h) + 1)
}

/// The first tile of `s` whose 2x2 block is plains.
pub open spec fn first_plains_block(v: MapView, s: Seq<Point>) -> Option<Point>
    decreases s.len(),
{
    if s.len() == 0 {
        None
    } else if v.plains_block(s[0]) {
        Some(s[0])
    } else {
        first_plains_block(v, s.drop_first())
    }
}

/// Where the scan puts the base: the block at the first candidate that is all plains.
pub open spec fn spec_base_location(v: MapView) -> Option<Base> {
    match first_plains_block(v, base_search_order(v.width as int, v.height as int)) {
        Some(p) => Some(block_at(p)),
        None => None,
    }
}

/// The tile the scan stops at starts a block of plains.
pub proof fn lemma_first_plains_block_found(v: MapView, s: Seq<Point>)
    ensures
        first_plains_block(v, s) matches Some(p) ==> v.plains_block(p),
    decreases s.len(),
{
    if s.len() > 0 && !v.plains_block(s[0]) {
        lemma_first_plains_block_found(v, s.drop_first());
    }
}

/// The scan reads only the size and the terrain of the map.
pub proof fn lemma_first_plains_block_reads_terrain(a: MapView, b: MapView, s: Seq<Point>)
    requires
        a.width == b.width,
        a.height == b.height,
        a.terrain == b.terrain,
    ensures
        first_plains_block(a, s) == first_plains_block(b, s),
    decreases s.len(),
{
    if s.len() > 0 {
        assert(a.plains_block(s[0]) == b.plains_block(s[0]));
        lemma_first_plains_block_reads_terrain(a, b, s.drop_first());
    }
}

proof fn lemma_first_cons(v: MapView, s: Seq<Point>, r: Seq<Point>)
    requires
        s.len() > 0,
    ensures
        first_plains_block(v, s + r) == (if v.plains_block(s[0]) { Some(s[0]) } else { first_plains_block(v, s.drop_first() + r) }),
{
    assert((s + r)[0] == s[0]);
    assert((s + r).drop_first() =~= s.drop_first() + r);
}

proof fn lemma_run_step(run: Seq<Point>, t: int, r: Seq<Point>)
    requires
        0 <= t < run.len(),
    ensures
        run.skip(t).len() > 0,
        run.skip(t)[0] == run[t],
        run.skip(t).drop_first() + r == run.skip(t + 1) + r,
{
    assert(run.skip(t).drop_first() =~= run.skip(t + 1));
}

impl WorldMap {
    fn is_valid_2x2_plains_block(&self, x: usize, y: usize) -> (b: bool)
        requires
            self.wf(),
            x < usize::MAX,
            y < usize::MAX,
        ensures
            b == self@.plains_block(Point { x, y }),
    {
        if x + 1 >= self.width || y + 1 >= self.height {
            return false;
        }
        self.terrain_at(Point { x, y }) == Some(Terrain::Plains)
            && self.terrain_at(Point { x: x + 1, y }) == Some(Terrain::Plains)
            && self.terrain_at(Point { x, y: y + 1 }) == Some(Terrain::Plains)
            && self.terrain_at(Point { x: x + 1, y: y + 1 }) == Some(Terrain::Plains)
    }
}


impl WorldMap {
    /// Tries the corners `(lo, y)` to `(hi, y)` in turn.
    fn scan_row(&self, lo: usize, hi: usize, y: usize, Ghost(rest): Ghost<Seq<Point>>) -> (found: Option<Point>)
        requires
            self.wf(),
            hi < usize::MAX,
            y < usize::MAX,
        ensures
            found matches Some(p) ==> self@.plains_block(p),
            match found {
                Some(p) => first_plains_block(self@, row_run(lo as int, hi as int, y as int) + rest) == Some(p),
                None => first_plains_block(self@, row_run(lo as int, hi as int, y as int) + rest) == first_plains_block(self@, rest),
            },
    {
        let ghost run = row_run(lo as int, hi as int, y as int);
        let mut x = lo;
        assert(run.skip(0) =~= run);
        while x <= hi
            invariant
                self.wf(),
                hi < usize::MAX,
                y < usize::MAX,
                lo <= x <= hi + 1 || (x == lo && lo > hi),
                run == row_run(lo as int, hi as int, y as int),
                first_plains_block(self@, run + rest) == first_plains_block(self@, run.skip(x - lo) + rest),
            decreases hi + 1 - x,
        {
            let t = x - lo;
            proof {
                lemma_run_step(run, t as int, rest);
                lemma_first_cons(self@, run.skip(t as int), rest);
            }
            if self.is_valid_2x2_plains_block(x, y) {
                return Some(Point { x, y });
            }
            x += 1;
        }
        assert(run.skip(x - lo) =~= Seq::<Point>::empty());
        assert(run.skip(x - lo) + rest =~= rest);
        None
    }

    /// Tries the corners `(x, lo)` to `(x, hi)` in turn.
    fn scan_column(&self, x: usize, lo: usize, hi: usize, Ghost(rest): Ghost<Seq<Point>>) -> (found: Option<Point>)
        requires
            self.wf(),
            hi < usize::MAX,
            x < usize::MAX,
        ensures
            found matches Some(p) ==> self@.plains_block(p),
            match found {
                Some(p) => first_plains_block(self@, column_run(x as int, lo as int, hi as int) + rest) == Some(p),
                None => first_plains_block(self@, column_run(x as int, lo as int, hi as int) + rest) == first_plains_block(self@, rest),
            },
    {
        let ghost run = column_run(x as int, lo as int, hi as int);
        let mut y = lo;
        assert(run.skip(0) =~= run);
        while y <= hi
            invariant
                self.wf(),
                hi < usize::MAX,
                x < usize::MAX,
                lo <= y <= hi + 1 || (y == lo && lo > hi),
                run == column_run(x as int, lo as int, hi as int),
                first_plains_block(self@, run + rest) == first_plains_block(self@, run.skip(y - lo) + rest),
            decreases hi + 1 - y,
        {
            let t = y - lo;
            proof {
                lemma_run_step(run, t as int, rest);
                lemma_first_cons(self@, run.skip(t as int), rest);
            }
            if self.is_valid_2x2_plains_block(x, y) {
                return Some(Point { x, y });
            }
            y += 1;
        }
        assert(run.skip(y - lo) =~= Seq::<Point>::empty());
        assert(run.skip(y - lo) + rest =~= rest);
        None
    }

    /// Tries the corners of ring `k` around the middle of the map: upper side left
    /// to right, right side top to bottom, then the lower and left sides.
    fn scan_ring(&self, center_x: usize, center_y: usize, k: usize, Ghost(later): Ghost<Seq<Point>>) -> (found: Option<Point>)
        requires
            self.wf(),
            center_x + k + 1 <= usize::MAX,
            center_y + k + 1 <= usize::MAX,
        ensures
            found matches Some(p) ==> self@.plains_block(p),
            match found {
                Some(p) => first_plains_block(self@, ring(center_x as int, center_y as int, k as int) + later) == Some(p),
                None => first_plains_block(self@, ring(center_x as int, center_y as int, k as int) + later) == first_plains_block(self@, later),
            },
    {
        let ghost cx = center_x as int;
        let ghost cy = center_y as int;
        let ghost top = ring_top(cx, cy, k as int);
        let ghost right = ring_right(cx, cy, k as int);
        let ghost bottom = ring_bottom(cx, cy, k as int);
        let ghost left = ring_left(cx, cy, k as int);
        assert(ring(cx, cy, k as int) + later =~= top + (right + (bottom + (left + later))));

        let found = self.scan_row(center_x.saturating_sub(k), center_x + k, center_y.saturating_sub(k), Ghost(right + (bottom + (left + later))));
        if found.is_some() {
            return found;
        }
        let found = self.scan_column(center_x + k, center_y.saturating_sub(k) + 1, center_y + k, Ghost(bottom + (left + later)));
        if found.is_some() {
            return found;
        }
        let bottom_end = if center_x.saturating_sub(k) + 1 <= center_x + k { center_x.saturating_sub(k) + 1 } else { center_x + k };
        let found = self.scan_row((center_x + k).saturating_sub(1), bottom_end, center_y + k, Ghost(left + later));
        if found.is_some() {
            return found;
        }
        let left_end = if center_y.saturating_sub(k) + 1 <= center_y + k { center_y.saturating_sub(k) + 1 } else { center_y + k };
        self.scan_column(center_x.saturating_sub(k), (center_y + k).saturating_sub(1), left_end, Ghost(later))
    }

    /// Looks for a 2x2 block of plains, trying top-left corners in rings of growing
    /// size around the middle of the map (see `base_search_order`).
    pub fn find_base_location(&self) -> (b: Option<Base>)
        requires
            self.wf(),
            self@.width > 0,
            self@.height > 0,
        ensures
            b == spec_base_location(self@),
            b matches Some(base) ==> self@.plains_block(base.coordinates.0),
    {
        let w = self.width;
        let h = self.height;
        let center_x = w / 2;
        let center_y = h / 2;
        let a = if center_x >= center_y { center_x } else { center_y };
        let b = if w - center_x - 1 >= h - center_y - 1 { w - center_x - 1 } else { h - center_y - 1 };
        let k_max = if a >= b { a } else { b };
        let ghost cx = center_x as int;
        let ghost cy = center_y as int;
        let ghost n = k_max + 1;
        assert(k_max == last_ring(w as int, h as int));
        assert(center_x + k_max + 1 <= w + h);
        assert(center_y + k_max + 1 <= w + h);
        let mut k: usize = 0;
        while k <= k_max
            invariant
                self.wf(),
                w == self@.width,
                h == self@.height,
                center_x == w / 2,
                center_y == h / 2,
                cx == center_x,
                cy == center_y,
                k_max == last_ring(w as int, h as int),
                center_x + k_max + 1 <= usize::MAX,
                center_y + k_max + 1 <= usize::MAX,
                n == k_max + 1,
                k <= k_max + 1,
                first_plains_block(self@, base_search_order(w as int, h as int)) == first_plains_block(self@, rings_from(cx, cy, k as int, n)),
            decreases k_max + 1 - k,
        {
            assert(rings_from(cx, cy, k as int, n) == ring(cx, cy, k as int) + rings_from(cx, cy, k + 1, n));
            match self.scan_ring(center_x, center_y, k, Ghost(rings_from(cx, cy, k + 1, n))) {
                Some(p) => return Some(block_from_corner(p)),
                None => {},
            }
            k += 1;
        }
        None
    }
}

/// The 2x2 block whose top-left tile is `p`.
fn block_from_corner(p: Point) -> (b: Base)
    requires
        p.x < usize::MAX,
        p.y < usize::MAX,
    ensures
        b == block_at(p),
{
    Base { coordinates: (p, Point { x: p.x + 1, y: p.y }, Point { x: p.x, y: p.y + 1 }, Point { x: p.x + 1, y: p.y + 1 }) }
}

} // verus!
