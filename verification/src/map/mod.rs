use vstd::prelude::*;

pub mod minerals;
pub mod rng;
pub mod search;

pub use rng::SeededRng;

verus! {

/// The kind of ground a tile is made of.
#[derive(Debug, Clone, Copy, PartialEq, Eq, Structural)]
pub enum Terrain {
    DeepWater,
    ShallowWater,
    Plains,
    Hills,
    Mountains,
    Base,
}

/// The two kinds of minerals that can be harvested.
#[derive(Debug, Clone, Copy, PartialEq, Eq, Structural)]
pub enum MineralKind {
    Energy,
    Diamond,
}

/// A mineral deposit: its kind, how many units are left and how many it started with.
#[derive(Debug, Clone, Copy, PartialEq, Eq, Structural)]
pub struct Mineral {
    pub kind: MineralKind,
    pub value: u32,
    pub max_value: u32,
}

/// A tile coordinate; `x` grows to the east and `y` to the south.
#[derive(Debug, Clone, Copy, PartialEq, Eq, Hash, Structural)]
pub struct Point {
    pub x: usize,
    pub y: usize,
}

impl Point {
    /// Builds the point `(x, y)`.
    pub fn new(x: usize, y: usize) -> (p: Point)
        ensures
            p.x == x,
            p.y == y,
    {
        Point { x, y }
    }
}


/// The four tiles of the base, in the order top-left, top-right, bottom-left, bottom-right.
#[derive(Debug, Clone, Copy, PartialEq, Eq)]
pub struct Base {
    pub coordinates: (Point, Point, Point, Point),
}

/// The 2x2 block whose top-left tile is `p`.
pub open spec fn block_at(p: Point) -> Base {
    Base {
        coordinates: (
            Point { x: p.x, y: p.y },
            Point { x: (p.x + 1) as usize, y: p.y },
            Point { x: p.x, y: (p.y + 1) as usize },
            Point { x: (p.x + 1) as usize, y: (p.y + 1) as usize },
        ),
    }
}

/// Colours the tiles are drawn with.
#[derive(Debug, Clone, Copy, PartialEq, Eq, Structural)]
pub enum TileColor {
    Yellow,
    Cyan,
    Blue,
    Green,
    Gray,
    DarkGray,
    Magenta,
    LightRed,
    White,
    Red,
    Reset,
}

/// Settings of map generation. The feature scale of the terrain noise is kept in
/// thousandths (`frequency_milli == 20` is a frequency of 0.02).
#[derive(Debug, Clone, Copy, PartialEq, Eq, Structural)]
pub struct MapOptions {
    pub energy_count: u32,
    pub diamond_count: u32,
    pub octaves: usize,
    pub frequency_milli: u32,
    pub seed: Option<u32>,
}

impl MapOptions {
    pub open spec fn spec_default() -> MapOptions {
        MapOptions { energy_count: 12, diamond_count: 6, octaves: 2, frequency_milli: 20, seed: None }
    }
}

impl Default for MapOptions {
    fn default() -> (o: Self)
        ensures
            o == MapOptions::spec_default(),
    {
        MapOptions { energy_count: 12, diamond_count: 6, octaves: 2, frequency_milli: 20, seed: None }
    }
}

/// What a map holds: its size, its settings, its base, and one terrain and one
/// mineral slot per tile, row by row (`terrain` is empty until terrain is installed).
pub struct MapView {
    pub width: usize,
    pub height: usize,
    pub options: MapOptions,
    pub base: Option<Base>,
    pub terrain: Seq<Terrain>,
    pub minerals: Seq<Option<Mineral>>,
}

impl MapView {
    pub open spec fn in_bounds(self, p: Point) -> bool {
        p.x < self.width && p.y < self.height
    }

    pub open spec fn index_of(self, p: Point) -> int {
        p.y * self.width + p.x
    }

    pub open spec fn terrain_at(self, p: Point) -> Option<Terrain> {
        if self.in_bounds(p) && self.index_of(p) < self.terrain.len() {
            Some(self.terrain[self.index_of(p)])
        } else {
            None
        }
    }

    pub open spec fn mineral_at(self, p: Point) -> Option<Mineral> {
        if self.in_bounds(p) {
            self.minerals[self.index_of(p)]
        } else {
            None
        }
    }

    /// Deep water, mountains and tiles off the map cannot be walked on.
    pub open spec fn walkable(self, p: Point) -> bool {
        match self.terrain_at(p) {
            None => false,
            Some(Terrain::DeepWater) => false,
            Some(Terrain::Mountains) => false,
            Some(_) => true,
        }
    }

    /// Ticks needed to enter a tile; `None` where it cannot be entered.
    pub open spec fn cost(self, p: Point) -> Option<u32> {
        match self.terrain_at(p) {
            None => None,
            Some(Terrain::DeepWater) => None,
            Some(Terrain::Mountains) => None,
            Some(Terrain::Plains) => Some(1u32),
            Some(Terrain::Base) => Some(1u32),
            Some(Terrain::Hills) => Some(2u32),
            Some(Terrain::ShallowWater) => Some(2u32),
        }
    }

    /// `seq![q]` when `q` is walkable, the empty sequence otherwise.
    pub open spec fn keep_walkable(self, q: Point) -> Seq<Point> {
        if self.walkable(q) { seq![q] } else { Seq::empty() }
    }

    /// The walkable tiles among west, east, north and south of `p`, in that order.
    pub open spec fn neighbors(self, p: Point) -> Seq<Point> {
        (if p.x > 0 { self.keep_walkable(Point { x: (p.x - 1) as usize, y: p.y }) } else { Seq::empty() })
        + (if p.x < usize::MAX { self.keep_walkable(Point { x: (p.x + 1) as usize, y: p.y }) } else { Seq::empty() })
        + (if p.y > 0 { self.keep_walkable(Point { x: p.x, y: (p.y - 1) as usize }) } else { Seq::empty() })
        + (if p.y < usize::MAX { self.keep_walkable(Point { x: p.x, y: (p.y + 1) as usize }) } else { Seq::empty() })
    }

    /// The four corners of the base are plains whose 2x2 block fits on the map.
    pub open spec fn plains_block(self, p: Point) -> bool {
        &&& p.x + 1 < self.width
        &&& p.y + 1 < self.height
        &&& self.terrain_at(p) == Some(Terrain::Plains)
        &&& self.terrain_at(Point { x: (p.x + 1) as usize, y: p.y }) == Some(Terrain::Plains)
        &&& self.terrain_at(Point { x: p.x, y: (p.y + 1) as usize }) == Some(Terrain::Plains)
        &&& self.terrain_at(Point { x: (p.x + 1) as usize, y: (p.y + 1) as usize }) == Some(Terrain::Plains)
    }
}

/// The game map.
pub struct WorldMap {
    width: usize,
    height: usize,
    options: MapOptions,
    base: Option<Base>,
    terrain_map: Vec<Terrain>,
    mineral_map: Vec<Option<Mineral>>,
}

impl View for WorldMap {
    type V = MapView;

    closed spec fn view(&self) -> MapView {
        MapView {
            width: self.width,
            height: self.height,
            options: self.options,
            base: self.base,
            terrain: self.terrain_map@,
            minerals: self.mineral_map@,
        }
    }
}

/// `y * w + x` lies inside a `w` by `h` grid when `x < w` and `y < h`.
pub proof fn lemma_index_in_grid(x: int, y: int, w: int, h: int)
    requires
        0 <= x < w,
        0 <= y < h,
    ensures
        0 <= y * w + x < w * h,
        y * w <= y * w + x,
{
    assert(y * w + x < w * h) by (nonlinear_arith)
        requires
            0 <= x < w,
            0 <= y < h,
    ;
    assert(0 <= y * w) by (nonlinear_arith)
        requires
            0 <= x < w,
            0 <= y < h,
    ;
}

impl MapView {
    /// The invariant every map keeps: one mineral slot per tile, terrain either not
    /// yet installed or one per tile, and a base (if any) that is a block on the map.
    pub open spec fn wf(self) -> bool {
        &&& self.width * self.height <= usize::MAX
        &&& self.width + self.height <= usize::MAX
        &&& self.minerals.len() == self.width * self.height
        &&& (self.terrain.len() == 0 || self.terrain.len() == self.width * self.height)
        &&& (self.base matches Some(b) ==> {
            &&& b.coordinates.0.x + 1 < self.width
            &&& b.coordinates.0.y + 1 < self.height
            &&& b == block_at(b.coordinates.0)
        })
    }
}

impl WorldMap {
    pub open spec fn wf(&self) -> bool {
        self@.wf()
    }

    fn get_index_from_coordinates(&self, coordinates: Point) -> (idx: Option<usize>)
        requires
            self.wf(),
        ensures
            idx == (if self@.in_bounds(coordinates) { Some(self@.index_of(coordinates) as usize) } else { None::<usize> }),
            idx matches Some(i) ==> i < self@.minerals.len() && i as int == self@.index_of(coordinates),
    {
        if coordinates.x < self.width && coordinates.y < self.height {
            proof {
                lemma_index_in_grid(coordinates.x as int, coordinates.y as int, self.width as int, self.height as int);
            }
            Some(coordinates.y * self.width + coordinates.x)
        } else {
            None
        }
    }

    pub fn size(&self) -> (s: (usize, usize))
        ensures
            s == (self@.width, self@.height),
    {
        (self.width, self.height)
    }

    pub fn terrain_at(&self, coordinates: Point) -> (t: Option<Terrain>)
        requires
            self.wf(),
        ensures
            t == self@.terrain_at(coordinates),
    {
        let index = match self.get_index_from_coordinates(coordinates) {
            Some(i) => i,
            None => return None,
        };
        if index >= self.terrain_map.len() {
            return None;
        }
        Some(self.terrain_map[index])
    }

    pub fn mineral_at(&self, coordinates: Point) -> (m: Option<Mineral>)
        requires
            self.wf(),
        ensures
            m == self@.mineral_at(coordinates),
    {
        let idx = match self.get_index_from_coordinates(coordinates) {
            Some(i) => i,
            None => return None,
        };
        self.mineral_map[idx]
    }

    pub fn is_walkable(&self, coordinates: Point) -> (b: bool)
        requires
            self.wf(),
        ensures
            b == self@.walkable(coordinates),
    {
        match self.terrain_at(coordinates) {
            None => false,
            Some(Terrain::DeepWater) => false,
            Some(Terrain::Mountains) => false,
            Some(_) => true,
        }
    }

    pub fn terrain_cost(&self, coordinates: Point) -> (c: Option<u32>)
        requires
            self.wf(),
        ensures
            c == self@.cost(coordinates),
            c.is_some() == self@.walkable(coordinates),
    {
        match self.terrain_at(coordinates) {
            None => None,
            Some(Terrain::DeepWater) => None,
            Some(Terrain::Mountains) => None,
            Some(Terrain::Plains) => Some(1),
            Some(Terrain::Base) => Some(1),
            Some(Terrain::Hills) => Some(2),
            Some(Terrain::ShallowWater) => Some(2),
        }
    }

    /// The walkable tiles west, east, north and south of `coordinates`, in that order.
    pub fn neighbors(&self, coordinates: Point) -> (n: Vec<Point>)
        requires
            self.wf(),
        ensures
            n@ == self@.neighbors(coordinates),
    {
        let mut neighbors: Vec<Point> = Vec::with_capacity(4);
        let ghost v = self@;
        let ghost p = coordinates;
        if coordinates.x > 0 {
            let q = Point { x: coordinates.x - 1, y: coordinates.y };
            if self.is_walkable(q) {
                neighbors.push(q);
            }
        }
        assert(neighbors@ =~= (if p.x > 0 { v.keep_walkable(Point { x: (p.x - 1) as usize, y: p.y }) } else { Seq::empty() }));
        let ghost s0 = neighbors@;
        if coordinates.x < usize::MAX {
            let q = Point { x: coordinates.x + 1, y: coordinates.y };
            if self.is_walkable(q) {
                neighbors.push(q);
            }
        }
        assert(neighbors@ =~= s0 + (if p.x < usize::MAX { v.keep_walkable(Point { x: (p.x + 1) as usize, y: p.y }) } else { Seq::empty() }));
        let ghost s1 = neighbors@;
        if coordinates.y > 0 {
            let q = Point { x: coordinates.x, y: coordinates.y - 1 };
            if self.is_walkable(q) {
                neighbors.push(q);
            }
        }
        assert(neighbors@ =~= s1 + (if p.y > 0 { v.keep_walkable(Point { x: p.x, y: (p.y - 1) as usize }) } else { Seq::empty() }));
        let ghost s2 = neighbors@;
        if coordinates.y < usize::MAX {
            let q = Point { x: coordinates.x, y: coordinates.y + 1 };
            if self.is_walkable(q) {
                neighbors.push(q);
            }
        }
        assert(neighbors@ =~= s2 + (if p.y < usize::MAX { v.keep_walkable(Point { x: p.x, y: (p.y + 1) as usize }) } else { Seq::empty() }));
        neighbors
    }
}


/// Twice the width fits in a `usize` once a grid of at least two rows fits.
proof fn lemma_double_width_fits(w: int, h: int)
    requires
        w >= 0,
        h >= 2,
        w * h <= usize::MAX,
    ensures
        2 * w <= usize::MAX,
{
    assert(2 * w <= w * h) by (nonlinear_arith)
        requires
            w >= 0,
            h >= 2,
    ;
}

impl WorldMap {
    /// A map of `width` by `height` tiles with default options, no terrain yet,
    /// no minerals and no base.
    pub fn new(width: usize, height: usize) -> (m: WorldMap)
        requires
            width * height <= usize::MAX,
            width + height <= usize::MAX,
        ensures
            m.wf(),
            m@.width == width,
            m@.height == height,
            m@.options == MapOptions::spec_default(),
            m@.base.is_none(),
            m@.terrain.len() == 0,
            m@.minerals == Seq::new((width * height) as nat, |i: int| None::<Mineral>),
    {
        let n = width * height;
        let mut mineral_map: Vec<Option<Mineral>> = Vec::with_capacity(n);
        let mut i: usize = 0;
        while i < n
            invariant
                i <= n,
                mineral_map@ == Seq::new(i as nat, |j: int| None::<Mineral>),
            decreases n - i,
        {
            mineral_map.push(None);
            i += 1;
            assert(mineral_map@ =~= Seq::new(i as nat, |j: int| None::<Mineral>));
        }
        WorldMap {
            width,
            height,
            options: MapOptions::default(),
            base: None,
            terrain_map: Vec::new(),
            mineral_map,
        }
    }

    /// A map of the given size and terrain, with default options, no minerals and no base.
    pub fn from_terrain_for_tests(width: usize, height: usize, terrain_map: Vec<Terrain>) -> (m: WorldMap)
        requires
            width * height <= usize::MAX,
            width + height <= usize::MAX,
            terrain_map.len() == width * height,
        ensures
            m.wf(),
            m@.width == width,
            m@.height == height,
            m@.options == MapOptions::spec_default(),
            m@.base.is_none(),
            m@.terrain == terrain_map@,
            m@.minerals == Seq::new((width * height) as nat, |i: int| None::<Mineral>),
    {
        let mut map = WorldMap::new(width, height);
        map.terrain_map = terrain_map;
        map
    }

    pub fn options(&self) -> (o: MapOptions)
        ensures
            o == self@.options,
    {
        self.options
    }

    pub fn set_options(&mut self, options: MapOptions)
        ensures
            final(self)@ == (MapView { options, ..old(self)@ }),
    {
        self.options = options;
    }

    /// The seed the map was generated from; known once terrain has been installed.
    pub fn seed(&self) -> (s: u32)
        requires
            self@.options.seed.is_some(),
        ensures
            Some(s) == self@.options.seed,
    {
        match self.options.seed {
            Some(s) => s,
            None => 0,
        }
    }

    pub open spec fn spec_base_center(v: MapView) -> Option<Point> {
        match v.base {
            None => None,
            Some(b) => Some(Point {
                x: ((b.coordinates.0.x + b.coordinates.1.x) / 2) as usize,
                y: ((b.coordinates.0.y + b.coordinates.2.y) / 2) as usize,
            }),
        }
    }

    /// The top-left tile of the base, `None` while no base has been placed.
    pub fn base_center(&self) -> (c: Option<Point>)
        requires
            self.wf(),
        ensures
            c == Self::spec_base_center(self@),
            c matches Some(p) ==> p == self@.base.unwrap().coordinates.0,
    {
        match &self.base {
            None => None,
            Some(base) => {
                proof {
                    lemma_double_width_fits(self.width as int, self.height as int);
                    assert(self.height * self.width == self.width * self.height) by (nonlinear_arith);
                    lemma_double_width_fits(self.height as int, self.width as int);
                }
                Some(Point {
                    x: (base.coordinates.0.x + base.coordinates.1.x) / 2,
                    y: (base.coordinates.0.y + base.coordinates.2.y) / 2,
                })
            },
        }
    }

    pub fn base_tiles(&self) -> (t: Option<[Point; 4]>)
        ensures
            match self@.base {
                None => t.is_none(),
                Some(b) => t matches Some(a) && a@ == seq![b.coordinates.0, b.coordinates.1, b.coordinates.2, b.coordinates.3],
            },
    {
        match &self.base {
            None => None,
            Some(base) => {
                let a = [base.coordinates.0, base.coordinates.1, base.coordinates.2, base.coordinates.3];
                assert(a@ =~= seq![base.coordinates.0, base.coordinates.1, base.coordinates.2, base.coordinates.3]);
                Some(a)
            },
        }
    }

    /// Every tile of the map, row by row.
    pub fn points(&self) -> (ps: Vec<Point>)
        requires
            self.wf(),
        ensures
            ps.len() == self@.width * self@.height,
            forall|i: int| 0 <= i < ps.len() ==> #[trigger] ps@[i] == grid_point(i, self@.width as int),
    {
        let w = self.width;
        let h = self.height;
        let mut points: Vec<Point> = Vec::with_capacity(w * h);
        let mut y: usize = 0;
        while y < h
            invariant
                w == self@.width,
                h == self@.height,
                w * h <= usize::MAX,
                y <= h,
                points.len() == y * w,
                forall|i: int| 0 <= i < points.len() ==> #[trigger] points@[i] == grid_point(i, w as int),
            decreases h - y,
        {
            let mut x: usize = 0;
            while x < w
                invariant
                    w == self@.width,
                    h == self@.height,
                    w * h <= usize::MAX,
                    y < h,
                    x <= w,
                    points.len() == y * w + x,
                    forall|i: int| 0 <= i < points.len() ==> #[trigger] points@[i] == grid_point(i, w as int),
                decreases w - x,
            {
                proof {
                    lemma_index_in_grid(x as int, y as int, w as int, h as int);
                    lemma_div_mod_of_index(x as int, y as int, w as int);
                }
                points.push(Point { x, y });
                x += 1;
            }
            proof {
                assert((y + 1) * w == y * w + w) by (nonlinear_arith);
            }
            y += 1;
        }
        assert(h * w == w * h) by (nonlinear_arith);
        points
    }
}

/// The tile at row-by-row index `i` of a grid `w` tiles wide.
pub open spec fn grid_point(i: int, w: int) -> Point {
    Point { x: (i % w) as usize, y: (i / w) as usize }
}

/// For `x < w`, the index `y * w + x` splits back into `x` and `y`.
pub proof fn lemma_div_mod_of_index(x: int, y: int, w: int)
    requires
        0 <= x < w,
        0 <= y,
    ensures
        (y * w + x) % w == x,
        (y * w + x) / w == y,
{
    vstd::arithmetic::div_mod::lemma_fundamental_div_mod_converse(y * w + x, w, y, x);
}


/// `s` as an owned string.
pub fn owned(s: &str) -> (r: String)
    ensures
        r@ == s@,
{
    broadcast use vstd::string::to_string_from_display_ensures_for_str;
    s.to_string()
}

impl WorldMap {
    pub open spec fn spec_mineral_tile(mineral: MineralKind) -> (Seq<char>, TileColor) {
        match mineral {
            MineralKind::Energy => ("E"@, TileColor::Yellow),
            MineralKind::Diamond => ("D"@, TileColor::Cyan),
        }
    }

    pub open spec fn spec_terrain_tile(terrain: Terrain) -> (Seq<char>, TileColor) {
        match terrain {
            Terrain::DeepWater => ("\u{2248}"@, TileColor::Blue),
            Terrain::ShallowWater => ("~"@, TileColor::Cyan),
            Terrain::Plains => ("."@, TileColor::Green),
            Terrain::Hills => ("^"@, TileColor::Gray),
            Terrain::Mountains => ("\u{25b2}"@, TileColor::DarkGray),
            Terrain::Base => ("B"@, TileColor::Magenta),
        }
    }

    /// The symbol and colour a mineral is drawn with.
    pub fn render_tile_from_mineral(&self, mineral: MineralKind) -> (tile: (String, TileColor))
        ensures
            (tile.0@, tile.1) == Self::spec_mineral_tile(mineral),
    {
        match mineral {
            MineralKind::Energy => (owned("E"), TileColor::Yellow),
            MineralKind::Diamond => (owned("D"), TileColor::Cyan),
        }
    }

    /// The symbol and colour a terrain is drawn with.
    pub fn render_tile_from_terrain(&self, terrain: Terrain) -> (tile: (String, TileColor))
        ensures
            (tile.0@, tile.1) == Self::spec_terrain_tile(terrain),
    {
        match terrain {
            Terrain::DeepWater => (owned("\u{2248}"), TileColor::Blue),
            Terrain::ShallowWater => (owned("~"), TileColor::Cyan),
            Terrain::Plains => (owned("."), TileColor::Green),
            Terrain::Hills => (owned("^"), TileColor::Gray),
            Terrain::Mountains => (owned("\u{25b2}"), TileColor::DarkGray),
            Terrain::Base => (owned("B"), TileColor::Magenta),
        }
    }
}

} // verus!
