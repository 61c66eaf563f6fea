use vstd::prelude::*;

use crate::bots::manager::BotConfig;
use crate::bots::types::{BotKind, BotSnapshot};
use crate::state::clock::{decimal, digit, digit_char, push_char, push_decimal};
use crate::map::{owned, MapOptions, Point, TileColor, WorldMap};
use crate::state::game_world::{known_at, KnownMineral};

verus! {

/// How the mineral list labels a mineral of the map.
#[derive(Debug, Clone, Copy, PartialEq, Eq, Structural)]
pub enum MineralStatus {
    /// No scout has reported it.
    Unknown,
    /// Reported, with units left.
    Known,
    /// Reported and exhausted.
    Empty,
}

/// One row of the mineral list: status, units left and miners heading there.
#[derive(Debug, Clone, Copy, PartialEq, Eq, Structural)]
pub struct MineralRow {
    pub status: MineralStatus,
    pub left: u32,
    pub assigned: u32,
}

/// The row for the mineral on `pos` holding `value` units on the map: unknown
/// minerals show the map's units and no miners; known ones what is known of them.
pub open spec fn spec_mineral_row(known: Seq<KnownMineral>, pos: Point, value: u32) -> MineralRow {
    if exists|i: int| known_at(known, pos, i) {
        let k = known[choose|i: int| known_at(known, pos, i) && forall|j: int| 0 <= j < i ==> known[j].pos != pos];
        MineralRow { status: if k.remaining == 0 { MineralStatus::Empty } else { MineralStatus::Known }, left: k.remaining, assigned: k.assigned_miners }
    } else {
        MineralRow { status: MineralStatus::Unknown, left: value, assigned: 0 }
    }
}

pub fn mineral_row(known: &Vec<KnownMineral>, pos: Point, value: u32) -> (r: MineralRow)
    ensures
        r == spec_mineral_row(known@, pos, value),
{
    let n = known.len();
    let mut i: usize = 0;
    while i < n
        invariant
            n == known@.len(),
            i <= n,
            forall|j: int| 0 <= j < i ==> known@[j].pos != pos,
        decreases n - i,
    {
        let k = known[i];
        if k.pos == pos {
            proof {
                let c = choose|c: int| known_at(known@, pos, c) && forall|j: int| 0 <= j < c ==> known@[j].pos != pos;
                assert(known_at(known@, pos, i as int) && forall|j: int| 0 <= j < i ==> known@[j].pos != pos);
                if c < i {
                } else if c > i {
                    assert(known@[i as int].pos != pos);
                }
            }
            let status = if k.remaining == 0 { MineralStatus::Empty } else { MineralStatus::Known };
            return MineralRow { status, left: k.remaining, assigned: k.assigned_miners };
        }
        i += 1;
    }
    MineralRow { status: MineralStatus::Unknown, left: value, assigned: 0 }
}

/// Some bot among `bots` is a miner.
pub open spec fn has_miner(bots: Seq<BotSnapshot>) -> bool {
    exists|i: int| 0 <= i < bots.len() && #[trigger] bots[i].kind == BotKind::Miner
}

/// The tile drawn where bots stand: `M` when a miner is among them, `S` otherwise.
pub fn bots_tile(bots: &Vec<BotSnapshot>) -> (tile: (String, TileColor))
    ensures
        has_miner(bots@) ==> tile.0@ == "M"@ && tile.1 == TileColor::LightRed,
        !has_miner(bots@) ==> tile.0@ == "S"@ && tile.1 == TileColor::White,
{
    let n = bots.len();
    let mut i: usize = 0;
    while i < n
        invariant
            n == bots@.len(),
            i <= n,
            forall|j: int| 0 <= j < i ==> bots@[j].kind != BotKind::Miner,
        decreases n - i,
    {
        if bots[i].kind == BotKind::Miner {
            return (owned("M"), TileColor::LightRed);
        }
        i += 1;
    }
    (owned("S"), TileColor::White)
}

/// The tile drawn at `pos`: the bots standing there if any, else the mineral there
/// (red once reported exhausted), else the terrain, else blank.
pub fn map_tile(map: &WorldMap, known: &Vec<KnownMineral>, bots_here: &Vec<BotSnapshot>, pos: Point) -> (tile: (String, TileColor))
    requires
        map.wf(),
    ensures
        bots_here@.len() == 0 && map@.mineral_at(pos) is Some ==> {
            let m = map@.mineral_at(pos)->0;
            let row = spec_mineral_row(known@, pos, m.value);
            &&& tile.0@ == WorldMap::spec_mineral_tile(m.kind).0
            &&& tile.1 == (if row.status == MineralStatus::Empty { TileColor::Red } else { WorldMap::spec_mineral_tile(m.kind).1 })
        },
        bots_here@.len() == 0 && map@.mineral_at(pos) is None ==> match map@.terrain_at(pos) {
            Some(t) => (tile.0@, tile.1) == WorldMap::spec_terrain_tile(t),
            None => tile.0@ == " "@ && tile.1 == TileColor::Reset,
        },
        bots_here@.len() > 0 ==> tile.0@ == (if has_miner(bots_here@) { "M"@ } else { "S"@ }),
        bots_here@.len() > 0 ==> tile.1 == (if has_miner(bots_here@) { TileColor::LightRed } else { TileColor::White }),
{
    if bots_here.len() > 0 {
        return bots_tile(bots_here);
    }
    match map.mineral_at(pos) {
        Some(mineral) => {
            let (symbol, color) = map.render_tile_from_mineral(mineral.kind);
            let row = mineral_row(known, pos, mineral.value);
            let color = if row.status == MineralStatus::Empty { TileColor::Red } else { color };
            (symbol, color)
        },
        None => match map.terrain_at(pos) {
            Some(terrain) => map.render_tile_from_terrain(terrain),
            None => (owned(" "), TileColor::Reset),
        },
    }
}

/// The row of the mineral list that a highlight points at: the highlighted
/// index clamped to the list, as a `u16` (counted modulo 2^16).
pub open spec fn focus_row(count: usize, f: usize) -> int {
    ((if f < count - 1 { f as int } else { count - 1 }) as u16) as int
}

/// How far the mineral list scrolls: with a highlighted row the view follows it
/// (the row is first clamped to the list), otherwise it keeps `scroll`; never
/// beyond the last screenful of `line_count` lines (counted modulo 2^16).
pub open spec fn spec_minerals_scroll(count: usize, focus: Option<usize>, scroll: u16, visible: u16, line_count: usize) -> u16 {
    let lines = (line_count as u16) as int;
    let max_scroll = if lines > visible { lines - visible } else { 0 };
    let wanted = match focus {
        Some(f) => if count > 0 {
            let row = focus_row(count, f);
            if row < scroll { row } else if row >= scroll + visible { row + 1 - visible } else { scroll as int }
        } else {
            scroll as int
        },
        None => scroll as int,
    };
    (if wanted < max_scroll { wanted } else { max_scroll }) as u16
}

pub fn minerals_scroll(count: usize, focus: Option<usize>, scroll: u16, visible: u16, line_count: usize) -> (s: u16)
    requires
        scroll + visible <= u16::MAX,
        visible == 0 && count > 0 ==> (focus matches Some(f) ==> focus_row(count, f) < u16::MAX),
    ensures
        s == spec_minerals_scroll(count, focus, scroll, visible, line_count),
{
    let max_scroll = (line_count as u16).saturating_sub(visible);
    let wanted = match focus {
        Some(f) if count > 0 => {
            let row = (if f < count - 1 { f } else { count - 1 }) as u16;
            if row < scroll {
                row
            } else if row >= scroll + visible {
                row - visible + 1
            } else {
                scroll
            }
        },
        _ => scroll,
    };
    if wanted < max_scroll { wanted } else { max_scroll }
}


/// The feature scale as shown: the thousandths `milli` as a decimal fraction with
/// three digits after the point.
pub open spec fn frequency_text(milli: u32) -> Seq<char> {
    decimal((milli / 1000) as nat) + seq!['.', digit_char(((milli % 1000) / 100) as nat), digit_char(((milli % 100) / 10) as nat), digit_char((milli % 10) as nat)]
}

/// The value shown for entry `index` of the options screen: the deposit counts,
/// terrain detail, feature scale, seed (blank without one), bot counts, then the
/// labels of the scout algorithm, miner algorithm and assignment strategy.
pub open spec fn spec_option_value(o: MapOptions, c: BotConfig, index: int) -> Seq<char> {
    if index == 0 {
        decimal(o.energy_count as nat)
    } else if index == 1 {
        decimal(o.diamond_count as nat)
    } else if index == 2 {
        decimal(o.octaves as nat)
    } else if index == 3 {
        frequency_text(o.frequency_milli)
    } else if index == 4 {
        match o.seed {
            Some(seed) => decimal(seed as nat),
            None => Seq::empty(),
        }
    } else if index == 5 {
        decimal(c.scout_count as nat)
    } else if index == 6 {
        decimal(c.miner_count as nat)
    } else if index == 7 {
        c.scout_algorithm.spec_label()
    } else if index == 8 {
        c.miner_algorithm.spec_label()
    } else if index == 9 {
        c.assignment_strategy.spec_label()
    } else {
        Seq::empty()
    }
}

/// How many entries the options screen shows.
pub const OPTION_ENTRY_COUNT: usize = 10;

/// The value shown for entry `index` of the options screen (see `spec_option_value`).
pub fn option_value(o: MapOptions, c: BotConfig, index: usize) -> (s: String)
    ensures
        s@ == spec_option_value(o, c, index as int),
{
    let mut s = String::new();
    if index == 0 {
        push_decimal(&mut s, o.energy_count as u64);
    } else if index == 1 {
        push_decimal(&mut s, o.diamond_count as u64);
    } else if index == 2 {
        push_decimal(&mut s, o.octaves as u64);
    } else if index == 3 {
        push_decimal(&mut s, (o.frequency_milli / 1000) as u64);
        push_char(&mut s, '.');
        push_char(&mut s, digit(((o.frequency_milli % 1000) / 100) as u64));
        push_char(&mut s, digit(((o.frequency_milli % 100) / 10) as u64));
        push_char(&mut s, digit((o.frequency_milli % 10) as u64));
        assert(s@ =~= frequency_text(o.frequency_milli));
    } else if index == 4 {
        match o.seed {
            Some(seed) => push_decimal(&mut s, seed as u64),
            None => {
                assert(s@ =~= Seq::<char>::empty());
            },
        }
    } else if index == 5 {
        push_decimal(&mut s, c.scout_count as u64);
    } else if index == 6 {
        push_decimal(&mut s, c.miner_count as u64);
    } else if index == 7 {
        return owned(c.scout_algorithm.label());
    } else if index == 8 {
        return owned(c.miner_algorithm.label());
    } else if index == 9 {
        return owned(c.assignment_strategy.label());
    } else {
        assert(s@ =~= Seq::<char>::empty());
        return s;
    }
    assert(s@ =~= spec_option_value(o, c, index as int));
    s
}

/// The entry of the options screen that shows setting `selected` (the one the
/// left and right keys change): the seed entry, set by digits, is passed over, and
/// every setting from 8 on is the assignment strategy.
pub open spec fn spec_option_row(selected: usize) -> int {
    if selected < 4 { selected as int } else if selected < 8 { selected + 1 } else { 9 }
}

/// The entry of the options screen to highlight (see `spec_option_row`).
pub fn option_row(selected: usize) -> (row: usize)
    ensures
        row == spec_option_row(selected),
{
    if selected < 4 {
        selected
    } else if selected < 8 {
        selected + 1
    } else {
        9
    }
}

/// The bots of `kind` among `bots`.
pub open spec fn count_kind(bots: Seq<BotSnapshot>, kind: BotKind) -> nat {
    bots.filter(|b: BotSnapshot| b.kind == kind).len()
}

/// How many scouts and how many miners `bots` hold.
pub fn bot_counts(bots: &Vec<BotSnapshot>) -> (counts: (usize, usize))
    ensures
        counts.0 == count_kind(bots@, BotKind::Scout),
        counts.1 == count_kind(bots@, BotKind::Miner),
{
    let mut scouts: usize = 0;
    let mut miners: usize = 0;
    let n = bots.len();
    let mut i: usize = 0;
    while i < n
        invariant
            n == bots@.len(),
            i <= n,
            scouts == count_kind(bots@.take(i as int), BotKind::Scout),
            miners == count_kind(bots@.take(i as int), BotKind::Miner),
            scouts <= i,
            miners <= i,
        decreases n - i,
    {
        proof {
            let t = bots@.take(i as int + 1);
            assert(t.drop_last() =~= bots@.take(i as int));
            reveal_with_fuel(Seq::filter, 1);
        }
        let kind = bots[i].kind;
        if kind == BotKind::Scout {
            scouts += 1;
        } else if kind == BotKind::Miner {
            miners += 1;
        }
        i += 1;
    }
    assert(bots@.take(n as int) =~= bots@);
    (scouts, miners)
}

} // verus!
