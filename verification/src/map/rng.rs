use vstd::prelude::*;

verus! {

/// Multiplier of the linear congruential generator.
pub const LCG_MULTIPLIER: u64 = 6_364_136_223_846_793_005;

/// The state that follows `state`: `state * LCG_MULTIPLIER + 1`, wrapping at 2^64.
pub closed spec fn lcg_next(state: u64) -> u64 {
    state.wrapping_mul(LCG_MULTIPLIER).wrapping_add(1)
}

/// The number a state yields: its upper 32 bits.
pub closed spec fn lcg_output(state: u64) -> u32 {
    (state >> 32u64) as u32
}

/// The generator's formula in plain arithmetic: the next state is
/// `state * LCG_MULTIPLIER + 1` modulo 2^64, and a state yields its value divided
/// by 2^32 (its upper 32 bits).
pub proof fn lemma_lcg_formula(state: u64)
    ensures
        lcg_next(state) == (state as int * LCG_MULTIPLIER as int + 1) % 0x1_0000_0000_0000_0000,
        lcg_output(state) == state as int / 0x1_0000_0000,
{
    let m = (state as int * LCG_MULTIPLIER as int) % 0x1_0000_0000_0000_0000;
    assert(state.wrapping_mul(LCG_MULTIPLIER) == m);
    assert((m + 1) % 0x1_0000_0000_0000_0000 == (state as int * LCG_MULTIPLIER as int + 1) % 0x1_0000_0000_0000_0000) by {
        vstd::arithmetic::div_mod::lemma_add_mod_noop(state as int * LCG_MULTIPLIER as int, 1, 0x1_0000_0000_0000_0000);
        vstd::arithmetic::div_mod::lemma_add_mod_noop(m, 1, 0x1_0000_0000_0000_0000);
        vstd::arithmetic::div_mod::lemma_mod_twice(state as int * LCG_MULTIPLIER as int, 0x1_0000_0000_0000_0000);
    }
    assert((state >> 32u64) as u32 == state / 0x1_0000_0000) by (bit_vector);
}

/// A small deterministic pseudo-random generator, so that a seed always replays
/// the same mineral placement.
#[derive(Debug, Clone, Copy)]
pub struct SeededRng {
    state: u64,
}

impl View for SeededRng {
    type V = u64;

    closed spec fn view(&self) -> u64 {
        self.state
    }
}

impl SeededRng {
    pub fn new(seed: u32) -> (r: SeededRng)
        ensures
            r@ == seed as u64,
    {
        SeededRng { state: seed as u64 }
    }

    pub fn next_u32(&mut self) -> (n: u32)
        ensures
            final(self)@ == lcg_next(old(self)@),
            n == lcg_output(final(self)@),
    {
        self.state = self.state.wrapping_mul(LCG_MULTIPLIER).wrapping_add(1);
        (self.state >> 32) as u32
    }

    /// A number in `range`: its start plus the next output modulo the range's length.
    pub fn range_usize(&mut self, range: core::ops::Range<usize>) -> (n: usize)
        requires
            range.start < range.end,
        ensures
            final(self)@ == lcg_next(old(self)@),
            n == range.start + (lcg_output(final(self)@) as int) % ((range.end - range.start) as int),
            range.start <= n < range.end,
    {
        let len = range.end.saturating_sub(range.start);
        let r = self.next_u32() as usize % len;
        range.start + r
    }

    /// A number in the inclusive `range`: its start plus the next output modulo the
    /// number of values in the range.
    pub fn range_u32_inclusive(&mut self, range: core::ops::RangeInclusive<u32>) -> (n: u32)
        requires
            !range@.exhausted,
            range@.start <= range@.end,
            range@.end - range@.start < u32::MAX,
        ensures
            final(self)@ == lcg_next(old(self)@),
            n == range@.start + lcg_output(final(self)@) % ((range@.end - range@.start + 1) as u32),
            range@.start <= n <= range@.end,
    {
        let start = *range.start();
        let len = *range.end() - start + 1;
        start + (self.next_u32() % len)
    }
}

/// `RangeInclusive::start`: the lower bound the range was built with.
pub assume_specification<Idx>[ core::ops::RangeInclusive::<Idx>::start ](r: &core::ops::RangeInclusive<Idx>) -> (s: &Idx)
    ensures
        *s == r@.start,
;

/// `RangeInclusive::end`: the upper bound the range was built with, as long as
/// iteration has not exhausted it.
pub assume_specification<Idx>[ core::ops::RangeInclusive::<Idx>::end ](r: &core::ops::RangeInclusive<Idx>) -> (e: &Idx)
    ensures
        !r@.exhausted ==> *e == r@.end,
;

} // verus!
