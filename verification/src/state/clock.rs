use vstd::prelude::*;

use std::time::{Duration, Instant};

verus! {

/// Nanoseconds per simulation tick (about 30 ticks per second).
pub const TICK_RATE_NANOS: u64 = 33_333_333;

/// The longest frame the clock accounts for, in nanoseconds.
pub const MAX_FRAME_NANOS: u64 = 100_000_000;

#[verifier::external_type_specification]
#[verifier::external_body]
pub struct ExInstant(Instant);

/// The whole nanoseconds a `Duration` spans, as `Duration::as_nanos` returns them.
pub uninterp spec fn duration_nanos(d: Duration) -> u128;

/// `Duration::as_nanos`: claimed to be `duration_nanos` of the duration.
#[verifier::external_body]
fn nanos_of(d: &Duration) -> (n: u128)
    ensures
        n == duration_nanos(*d),
{
    d.as_nanos()
}

/// `Duration::from_nanos`: the duration of `n` nanoseconds, whose `as_nanos` is `n`
/// again, as the documentation of both functions gives.
#[verifier::external_body]
fn duration_from_nanos(n: u64) -> (d: Duration)
    ensures
        duration_nanos(d) == n as u128,
{
    Duration::from_nanos(n)
}

/// `Instant::now`: the current time; nothing is claimed of it.
#[verifier::external_body]
fn instant_now() -> (i: Instant) {
    Instant::now()
}

/// The nanoseconds from `earlier` to `later`, as `Instant::duration_since` gives
/// them (zero when `later` is not later): a function of the two instants alone.
pub uninterp spec fn instant_gap(later: Instant, earlier: Instant) -> u128;

/// `Instant::duration_since`: claimed to span `instant_gap` of the two instants.
#[verifier::external_body]
fn time_between(later: &Instant, earlier: &Instant) -> (d: Duration)
    ensures
        duration_nanos(d) == instant_gap(*later, *earlier),
{
    later.duration_since(*earlier)
}

/// A fixed-step clock: real time accumulates and is handed out in whole ticks,
/// unless the clock is paused.
#[derive(Debug, Clone, Copy)]
pub struct GameClock {
    accumulated_nanos: u64,
    previous: Instant,
    tick_count: u64,
    paused: bool,
}

/// What a clock is: the time it holds that is not yet a whole tick, the ticks it
/// has handed out, and whether it is paused.
pub struct ClockView {
    pub accumulated_nanos: u64,
    pub tick_count: u64,
    pub paused: bool,
}

impl GameClock {
    /// Less than one tick's worth of time is ever held.
    #[verifier::type_invariant]
    spec fn holds_less_than_a_tick(self) -> bool {
        self.accumulated_nanos < TICK_RATE_NANOS
    }

    /// The instant the clock last measured real time from.
    pub closed spec fn last_instant(&self) -> Instant {
        self.previous
    }
}

impl View for GameClock {
    type V = ClockView;

    closed spec fn view(&self) -> ClockView {
        ClockView { accumulated_nanos: self.accumulated_nanos, tick_count: self.tick_count, paused: self.paused }
    }
}

/// The clock after `elapsed` nanoseconds of real time: the frame is capped at
/// `MAX_FRAME_NANOS`, added to what was held, and the whole ticks in it are
/// handed out. Gives the new clock and the ticks handed out.
pub open spec fn spec_accumulate(c: ClockView, elapsed: u128) -> (ClockView, u32) {
    let capped = if elapsed < MAX_FRAME_NANOS as u128 { elapsed as int } else { MAX_FRAME_NANOS as int };
    let acc = c.accumulated_nanos + capped;
    let ticks = acc / TICK_RATE_NANOS as int;
    (ClockView {
        accumulated_nanos: (acc - ticks * TICK_RATE_NANOS) as u64,
        tick_count: (c.tick_count + ticks) as u64,
        paused: c.paused,
    }, ticks as u32)
}

/// The simulated time, in nanoseconds: one tick rate per tick, the tick count
/// being narrowed to 32 bits.
pub open spec fn elapsed_nanos(c: ClockView) -> int {
    TICK_RATE_NANOS * ((c.tick_count as u32) as int)
}

/// The clock with its pause switched.
pub open spec fn spec_toggle_pause(c: ClockView) -> ClockView {
    ClockView { paused: !c.paused, ..c }
}

/// The clock after a manual step of `nanos` nanoseconds: the whole ticks in it are
/// counted (narrowed to 64 bits), the held time and the pause switch stay.
pub open spec fn spec_advance_by(c: ClockView, nanos: u128) -> ClockView {
    ClockView { tick_count: (c.tick_count + (nanos / TICK_RATE_NANOS as u128) as u64) as u64, ..c }
}

/// No time is lost or made: the ticks handed out and the time still held add up
/// to what was held plus the (capped) frame, the tick count grows by the ticks
/// handed out, fewer than one tick stays held, and the pause switch is kept.
pub proof fn lemma_accumulate_keeps_time(c: ClockView, elapsed: u128)
    requires
        c.accumulated_nanos < TICK_RATE_NANOS,
        c.tick_count + 4 <= u64::MAX,
    ensures
        ({
            let (after, ticks) = spec_accumulate(c, elapsed);
            let capped = if elapsed < MAX_FRAME_NANOS as u128 { elapsed as int } else { MAX_FRAME_NANOS as int };
            &&& after.accumulated_nanos + ticks * TICK_RATE_NANOS == c.accumulated_nanos + capped
            &&& after.accumulated_nanos < TICK_RATE_NANOS
            &&& after.tick_count == c.tick_count + ticks
            &&& ticks <= 4
            &&& after.paused == c.paused
        }),
{
    let capped = if elapsed < MAX_FRAME_NANOS as u128 { elapsed as int } else { MAX_FRAME_NANOS as int };
    let acc = c.accumulated_nanos + capped;
    let ticks = acc / TICK_RATE_NANOS as int;
    assert(0 <= acc - ticks * TICK_RATE_NANOS < TICK_RATE_NANOS && 0 <= ticks <= 4) by (nonlinear_arith)
        requires
            0 <= acc <= TICK_RATE_NANOS + MAX_FRAME_NANOS,
            ticks == acc / TICK_RATE_NANOS as int,
            TICK_RATE_NANOS == 33_333_333,
            MAX_FRAME_NANOS == 100_000_000,
    ;
}

/// Switching the pause twice gives back the clock as it was.
pub proof fn lemma_pause_twice_restores(c: ClockView)
    ensures
        spec_toggle_pause(spec_toggle_pause(c)) == c,
{
}

/// While fewer than 2^32 ticks have been handed out, the simulated time is the
/// tick count times the tick rate; a manual step of `nanos` on a fresh clock
/// therefore shows as the whole ticks in it times the tick rate.
pub proof fn lemma_elapsed_counts_ticks(c: ClockView, nanos: u128)
    requires
        c.tick_count <= u32::MAX,
        nanos / (TICK_RATE_NANOS as u128) <= u32::MAX,
    ensures
        elapsed_nanos(c) == TICK_RATE_NANOS * c.tick_count,
        c.tick_count == 0 ==> elapsed_nanos(spec_advance_by(c, nanos)) == TICK_RATE_NANOS * (nanos / (TICK_RATE_NANOS as u128)),
{
}

/// The part of a frame of `elapsed` nanoseconds that the clock counts: at most
/// `MAX_FRAME_NANOS`.
pub open spec fn capped_frame(elapsed: u128) -> int {
    if elapsed < MAX_FRAME_NANOS as u128 { elapsed as int } else { MAX_FRAME_NANOS as int }
}

/// One call of `advance` when `elapsed` nanoseconds of real time went by since the
/// last one: nothing while paused, otherwise `spec_accumulate`.
pub open spec fn spec_advance_frame(c: ClockView, elapsed: u128) -> (ClockView, u32) {
    if c.paused { (c, 0u32) } else { spec_accumulate(c, elapsed) }
}

/// Calls of `advance` after frames of `frames[0]`, `frames[1]`, ... nanoseconds:
/// the clock afterwards and the ticks all the calls handed out.
pub open spec fn frames_run(c: ClockView, frames: Seq<u128>) -> (ClockView, int)
    decreases frames.len(),
{
    if frames.len() == 0 {
        (c, 0)
    } else {
        let (c1, t) = spec_advance_frame(c, frames[0]);
        let (c2, n) = frames_run(c1, frames.drop_first());
        (c2, t + n)
    }
}

/// The counted (capped) time of all the frames.
pub open spec fn sum_capped(frames: Seq<u128>) -> int
    decreases frames.len(),
{
    if frames.len() == 0 { 0 } else { capped_frame(frames[0]) + sum_capped(frames.drop_first()) }
}

/// Over any run of `advance` calls no time is lost or counted twice: a running
/// clock hands out, in all, the whole ticks in the time it held plus the counted
/// time of the frames, keeps the rest, and counts every tick it hands out; a
/// paused clock hands out nothing and stays as it is.
pub proof fn lemma_frames_keep_time(c: ClockView, frames: Seq<u128>)
    requires
        c.accumulated_nanos < TICK_RATE_NANOS,
        c.tick_count + 4 * frames.len() <= u64::MAX,
    ensures
        ({
            let (f, n) = frames_run(c, frames);
            &&& c.paused ==> f == c && n == 0
            &&& !c.paused ==> {
                &&& n == (c.accumulated_nanos + sum_capped(frames)) / (TICK_RATE_NANOS as int)
                &&& f.accumulated_nanos == (c.accumulated_nanos + sum_capped(frames)) % (TICK_RATE_NANOS as int)
                &&& f.tick_count == c.tick_count + n
                &&& f.paused == c.paused
            }
        }),
    decreases frames.len(),
{
    let t_rate = TICK_RATE_NANOS as int;
    if frames.len() == 0 {
        vstd::arithmetic::div_mod::lemma_fundamental_div_mod_converse(c.accumulated_nanos as int, t_rate, 0, c.accumulated_nanos as int);
    } else if c.paused {
        lemma_frames_keep_time(c, frames.drop_first());
    } else {
        let (c1, t) = spec_accumulate(c, frames[0]);
        lemma_accumulate_keeps_time(c, frames[0]);
        lemma_frames_keep_time(c1, frames.drop_first());
        let x = c1.accumulated_nanos + sum_capped(frames.drop_first());
        let total = c.accumulated_nanos + sum_capped(frames);
        assert(total == t * t_rate + x);
        assert(x >= 0) by {
            lemma_sum_capped_nonneg(frames.drop_first());
        }
        vstd::arithmetic::div_mod::lemma_fundamental_div_mod(x, t_rate);
        let q = x / t_rate;
        let r = x % t_rate;
        assert(total == (t + q) * t_rate + r) by (nonlinear_arith)
            requires
                total == t * t_rate + x,
                x == t_rate * q + r,
        ;
        vstd::arithmetic::div_mod::lemma_fundamental_div_mod_converse(total, t_rate, t + q, r);
    }
}

proof fn lemma_sum_capped_nonneg(frames: Seq<u128>)
    ensures
        sum_capped(frames) >= 0,
    decreases frames.len(),
{
    if frames.len() > 0 {
        lemma_sum_capped_nonneg(frames.drop_first());
    }
}

/// A call made on the clock.
pub enum ClockCall {
    /// `advance` after this many nanoseconds of real time.
    Advance(u128),
    /// `advance_by` a span of this many nanoseconds.
    AdvanceBy(u128),
    /// `toggle_pause`.
    TogglePause,
}

/// The clock after `calls`, and the sum of the ticks the calls returned.
pub open spec fn clock_run(c: ClockView, calls: Seq<ClockCall>) -> (ClockView, int)
    decreases calls.len(),
{
    if calls.len() == 0 {
        (c, 0)
    } else {
        let (c1, t) = match calls[0] {
            ClockCall::Advance(e) => {
                let (c1, t) = spec_advance_frame(c, e);
                (c1, t as int)
            },
            ClockCall::AdvanceBy(n) => (spec_advance_by(c, n), (((n / TICK_RATE_NANOS as u128) as u64) as u32) as int),
            ClockCall::TogglePause => (spec_toggle_pause(c), 0int),
        };
        let (c2, rest) = clock_run(c1, calls.drop_first());
        (c2, t + rest)
    }
}

/// The most ticks `calls` can add to the count.
pub open spec fn calls_tick_bound(calls: Seq<ClockCall>) -> int
    decreases calls.len(),
{
    if calls.len() == 0 {
        0
    } else {
        (match calls[0] {
            ClockCall::Advance(e) => 4int,
            ClockCall::AdvanceBy(n) => (n / TICK_RATE_NANOS as u128) as int,
            ClockCall::TogglePause => 0int,
        }) + calls_tick_bound(calls.drop_first())
    }
}

/// Every tick a call returns is counted: after any calls the tick count has grown
/// by the sum of what `advance` and `advance_by` returned, and while fewer than
/// 2^32 ticks are counted the simulated time is that count times the tick length
/// (on a fresh clock, the sum of the returned ticks times the tick length).
/// Stated for manual steps of fewer than 2^32 ticks each, whose count is returned whole.
pub proof fn lemma_elapsed_is_returned_ticks(c: ClockView, calls: Seq<ClockCall>)
    requires
        c.accumulated_nanos < TICK_RATE_NANOS,
        c.tick_count + calls_tick_bound(calls) <= u64::MAX,
        forall|i: int| 0 <= i < calls.len() ==> (#[trigger] calls[i] matches ClockCall::AdvanceBy(n) ==> n / TICK_RATE_NANOS as u128 <= u32::MAX),
    ensures
        ({
            let (f, n) = clock_run(c, calls);
            &&& f.tick_count == c.tick_count + n
            &&& f.accumulated_nanos < TICK_RATE_NANOS
            &&& f.tick_count <= u32::MAX ==> elapsed_nanos(f) == TICK_RATE_NANOS * f.tick_count
            &&& c.tick_count == 0 && n <= u32::MAX ==> elapsed_nanos(f) == TICK_RATE_NANOS * n
        }),
    decreases calls.len(),
{
    if calls.len() > 0 {
        let rest = calls.drop_first();
        assert forall|i: int| 0 <= i < rest.len() implies (#[trigger] rest[i] matches ClockCall::AdvanceBy(n) ==> n / TICK_RATE_NANOS as u128 <= u32::MAX) by {
            assert(rest[i] == calls[i + 1]);
        }
        assert(calls_tick_bound(rest) >= 0) by {
            lemma_calls_tick_bound_nonneg(rest);
        }
        match calls[0] {
            ClockCall::Advance(e) => {
                if !c.paused {
                    lemma_accumulate_keeps_time(c, e);
                }
                let (c1, t) = spec_advance_frame(c, e);
                lemma_elapsed_is_returned_ticks(c1, rest);
            },
            ClockCall::AdvanceBy(n) => {
                assert(calls[0] matches ClockCall::AdvanceBy(m) ==> m / TICK_RATE_NANOS as u128 <= u32::MAX);
                lemma_elapsed_is_returned_ticks(spec_advance_by(c, n), rest);
            },
            ClockCall::TogglePause => {
                lemma_elapsed_is_returned_ticks(spec_toggle_pause(c), rest);
            },
        }
    }
}

proof fn lemma_calls_tick_bound_nonneg(calls: Seq<ClockCall>)
    ensures
        calls_tick_bound(calls) >= 0,
    decreases calls.len(),
{
    if calls.len() > 0 {
        lemma_calls_tick_bound_nonneg(calls.drop_first());
    }
}

/// `n` in decimal.
pub open spec fn decimal(n: nat) -> Seq<char>
    decreases n,
{
    if n < 10 {
        seq![digit_char(n)]
    } else {
        decimal(n / 10).push(digit_char(n % 10))
    }
}

pub open spec fn digit_char(d: nat) -> char {
    (48 + d) as char
}

/// `n` in decimal with at least two digits.
pub open spec fn two_digits(n: nat) -> Seq<char> {
    if n < 10 { seq!['0', digit_char(n)] } else { decimal(n) }
}

/// The simulated time as `MM:SS`, or `HH:MM:SS` from the first hour on.
pub open spec fn spec_elapsed_formatted(c: ClockView) -> Seq<char> {
    let total = (elapsed_nanos(c) / 1_000_000_000) as nat;
    let hours = total / 3600;
    let minutes = (total % 3600) / 60;
    let seconds = total % 60;
    if hours > 0 {
        two_digits(hours) + seq![':'] + two_digits(minutes) + seq![':'] + two_digits(seconds)
    } else {
        two_digits(minutes) + seq![':'] + two_digits(seconds)
    }
}

/// `String::push`: appends `c`.
#[verifier::external_body]
pub(crate) fn push_char(s: &mut String, c: char)
    ensures
        final(s)@ == old(s)@.push(c),
{
    s.push(c)
}

pub(crate) fn digit(d: u64) -> (c: char)
    requires
        d < 10,
    ensures
        c == digit_char(d as nat),
{
    match d {
        0 => '0',
        1 => '1',
        2 => '2',
        3 => '3',
        4 => '4',
        5 => '5',
        6 => '6',
        7 => '7',
        8 => '8',
        _ => '9',
    }
}

/// Appends `n` in decimal, with at least two digits.
fn push_two_digits(s: &mut String, n: u64)
    ensures
        final(s)@ == old(s)@ + two_digits(n as nat),
{
    if n < 10 {
        push_char(s, '0');
        push_char(s, digit(n));
        assert(final(s)@ =~= old(s)@ + two_digits(n as nat));
        return;
    }
    push_decimal(s, n);
}

/// Appends `n` in decimal.
pub(crate) fn push_decimal(s: &mut String, n: u64)
    ensures
        final(s)@ == old(s)@ + decimal(n as nat),
{
    // Digits from the least significant one.
    let mut digits: Vec<char> = Vec::new();
    let mut m = n;
    let ghost mut tail: Seq<char> = Seq::empty();
    while m >= 10
        invariant
            decimal(n as nat) == decimal(m as nat) + tail,
            digits@ == tail.reverse(),
        decreases m,
    {
        let d = m % 10;
        proof {
            assert(decimal(m as nat) == decimal((m / 10) as nat).push(digit_char(d as nat)));
            assert(decimal((m / 10) as nat) + seq![digit_char(d as nat)] + tail =~= decimal((m / 10) as nat) + (seq![digit_char(d as nat)] + tail));
            assert((seq![digit_char(d as nat)] + tail).reverse() =~= tail.reverse().push(digit_char(d as nat)));
            tail = seq![digit_char(d as nat)] + tail;
        }
        digits.push(digit(d));
        m = m / 10;
    }
    let first = digit(m);
    assert(decimal(m as nat) == seq![first]);
    push_char(s, first);
    let ghost s1 = s@;
    let mut k = digits.len();
    while k > 0
        invariant
            k <= digits@.len(),
            digits@ == tail.reverse(),
            s@ == s1 + tail.take(tail.len() - k),
            s1 == old(s)@ + seq![first],
            tail.len() == digits@.len(),
        decreases k,
    {
        k -= 1;
        proof {
            assert(tail.take(tail.len() - k) =~= tail.take(tail.len() - k - 1).push(tail[tail.len() - k - 1]));
            assert(digits@[k as int] == tail[tail.len() - 1 - k]);
        }
        push_char(s, digits[k]);
    }
    assert(tail.take(tail.len() as int) =~= tail);
    assert(final(s)@ =~= old(s)@ + decimal(n as nat));
}

impl GameClock {
    /// A running clock with no ticks yet.
    pub fn new() -> (c: GameClock)
        ensures
            c@ == (ClockView { accumulated_nanos: 0, tick_count: 0, paused: false }),
    {
        GameClock { accumulated_nanos: 0, previous: instant_now(), tick_count: 0, paused: false }
    }

    /// Adds `elapsed` nanoseconds of real time (see `spec_accumulate`).
    pub fn accumulate(&mut self, elapsed: u128) -> (ticks: u32)
        requires
            old(self)@.tick_count + 4 <= u64::MAX,
        ensures
            (final(self)@, ticks) == spec_accumulate(old(self)@, elapsed),
            final(self)@.accumulated_nanos < TICK_RATE_NANOS,
            final(self).last_instant() == old(self).last_instant(),
            ticks <= 4,
    {
        proof {
            use_type_invariant(&*self);
        }
        let capped: u64 = if elapsed < MAX_FRAME_NANOS as u128 { elapsed as u64 } else { MAX_FRAME_NANOS };
        let held = self.accumulated_nanos + capped;
        let ticks = held / TICK_RATE_NANOS;
        assert(ticks <= 4) by (nonlinear_arith)
            requires
                ticks == held / TICK_RATE_NANOS,
                held <= 4 * TICK_RATE_NANOS,
        ;
        assert(held - TICK_RATE_NANOS * ticks < TICK_RATE_NANOS) by (nonlinear_arith)
            requires
                ticks == held / TICK_RATE_NANOS,
        ;
        self.accumulated_nanos = held - TICK_RATE_NANOS * ticks;
        self.tick_count = self.tick_count + ticks;
        ticks as u32
    }

    /// Whether `advance` can be called: four more ticks fit in the count.
    pub fn can_advance(&self) -> (b: bool)
        ensures
            b == (self@.tick_count + 4 <= u64::MAX),
    {
        self.tick_count <= u64::MAX - 4
    }

    /// Hands out the whole ticks of the real time since the last call, none while
    /// paused: the frame runs from the instant the last unpaused call (or the
    /// clock's creation) stored to the instant this call stores.
    pub fn advance(&mut self) -> (ticks: u32)
        requires
            old(self)@.tick_count + 4 <= u64::MAX,
        ensures
            old(self)@.paused ==> ticks == 0 && final(self)@ == old(self)@ && final(self).last_instant() == old(self).last_instant(),
            !old(self)@.paused ==> exists|now: Instant| final(self).last_instant() == now
                && #[trigger] spec_accumulate(old(self)@, instant_gap(now, old(self).last_instant())) == (final(self)@, ticks),
            exists|elapsed: u128| #[trigger] spec_advance_frame(old(self)@, elapsed) == (final(self)@, ticks),
            final(self)@.accumulated_nanos < TICK_RATE_NANOS,
    {
        proof {
            use_type_invariant(&*self);
        }
        if self.paused {
            assert(spec_advance_frame(old(self)@, 0) == (old(self)@, 0u32));
            return 0;
        }
        let now = instant_now();
        let elapsed = nanos_of(&time_between(&now, &self.previous));
        self.previous = now;
        let ticks = self.accumulate(elapsed);
        assert(spec_advance_frame(old(self)@, elapsed) == (self@, ticks));
        assert(spec_accumulate(old(self)@, instant_gap(now, old(self).last_instant())) == (self@, ticks));
        ticks
    }

    /// The simulated time: one tick rate per tick handed out.
    pub fn elapsed(&self) -> (d: Duration)
        ensures
            duration_nanos(d) == elapsed_nanos(self@),
    {
        duration_from_nanos(TICK_RATE_NANOS * (self.tick_count as u32) as u64)
    }

    pub fn toggle_pause(&mut self)
        ensures
            final(self)@ == spec_toggle_pause(old(self)@),
            final(self).last_instant() == old(self).last_instant(),
    {
        proof {
            use_type_invariant(&*self);
        }
        self.paused = !self.paused;
    }

    pub fn is_paused(&self) -> (b: bool)
        ensures
            b == self@.paused,
    {
        self.paused
    }

    /// Counts the whole ticks in `duration` as handed out, paused or not.
    pub fn advance_by(&mut self, duration: Duration) -> (ticks: u32)
        requires
            old(self)@.tick_count + (duration_nanos(duration) / TICK_RATE_NANOS as u128) as u64 <= u64::MAX,
        ensures
            final(self)@ == spec_advance_by(old(self)@, duration_nanos(duration)),
            final(self).last_instant() == old(self).last_instant(),
            ticks == ((duration_nanos(duration) / TICK_RATE_NANOS as u128) as u64) as u32,
    {
        proof {
            use_type_invariant(&*self);
        }
        let ticks = (nanos_of(&duration) / TICK_RATE_NANOS as u128) as u64;
        self.tick_count = self.tick_count + ticks;
        ticks as u32
    }

    /// `advance_by` where the tick count can take the step; `None`, with the clock
    /// unchanged, where it would overflow.
    pub fn try_advance_by(&mut self, duration: Duration) -> (ticks: Option<u32>)
        ensures
            ({
                let n = (duration_nanos(duration) / TICK_RATE_NANOS as u128) as u64;
                &&& old(self)@.tick_count + n <= u64::MAX ==> ticks == Some(n as u32) && final(self)@ == spec_advance_by(old(self)@, duration_nanos(duration))
                &&& old(self)@.tick_count + n > u64::MAX ==> ticks is None && final(self)@ == old(self)@
            }),
            final(self).last_instant() == old(self).last_instant(),
    {
        let n = (nanos_of(&duration) / TICK_RATE_NANOS as u128) as u64;
        if self.tick_count.checked_add(n).is_none() {
            return None;
        }
        Some(self.advance_by(duration))
    }

    /// The simulated time as text (see `spec_elapsed_formatted`).
    pub fn elapsed_formatted(&self) -> (s: String)
        ensures
            s@ == spec_elapsed_formatted(self@),
    {
        let total_secs = TICK_RATE_NANOS * (self.tick_count as u32) as u64 / 1_000_000_000;
        let hours = total_secs / 3600;
        let minutes = (total_secs % 3600) / 60;
        let seconds = total_secs % 60;
        let mut s = String::new();
        if hours > 0 {
            push_two_digits(&mut s, hours);
            push_char(&mut s, ':');
        }
        push_two_digits(&mut s, minutes);
        push_char(&mut s, ':');
        push_two_digits(&mut s, seconds);
        s
    }
}

} // verus!
