//! The loading screen: the assets waited for, the shortest loading time, the
//! progress shown, and the move to play once everything is in.
use vstd::prelude::*;

use crate::config::{MIN_LOAD_TIME_MS, PROGRESS_LENGTH};
use crate::flow::{request, GameFlow, GameState};
use crate::motion::total_ms;

verus! {

/// The assets that the loading screen waits for, in the order registered.
/// Once cleared, at the end of loading, it takes no more.
pub struct LoadingAssets<H> {
    pub handles: Vec<H>,
    pub closed: bool,
}

impl<H> LoadingAssets<H> {
    pub open spec fn view(&self) -> Seq<H> {
        self.handles@
    }

    /// An empty, open list.
    pub fn new() -> (r: Self)
        ensures
            r@.len() == 0,
            !r.closed,
    {
        LoadingAssets { handles: Vec::new(), closed: false }
    }

    /// Adds `handle` to the assets waited for; ignored once the list is closed.
    pub fn register(&mut self, handle: H)
        ensures
            final(self).closed == old(self).closed,
            final(self)@ == if old(self).closed {
                old(self)@
            } else {
                old(self)@.push(handle)
            },
    {
        if !self.closed {
            self.handles.push(handle);
        }
    }

    /// Number of assets registered.
    pub fn len(&self) -> (r: usize)
        ensures
            r == self@.len(),
    {
        self.handles.len()
    }

    /// Forgets the list at the end of loading, and closes it. The assets
    /// themselves stay loaded.
    pub fn clear(&mut self)
        ensures
            final(self)@.len() == 0,
            final(self).closed,
    {
        self.handles.clear();
        self.closed = true;
    }
}

/// The shortest loading time, counted as one more asset to wait for: a
/// one-shot timer of `MIN_LOAD_TIME_MS` milliseconds.
#[derive(Clone, Copy, Debug, PartialEq, Eq, Structural)]
pub struct TimedLoad {
    pub elapsed_ms: u64,
}

/// Time counted by a one-shot timer after a tick of `dt_ms`: it stops at its duration.
pub open spec fn tick_once(elapsed: int, dt_ms: int) -> int {
    if elapsed + dt_ms >= MIN_LOAD_TIME_MS {
        MIN_LOAD_TIME_MS as int
    } else {
        elapsed + dt_ms
    }
}

/// The timer's count after ticks of the given lengths.
pub open spec fn timed_after(elapsed: int, dts: Seq<u32>) -> int
    decreases dts.len(),
{
    if dts.len() == 0 {
        elapsed
    } else {
        timed_after(tick_once(elapsed, dts[0] as int), dts.subrange(1, dts.len() as int))
    }
}

impl TimedLoad {
    /// Never past its duration.
    pub open spec fn wf(self) -> bool {
        self.elapsed_ms <= MIN_LOAD_TIME_MS
    }

    pub open spec fn is_finished(self) -> bool {
        self.elapsed_ms >= MIN_LOAD_TIME_MS
    }

    /// A timer that has not started.
    pub fn new() -> (r: Self)
        ensures
            r.elapsed_ms == 0,
            r.wf(),
    {
        TimedLoad { elapsed_ms: 0 }
    }

    /// Counts `dt_ms` more milliseconds; returns whether the timer finished on
    /// this tick.
    pub fn tick(&mut self, dt_ms: u32) -> (just_finished: bool)
        requires
            old(self).wf(),
        ensures
            final(self).wf(),
            final(self).elapsed_ms == tick_once(old(self).elapsed_ms as int, dt_ms as int),
            just_finished == (!old(self).is_finished() && final(self).is_finished()),
    {
        let was_finished = self.elapsed_ms >= MIN_LOAD_TIME_MS;
        if self.elapsed_ms + (dt_ms as u64) >= MIN_LOAD_TIME_MS {
            self.elapsed_ms = MIN_LOAD_TIME_MS;
        } else {
            self.elapsed_ms = self.elapsed_ms + (dt_ms as u64);
        }
        !was_finished && self.elapsed_ms >= MIN_LOAD_TIME_MS
    }

    /// Whether the shortest loading time has passed.
    pub fn finished(&self) -> (r: bool)
        ensures
            r == self.is_finished(),
    {
        self.elapsed_ms >= MIN_LOAD_TIME_MS
    }
}

/// Number of `true` flags.
pub open spec fn count_loaded(flags: Seq<bool>) -> nat
    decreases flags.len(),
{
    if flags.len() == 0 {
        0
    } else {
        count_loaded(flags.drop_last()) + if flags.last() {
            1nat
        } else {
            0nat
        }
    }
}

/// Assets done, counting the timer as one: the loaded flags plus the finished timer.
pub open spec fn loaded_count(flags: Seq<bool>, timer_done: bool) -> nat {
    count_loaded(flags) + if timer_done {
        1nat
    } else {
        0nat
    }
}

/// How far loading has come: `loaded` of `total`, the timer counted in both.
#[derive(Clone, Copy, Debug, PartialEq, Eq, Structural)]
pub struct LoadProgress {
    pub loaded: usize,
    pub total: usize,
}

impl LoadProgress {
    /// Whether everything is in.
    pub fn is_complete(&self) -> (r: bool)
        ensures
            r == (self.loaded == self.total),
    {
        self.loaded == self.total
    }

    /// Length of the filled part of the loading bar: `PROGRESS_LENGTH` times
    /// `loaded / total`, rounded down.
    pub fn bar_length(&self) -> (r: i64)
        requires
            0 < self.total,
            self.loaded <= self.total,
        ensures
            r == PROGRESS_LENGTH * (self.loaded as int) / (self.total as int),
            0 <= r <= PROGRESS_LENGTH,
    {
        let num = (PROGRESS_LENGTH as u128) * (self.loaded as u128);
        proof {
            let (l, t, p) = (self.loaded as int, self.total as int, PROGRESS_LENGTH as int);
            assert(0 <= p * l <= p * t) by (nonlinear_arith)
                requires
                    0 <= l <= t,
                    p > 0,
            ;
            assert(p * t / t == p) by (nonlinear_arith)
                requires
                    t > 0,
            ;
            vstd::arithmetic::div_mod::lemma_div_is_ordered(p * l, p * t, t);
            vstd::arithmetic::div_mod::lemma_div_pos_is_pos(p * l, t);
        }
        (num / (self.total as u128)) as i64
    }
}

proof fn lemma_count_loaded_bound(flags: Seq<bool>)
    ensures
        count_loaded(flags) <= flags.len(),
        count_loaded(flags) == flags.len() <==> forall|i: int| 0 <= i < flags.len() ==> flags[i],
    decreases flags.len(),
{
    if flags.len() > 0 {
        let init = flags.drop_last();
        lemma_count_loaded_bound(init);
        if count_loaded(flags) == flags.len() {
            assert forall|i: int| 0 <= i < flags.len() implies flags[i] by {
                if i < flags.len() - 1 {
                    assert(init[i] == flags[i]);
                }
            }
        }
        if forall|i: int| 0 <= i < flags.len() ==> flags[i] {
            assert forall|i: int| 0 <= i < init.len() implies init[i] by {
                assert(flags[i]);
            }
            assert(flags[flags.len() - 1]);
        }
    }
}

/// Counts the loaded flags, in exec form.
fn count_true(flags: &Vec<bool>) -> (r: usize)
    ensures
        r == count_loaded(flags@),
{
    let mut n: usize = 0;
    let mut i: usize = 0;
    while i < flags.len()
        invariant
            i <= flags@.len(),
            n == count_loaded(flags@.take(i as int)),
        decreases flags@.len() - i,
    {
        proof {
            let t = flags@.take(i as int + 1);
            assert(t.drop_last() =~= flags@.take(i as int));
            lemma_count_loaded_bound(flags@.take(i as int));
        }
        if flags[i] {
            n = n + 1;
        }
        i = i + 1;
    }
    assert(flags@.take(i as int) =~= flags@);
    n
}

/// The progress shown this frame. `loaded[i]` says whether the engine reports
/// the `i`-th registered asset as loaded; a failed asset never counts.
pub fn loading_progress<H>(assets: &LoadingAssets<H>, loaded: &Vec<bool>, timed: &TimedLoad) -> (r: LoadProgress)
    requires
        loaded@.len() == assets@.len(),
        assets@.len() < usize::MAX,
    ensures
        r.loaded == loaded_count(loaded@, timed.is_finished()),
        r.total == assets@.len() + 1,
        r.loaded <= r.total,
        (r.loaded == r.total) == ((forall|i: int| 0 <= i < loaded@.len() ==> loaded@[i]) && timed.is_finished()),
{
    let n = count_true(loaded);
    proof {
        lemma_count_loaded_bound(loaded@);
    }
    let done: usize = if timed.finished() { 1 } else { 0 };
    LoadProgress { loaded: n + done, total: assets.len() + 1 }
}

/// One frame of the loading screen: measures progress and asks for play once
/// every asset is in and the shortest loading time has passed.
pub fn update_loading<H>(assets: &LoadingAssets<H>, loaded: &Vec<bool>, timed: &TimedLoad, flow: &mut GameFlow) -> (r: LoadProgress)
    requires
        loaded@.len() == assets@.len(),
        assets@.len() < usize::MAX,
        old(flow).wf(),
    ensures
        r.loaded == loaded_count(loaded@, timed.is_finished()),
        r.total == assets@.len() + 1,
        final(flow).wf(),
        *final(flow) == if r.loaded == r.total {
            request(*old(flow), GameState::Playing)
        } else {
            *old(flow)
        },
{
    let progress = loading_progress(assets, loaded, timed);
    if progress.is_complete() {
        flow.set_next(GameState::Playing);
    }
    progress
}

proof fn lemma_count_loaded_monotone(before: Seq<bool>, after: Seq<bool>)
    requires
        before.len() == after.len(),
        forall|i: int| 0 <= i < before.len() && #[trigger] before[i] ==> after[i],
    ensures
        count_loaded(before) <= count_loaded(after),
    decreases before.len(),
{
    if before.len() > 0 {
        let (b, a) = (before.drop_last(), after.drop_last());
        assert forall|i: int| 0 <= i < b.len() && #[trigger] b[i] implies a[i] by {
            assert(before[i]);
        }
        lemma_count_loaded_monotone(b, a);
        if before.last() {
            assert(before[before.len() - 1]);
        }
    }
}

/// The progress shown never falls back while loading, as long as a loaded
/// asset stays loaded and the timer counts forward; it is complete exactly
/// when every asset is loaded and the shortest loading time has passed.
pub proof fn lemma_progress_monotone(
    before: Seq<bool>,
    after: Seq<bool>,
    timer_before: TimedLoad,
    timer_after: TimedLoad,
)
    requires
        before.len() == after.len(),
        forall|i: int| 0 <= i < before.len() && #[trigger] before[i] ==> after[i],
        timer_before.elapsed_ms <= timer_after.elapsed_ms,
    ensures
        loaded_count(before, timer_before.is_finished()) <= loaded_count(
            after,
            timer_after.is_finished(),
        ),
        loaded_count(after, timer_after.is_finished()) <= after.len() + 1,
        loaded_count(after, timer_after.is_finished()) == after.len() + 1 <==> (forall|i: int|
            0 <= i < after.len() ==> after[i]) && timer_after.is_finished(),
{
    lemma_count_loaded_monotone(before, after);
    lemma_count_loaded_bound(after);
}

proof fn lemma_timed_after_bounds(elapsed: int, dts: Seq<u32>)
    requires
        0 <= elapsed,
    ensures
        timed_after(elapsed, dts) <= elapsed + total_ms(dts),
        total_ms(dts) >= 0,
    decreases dts.len(),
{
    if dts.len() > 0 {
        lemma_timed_after_bounds(tick_once(elapsed, dts[0] as int), dts.subrange(1, dts.len() as int));
    }
}

/// Loading never ends before the shortest loading time: whatever the engine
/// reports of the assets, progress that is complete with a timer ticked from
/// zero through frames of the given lengths means that those frames add up to
/// at least `MIN_LOAD_TIME_MS`.
pub proof fn lemma_loading_lasts_minimum(loaded: Seq<bool>, dts: Seq<u32>)
    ensures
        loaded_count(loaded, timed_after(0, dts) >= MIN_LOAD_TIME_MS) == loaded.len() + 1
            ==> total_ms(dts) >= MIN_LOAD_TIME_MS,
{
    lemma_count_loaded_bound(loaded);
    lemma_timed_after_bounds(0, dts);
}

} // verus!
