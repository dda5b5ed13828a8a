//! Crash-loop detection over a re-arming time window.
use vstd::prelude::*;

verus! {

/// A countdown advanced by hand with elapsed milliseconds. Once it reaches
/// zero it stays finished until it is reset.
pub struct WindowTimer {
    pub duration_ms: u64,
    pub remaining_ms: u64,
    pub finished: bool,
}

impl WindowTimer {
    pub open spec fn wf(self) -> bool {
        &&& self.remaining_ms <= self.duration_ms
        &&& self.finished ==> self.remaining_ms == 0
    }

    /// The timer after `delta` more milliseconds have gone by.
    pub open spec fn ticked(self, delta: nat) -> WindowTimer {
        if self.finished {
            self
        } else {
            let left: nat = if self.remaining_ms >= delta {
                (self.remaining_ms - delta) as nat
            } else {
                0
            };
            WindowTimer { remaining_ms: left as u64, finished: left == 0, ..self }
        }
    }

    /// The timer started afresh over its whole duration.
    pub open spec fn rewound(self) -> WindowTimer {
        WindowTimer { remaining_ms: self.duration_ms, finished: false, ..self }
    }

    pub fn new(duration_ms: u64) -> (t: WindowTimer)
        ensures
            t.wf(),
            t == (WindowTimer { duration_ms, remaining_ms: duration_ms, finished: false }),
    {
        WindowTimer { duration_ms, remaining_ms: duration_ms, finished: false }
    }

    pub fn tick(&mut self, delta_ms: u64)
        ensures
            *final(self) == old(self).ticked(delta_ms as nat),
            old(self).wf() ==> final(self).wf(),
    {
        if !self.finished {
            self.remaining_ms = self.remaining_ms.saturating_sub(delta_ms);
            if self.remaining_ms == 0 {
                self.finished = true;
            }
        }
    }

    pub fn reset(&mut self)
        ensures
            *final(self) == old(self).rewound(),
            final(self).wf(),
    {
        self.remaining_ms = self.duration_ms;
        self.finished = false;
    }
}

/// Counts spontaneous stops of the supervised child inside a time window and
/// trips once too many fall inside one window.
pub struct CrashLoopBreaker {
    pub count: u8,
    pub max_crash_count: u8,
    pub window: WindowTimer,
}

/// One more crash, held at the top of the counter's range.
pub open spec fn bumped(count: u8) -> u8 {
    if count < u8::MAX {
        (count + 1) as u8
    } else {
        count
    }
}

impl CrashLoopBreaker {
    pub open spec fn wf(self) -> bool {
        self.window.wf()
    }

    /// The state after one tick in which `elapsed` milliseconds went by and
    /// the child was (`stopped`) or was not seen to have exited on its own,
    /// paired with whether the breaker tripped on that tick.
    pub open spec fn stepped(self, elapsed: nat, stopped: bool) -> (CrashLoopBreaker, bool) {
        let count = if stopped { bumped(self.count) } else { self.count };
        let window = if stopped && self.count == 0 { self.window.rewound() } else { self.window };
        let window = window.ticked(elapsed);
        if !window.finished && count >= self.max_crash_count {
            (CrashLoopBreaker { count, window, ..self }, true)
        } else if window.finished {
            (CrashLoopBreaker { count: 0, window, ..self }, false)
        } else {
            (CrashLoopBreaker { count, window, ..self }, false)
        }
    }

    pub fn new(max_crash_count: u8, window_ms: u64) -> (b: CrashLoopBreaker)
        ensures
            b.wf(),
            b.count == 0,
            b.max_crash_count == max_crash_count,
            b.window == (WindowTimer { duration_ms: window_ms, remaining_ms: window_ms, finished: false }),
    {
        CrashLoopBreaker { count: 0, max_crash_count, window: WindowTimer::new(window_ms) }
    }

    /// Feeds one tick to the breaker; returns whether it tripped.
    pub fn update(&mut self, elapsed_ms: u64, stopped: bool) -> (tripped: bool)
        ensures
            (*final(self), tripped) == old(self).stepped(elapsed_ms as nat, stopped),
            old(self).wf() ==> final(self).wf(),
    {
        if stopped {
            if self.count == 0 {
                self.window.reset();
            }
            self.count = self.count.saturating_add(1);
        }
        self.window.tick(elapsed_ms);
        if !self.window.finished && self.count >= self.max_crash_count {
            return true;
        } else if self.window.finished {
            self.count = 0;
        }
        false
    }

    /// Forgets the crashes counted so far.
    pub fn clear(&mut self)
        ensures
            *final(self) == (CrashLoopBreaker { count: 0, ..*old(self) }),
    {
        self.count = 0;
    }
}

/// The state after feeding `ticks` in order, each an elapsed time in
/// milliseconds and whether the child was seen stopped on that tick.
pub open spec fn run(b: CrashLoopBreaker, ticks: Seq<(nat, bool)>) -> CrashLoopBreaker
    decreases ticks.len(),
{
    if ticks.len() == 0 {
        b
    } else {
        run(b, ticks.drop_last()).stepped(ticks.last().0, ticks.last().1).0
    }
}

/// Whether the breaker trips on tick `i` of `ticks`.
pub open spec fn trips_at(b: CrashLoopBreaker, ticks: Seq<(nat, bool)>, i: int) -> bool {
    run(b, ticks.take(i)).stepped(ticks[i].0, ticks[i].1).1
}

/// How many of `ticks` saw the child stopped.
pub open spec fn crashes_in(ticks: Seq<(nat, bool)>) -> nat
    decreases ticks.len(),
{
    if ticks.len() == 0 {
        0
    } else {
        crashes_in(ticks.drop_last()) + if ticks.last().1 { 1nat } else { 0nat }
    }
}

/// The milliseconds that `ticks` account for together.
pub open spec fn elapsed_in(ticks: Seq<(nat, bool)>) -> nat
    decreases ticks.len(),
{
    if ticks.len() == 0 {
        0
    } else {
        elapsed_in(ticks.drop_last()) + ticks.last().0
    }
}

/// Whether any of `ticks` saw the child stopped.
pub open spec fn has_crash(ticks: Seq<(nat, bool)>) -> bool {
    crashes_in(ticks) > 0
}

/// The milliseconds accounted for from the last tick that saw a crash
/// through the end of `ticks`.
pub open spec fn since_last_crash(ticks: Seq<(nat, bool)>) -> nat
    decreases ticks.len(),
{
    if ticks.len() == 0 {
        0
    } else if ticks.last().1 {
        ticks.last().0
    } else {
        since_last_crash(ticks.drop_last()) + ticks.last().0
    }
}

proof fn lemma_take_step(ticks: Seq<(nat, bool)>, i: int)
    requires
        0 <= i < ticks.len(),
    ensures
        ticks.take(i + 1).drop_last() == ticks.take(i),
        ticks.take(i + 1).last() == ticks[i],
{
    assert(ticks.take(i + 1).drop_last() =~= ticks.take(i));
}

proof fn lemma_burst_prefix(b: CrashLoopBreaker, ticks: Seq<(nat, bool)>, i: int)
    requires
        b.wf(),
        b.count == 0,
        0 <= i < ticks.len(),
        ticks[0].1,
        crashes_in(ticks.take(i + 1)) <= b.max_crash_count,
        elapsed_in(ticks.take(i + 1)) < b.window.duration_ms,
    ensures
        run(b, ticks.take(i + 1)).count == crashes_in(ticks.take(i + 1)),
        !run(b, ticks.take(i + 1)).window.finished,
        run(b, ticks.take(i + 1)).window.remaining_ms == b.window.duration_ms - elapsed_in(
            ticks.take(i + 1),
        ),
        run(b, ticks.take(i + 1)).window.duration_ms == b.window.duration_ms,
        run(b, ticks.take(i + 1)).max_crash_count == b.max_crash_count,
    decreases i,
{
    lemma_take_step(ticks, i);
    let pre = ticks.take(i + 1);
    assert(run(b, pre) == run(b, ticks.take(i)).stepped(ticks[i].0, ticks[i].1).0);
    assert(crashes_in(pre) == crashes_in(ticks.take(i)) + if ticks[i].1 { 1nat } else { 0nat });
    assert(elapsed_in(pre) == elapsed_in(ticks.take(i)) + ticks[i].0);
    if i == 0 {
        assert(ticks.take(0) =~= Seq::<(nat, bool)>::empty());
        assert(run(b, ticks.take(0)) == b);
        assert(crashes_in(ticks.take(0)) == 0);
        assert(elapsed_in(ticks.take(0)) == 0);
    } else {
        lemma_take_step(ticks, i - 1);
        assert(crashes_in(ticks.take(i)) <= crashes_in(pre));
        assert(elapsed_in(ticks.take(i)) <= elapsed_in(pre));
        lemma_burst_prefix(b, ticks, i - 1);
        assert(crashes_in(ticks.take(i)) >= 1) by {
            lemma_first_crash_counted(ticks, i);
        }
    }
}

proof fn lemma_first_crash_counted(ticks: Seq<(nat, bool)>, n: int)
    requires
        1 <= n <= ticks.len(),
        ticks[0].1,
    ensures
        crashes_in(ticks.take(n)) >= 1,
    decreases n,
{
    if n == 1 {
        lemma_take_step(ticks, 0);
        assert(ticks.take(0) =~= Seq::<(nat, bool)>::empty());
    } else {
        lemma_take_step(ticks, n - 1);
        lemma_first_crash_counted(ticks, n - 1);
    }
}

/// A burst trips the breaker on its `max_crash_count`-th crash and not
/// before: starting from a clear count, when the first tick sees a crash,
/// tick `k` sees the `max_crash_count`-th crash, and ticks `0..=k` together
/// account for less time than the window, the breaker trips on tick `k`
/// and on no earlier tick.
pub proof fn lemma_burst_trips_on_last_crash(b: CrashLoopBreaker, ticks: Seq<(nat, bool)>, k: int)
    requires
        b.wf(),
        b.count == 0,
        b.max_crash_count >= 1,
        0 <= k < ticks.len(),
        ticks[0].1,
        ticks[k].1,
        crashes_in(ticks.take(k + 1)) == b.max_crash_count,
        elapsed_in(ticks.take(k + 1)) < b.window.duration_ms,
    ensures
        trips_at(b, ticks, k),
        forall|i: int| 0 <= i < k ==> !trips_at(b, ticks, i),
{
    lemma_burst_prefix(b, ticks, k);
    lemma_take_step(ticks, k);
    assert forall|i: int| 0 <= i < k implies !trips_at(b, ticks, i) by {
        lemma_prefix_monotone(ticks, i + 1, k);
        lemma_prefix_monotone(ticks, k, k + 1);
        lemma_burst_prefix(b, ticks, i);
        lemma_take_step(ticks, i);
    }
}

proof fn lemma_prefix_monotone(ticks: Seq<(nat, bool)>, m: int, n: int)
    requires
        0 <= m <= n <= ticks.len(),
    ensures
        crashes_in(ticks.take(m)) <= crashes_in(ticks.take(n)),
        elapsed_in(ticks.take(m)) <= elapsed_in(ticks.take(n)),
    decreases n - m,
{
    if m < n {
        lemma_take_step(ticks, n - 1);
        lemma_prefix_monotone(ticks, m, n - 1);
    }
}

/// Whether every crash in `ticks` after the first comes at least a whole
/// window after the one before it, counting the elapsed times of the ticks
/// from the earlier crash's tick through the later one's, as the breaker
/// itself counts them.
pub open spec fn crashes_spaced(ticks: Seq<(nat, bool)>, window_ms: nat) -> bool {
    forall|j: int|
        0 <= j < ticks.len() && #[trigger] ticks[j].1 && has_crash(ticks.take(j))
            ==> since_last_crash(ticks.take(j)) + ticks[j].0 >= window_ms
}

proof fn lemma_spaced_prefix(b: CrashLoopBreaker, ticks: Seq<(nat, bool)>, n: int)
    requires
        b.wf(),
        b.count == 0,
        b.max_crash_count >= 2,
        0 <= n <= ticks.len(),
        crashes_spaced(ticks, b.window.duration_ms as nat),
    ensures
        ({
            let s = run(b, ticks.take(n));
            &&& s.wf()
            &&& s.count <= 1
            &&& s.window.duration_ms == b.window.duration_ms
            &&& s.max_crash_count == b.max_crash_count
            &&& s.count == 1 ==> {
                &&& has_crash(ticks.take(n))
                &&& !s.window.finished
                &&& since_last_crash(ticks.take(n)) < b.window.duration_ms
                &&& s.window.remaining_ms == b.window.duration_ms - since_last_crash(ticks.take(n))
            }
        }),
        forall|i: int| 0 <= i < n ==> !trips_at(b, ticks, i),
    decreases n,
{
    if n == 0 {
        assert(ticks.take(0) =~= Seq::<(nat, bool)>::empty());
        assert(run(b, ticks.take(0)) == b);
    } else {
        let i = n - 1;
        lemma_spaced_prefix(b, ticks, i);
        lemma_take_step(ticks, i);
        let pre = ticks.take(n);
        assert(run(b, pre) == run(b, ticks.take(i)).stepped(ticks[i].0, ticks[i].1).0);
        assert(crashes_in(pre) == crashes_in(ticks.take(i)) + if ticks[i].1 { 1nat } else { 0nat });
        assert(since_last_crash(pre) == if ticks[i].1 {
            ticks[i].0
        } else {
            since_last_crash(ticks.take(i)) + ticks[i].0
        });
        if ticks[i].1 && has_crash(ticks.take(i)) {
            assert(since_last_crash(ticks.take(i)) + ticks[i].0 >= b.window.duration_ms);
        }
        assert(!trips_at(b, ticks, i));
    }
}

/// Crashes a window apart never trip the breaker: starting from a clear
/// count with `max_crash_count` of at least two, when each crash comes at
/// least a window after the previous one, no tick trips the breaker and
/// the count never exceeds one.
pub proof fn lemma_spaced_crashes_never_trip(b: CrashLoopBreaker, ticks: Seq<(nat, bool)>)
    requires
        b.wf(),
        b.count == 0,
        b.max_crash_count >= 2,
        crashes_spaced(ticks, b.window.duration_ms as nat),
    ensures
        forall|i: int| 0 <= i < ticks.len() ==> !trips_at(b, ticks, i),
        forall|n: int| 0 <= n <= ticks.len() ==> #[trigger] run(b, ticks.take(n)).count <= 1,
{
    lemma_spaced_prefix(b, ticks, ticks.len() as int);
    assert forall|n: int| 0 <= n <= ticks.len() implies #[trigger] run(b, ticks.take(n)).count <= 1 by {
        lemma_spaced_prefix(b, ticks, n);
    }
}

} // verus!
