//! Debounced persistence of window metrics.
//!
//! A window that is dragged or resized reports its metrics many times a
//! second. Each report is stored as the pending write and stamped with a new
//! token; a timer is started that carries the token. When the timer fires, the
//! write is committed only if its token is still the current one, that is, if
//! no newer report arrived in the meantime. Stale timers discard themselves,
//! so no timer ever has to be cancelled.

use crate::window::Position;
use crate::window::Size;
use crate::window::WindowMetrics;
use vstd::prelude::*;

verus! {

/// Delay between a metrics report and the write it may cause, in milliseconds.
pub const WINDOW_METRICS_DEBOUNCE_MS: u64 = 200;

/// A write that waits for its timer.
#[derive(Debug, Clone, Copy, PartialEq, Eq, Structural)]
pub struct PendingMetricsWrite {
    pub window_position: Position,
    pub window_size: Size,
    /// The token that was current when the write was scheduled.
    pub token: u64,
}

/// The updater as mathematics: the latest reported metrics and the current
/// token.
pub ghost struct DebounceView {
    pub position: Position,
    pub size: Size,
    pub token: u64,
}

/// The token that follows `token`; the counter starts over after the largest
/// value.
pub open spec fn next_token(token: u64) -> u64 {
    if token == u64::MAX {
        0
    } else {
        (token + 1) as u64
    }
}

/// The updater after a report of `position` and `size`.
pub open spec fn schedule_view(s: DebounceView, position: Position, size: Size) -> DebounceView {
    DebounceView { position, size, token: next_token(s.token) }
}

/// What a timer that carries `token` writes when it fires: the latest
/// metrics if the token is current, nothing otherwise.
pub open spec fn commit_view(s: DebounceView, token: u64) -> Option<WindowMetrics> {
    if s.token == token {
        Some(WindowMetrics { position: s.position, size: s.size })
    } else {
        None
    }
}

/// Coalesces rapid metrics reports of one window into a single delayed write.
pub struct DebouncedMetricsUpdater {
    pending: (Position, Size),
    token: u64,
}

impl View for DebouncedMetricsUpdater {
    type V = DebounceView;

    closed spec fn view(&self) -> DebounceView {
        DebounceView { position: self.pending.0, size: self.pending.1, token: self.token }
    }
}

impl DebouncedMetricsUpdater {
    /// An updater that holds the window's initial metrics and has scheduled
    /// nothing yet.
    pub fn new(position: Position, size: Size) -> (updater: Self)
        ensures
            updater@ == (DebounceView { position, size, token: 0 }),
    {
        DebouncedMetricsUpdater { pending: (position, size), token: 0 }
    }

    /// The token of the newest scheduled write.
    pub fn current_token(&self) -> (token: u64)
        ensures
            token == self@.token,
    {
        self.token
    }

    /// Stores the reported metrics as the pending write under a new token and
    /// returns the write for the timer to carry.
    pub fn schedule(&mut self, position: Position, size: Size) -> (write: PendingMetricsWrite)
        ensures
            final(self)@ == schedule_view(old(self)@, position, size),
            write == (PendingMetricsWrite {
                window_position: position,
                window_size: size,
                token: next_token(old(self)@.token),
            }),
    {
        self.pending = (position, size);
        let token = self.token.wrapping_add(1);
        self.token = token;
        PendingMetricsWrite { window_position: position, window_size: size, token }
    }

    /// Called when the timer of a write fires. Returns the metrics to persist
    /// if the write's token is still current, and `None` if a newer report
    /// has superseded it.
    pub fn commit(&self, token: u64) -> (write: Option<WindowMetrics>)
        ensures
            write == commit_view(self@, token),
    {
        if self.token != token {
            return None;
        }
        Some(WindowMetrics { position: self.pending.0, size: self.pending.1 })
    }
}

/// One thing that happens to an updater: the window reports new metrics, or
/// the timer that was started for the report with the given number (counted
/// from zero) fires.
pub ghost enum MetricsStep {
    Changed(Position, Size),
    TimerFired(nat),
}

/// An updater together with the tokens handed to the timers so far, one per
/// report, and the writes committed so far.
pub ghost struct MetricsRun {
    pub state: DebounceView,
    pub issued: Seq<u64>,
    pub writes: Seq<WindowMetrics>,
}

/// The run after one more step. A report schedules a write and hands its
/// token to a new timer; a timer that fires commits with the token it was
/// handed.
pub open spec fn run_step(run: MetricsRun, step: MetricsStep) -> MetricsRun {
    match step {
        MetricsStep::Changed(position, size) => {
            let next = schedule_view(run.state, position, size);
            MetricsRun { state: next, issued: run.issued.push(next.token), writes: run.writes }
        },
        MetricsStep::TimerFired(k) => {
            if k < run.issued.len() {
                match commit_view(run.state, run.issued[k as int]) {
                    Some(metrics) => MetricsRun {
                        state: run.state,
                        issued: run.issued,
                        writes: run.writes.push(metrics),
                    },
                    None => run,
                }
            } else {
                run
            }
        },
    }
}

/// The run that results from the given steps, starting from `init`.
pub open spec fn replay(init: DebounceView, steps: Seq<MetricsStep>) -> MetricsRun
    decreases steps.len(),
{
    if steps.len() == 0 {
        MetricsRun { state: init, issued: Seq::empty(), writes: Seq::empty() }
    } else {
        run_step(replay(init, steps.drop_last()), steps.last())
    }
}

/// The number of reports among the steps.
pub open spec fn changes_in(steps: Seq<MetricsStep>) -> nat
    decreases steps.len(),
{
    if steps.len() == 0 {
        0
    } else {
        changes_in(steps.drop_last()) + (if steps.last() is Changed {
            1nat
        } else {
            0nat
        })
    }
}

/// How often the timer of report `k` fires among the steps.
pub open spec fn fired_count(steps: Seq<MetricsStep>, k: nat) -> nat
    decreases steps.len(),
{
    if steps.len() == 0 {
        0
    } else {
        fired_count(steps.drop_last(), k) + (if steps.last() == MetricsStep::TimerFired(k) {
            1nat
        } else {
            0nat
        })
    }
}

/// The metrics of the last report among the steps.
pub open spec fn last_change(steps: Seq<MetricsStep>) -> Option<WindowMetrics>
    decreases steps.len(),
{
    if steps.len() == 0 {
        None
    } else {
        match steps.last() {
            MetricsStep::Changed(position, size) => Some(WindowMetrics { position, size }),
            MetricsStep::TimerFired(_) => last_change(steps.drop_last()),
        }
    }
}

/// The steps form one burst of rapid reports: there is at least one report;
/// every timer fires after its own report, and unless it belongs to the last
/// report, after the report that follows it too (the next report came sooner
/// than the delay); and the timer of the last report fires exactly once.
pub open spec fn is_rapid_burst(steps: Seq<MetricsStep>) -> bool {
    let n = changes_in(steps);
    &&& n >= 1
    &&& fired_count(steps, (n - 1) as nat) == 1
    &&& forall|p: int|
        0 <= p < steps.len() ==> ((#[trigger] steps[p]) matches MetricsStep::TimerFired(k) ==> k
            < n && changes_in(steps.take(p)) >= (if k + 1 < n {
            k + 2
        } else {
            n
        }))
}

/// The token after `count` reports, starting from `start`.
pub open spec fn token_after(start: u64, count: nat) -> u64 {
    ((start + count) % 0x1_0000_0000_0000_0000) as u64
}

proof fn lemma_token_after_next(start: u64, count: nat)
    ensures
        token_after(start, 0) == start,
        next_token(token_after(start, count)) == token_after(start, count + 1),
{
}

proof fn lemma_token_after_distinct(start: u64, a: nat, b: nat)
    requires
        a < b,
        b - a < 0x1_0000_0000_0000_0000,
    ensures
        token_after(start, a) != token_after(start, b),
{
}

proof fn lemma_changes_monotonic(steps: Seq<MetricsStep>, a: int, b: int)
    requires
        0 <= a <= b <= steps.len(),
    ensures
        changes_in(steps.take(a)) <= changes_in(steps.take(b)),
        forall|k: nat| fired_count(steps.take(a), k) <= fired_count(steps.take(b), k),
        changes_in(steps.take(a)) == changes_in(steps.take(b)) ==> last_change(steps.take(a))
            == last_change(steps.take(b)),
    decreases b - a,
{
    if a < b {
        lemma_changes_monotonic(steps, a, b - 1);
        assert(steps.take(b).drop_last() =~= steps.take(b - 1));
    }
}

proof fn lemma_prefix(init: DebounceView, steps: Seq<MetricsStep>, len: int)
    requires
        is_rapid_burst(steps),
        changes_in(steps) < 0x1_0000_0000_0000_0000,
        0 <= len <= steps.len(),
    ensures
        ({
            let prefix = steps.take(len);
            let run = replay(init, prefix);
            let c = changes_in(prefix);
            let n = changes_in(steps);
            &&& c <= n
            &&& run.issued.len() == c
            &&& forall|j: int|
                0 <= j < c ==> #[trigger] run.issued[j] == token_after(init.token, (j + 1) as nat)
            &&& run.state.token == token_after(init.token, c)
            &&& c > 0 ==> Some(WindowMetrics { position: run.state.position, size: run.state.size })
                == last_change(prefix)
            &&& fired_count(prefix, (n - 1) as nat) <= 1
            &&& run.writes == (if fired_count(prefix, (n - 1) as nat) == 0 {
                Seq::<WindowMetrics>::empty()
            } else {
                seq![last_change(steps).unwrap()]
            })
        }),
    decreases len,
{
    let n = changes_in(steps);
    assert(steps.take(steps.len() as int) =~= steps);
    lemma_changes_monotonic(steps, len, steps.len() as int);
    lemma_token_after_next(init.token, 0);
    if len > 0 {
        lemma_prefix(init, steps, len - 1);
        let before = steps.take(len - 1);
        let prefix = steps.take(len);
        assert(prefix.drop_last() =~= before);
        assert(prefix.last() == steps[len - 1]);
        let run0 = replay(init, before);
        let c0 = changes_in(before);
        lemma_token_after_next(init.token, c0);
        match steps[len - 1] {
            MetricsStep::Changed(position, size) => {},
            MetricsStep::TimerFired(k) => {
                assert(k < n);
                assert(c0 >= (if k + 1 < n {
                    k + 2
                } else {
                    n
                }));
                assert(k < run0.issued.len());
                assert(run0.issued[k as int] == token_after(init.token, (k + 1) as nat));
                if k + 1 < n {
                    lemma_token_after_distinct(init.token, (k + 1) as nat, c0);
                } else {
                    assert(c0 == n);
                    lemma_changes_monotonic(steps, len - 1, steps.len() as int);
                }
            },
        }
    }
}

/// Within one burst of rapid reports exactly one write is committed, and it
/// holds the metrics of the last report. (The token counter starts over
/// after 2^64 reports, so the burst must be shorter than that.)
pub proof fn lemma_burst_writes_once(init: DebounceView, steps: Seq<MetricsStep>)
    requires
        is_rapid_burst(steps),
        changes_in(steps) < 0x1_0000_0000_0000_0000,
    ensures
        last_change(steps) is Some,
        replay(init, steps).writes == seq![last_change(steps).unwrap()],
{
    lemma_prefix(init, steps, steps.len() as int);
    assert(steps.take(steps.len() as int) =~= steps);
}

/// The moment at which a step happens, where the reports happen at the given
/// times, in their order, and every timer fires `delay` after its report.
pub open spec fn step_time(steps: Seq<MetricsStep>, times: Seq<int>, delay: int, p: int) -> int {
    match steps[p] {
        MetricsStep::Changed(_, _) => times[changes_in(steps.take(p)) as int],
        MetricsStep::TimerFired(k) => times[k as int] + delay,
    }
}

/// The steps are what happens when the window reports at the given times:
/// there is one report per time, every timer belongs to one of the reports
/// and fires once, and the steps stand in the order of their moments. Steps
/// that share a moment may stand in either order.
pub open spec fn chronological(steps: Seq<MetricsStep>, times: Seq<int>, delay: int) -> bool {
    &&& changes_in(steps) == times.len()
    &&& forall|p: int|
        0 <= p < steps.len() ==> ((#[trigger] steps[p]) matches MetricsStep::TimerFired(k) ==> k
            < times.len())
    &&& forall|k: nat| k < times.len() ==> #[trigger] fired_count(steps, k) == 1
    &&& forall|p: int, q: int|
        0 <= p < q < steps.len() ==> #[trigger] step_time(steps, times, delay, p) <= #[trigger] step_time(
            steps,
            times,
            delay,
            q,
        )
}

/// Each report follows the one before it by less than the delay.
pub open spec fn rapid(times: Seq<int>, delay: int) -> bool {
    forall|i: int| 0 <= i < times.len() - 1 ==> times[i] <= #[trigger] times[i + 1] < times[i] + delay
}

proof fn change_position(steps: Seq<MetricsStep>, m: nat) -> (q: int)
    requires
        m < changes_in(steps),
    ensures
        0 <= q < steps.len(),
        steps[q] is Changed,
        changes_in(steps.take(q)) == m,
        changes_in(steps.take(q + 1)) == m + 1,
    decreases steps.len(),
{
    let shorter = steps.drop_last();
    let last = steps.len() - 1;
    if m < changes_in(shorter) {
        let q = change_position(shorter, m);
        assert(shorter.take(q) =~= steps.take(q));
        assert(shorter.take(q + 1) =~= steps.take(q + 1));
        q
    } else {
        assert(steps.take(last) =~= shorter);
        assert(steps.take(last + 1) =~= steps);
        last
    }
}

/// Steps that happen in the order of their moments, after reports that
/// follow each other by less than the delay, form one burst.
pub proof fn lemma_rapid_reports_form_a_burst(
    steps: Seq<MetricsStep>,
    times: Seq<int>,
    delay: int,
)
    requires
        delay > 0,
        times.len() >= 1,
        rapid(times, delay),
        chronological(steps, times, delay),
    ensures
        is_rapid_burst(steps),
{
    let n = changes_in(steps);
    assert forall|p: int| 0 <= p < steps.len() implies ((#[trigger] steps[p]) matches MetricsStep::TimerFired(
        k,
    ) ==> k < n && changes_in(steps.take(p)) >= (if k + 1 < n {
        k + 2
    } else {
        n
    })) by {
        match steps[p] {
            MetricsStep::TimerFired(k) => {
                assert(k < n);
                let own = change_position(steps, k);
                assert(step_time(steps, times, delay, own) == times[k as int]);
                assert(step_time(steps, times, delay, p) == times[k as int] + delay);
                if own > p {
                    assert(step_time(steps, times, delay, p) <= step_time(
                        steps,
                        times,
                        delay,
                        own,
                    ));
                }
                assert(own < p);
                lemma_changes_monotonic(steps, own + 1, p);
                if k + 1 < n {
                    let next = change_position(steps, (k + 1) as nat);
                    assert(step_time(steps, times, delay, next) == times[k as int + 1]);
                    assert(times[k as int] <= times[k as int + 1] < times[k as int] + delay);
                    if next > p {
                        assert(step_time(steps, times, delay, p) <= step_time(
                            steps,
                            times,
                            delay,
                            next,
                        ));
                    }
                    assert(next < p);
                    lemma_changes_monotonic(steps, next + 1, p);
                }
            },
            MetricsStep::Changed(_, _) => {},
        }
    }
}

/// When a window reports its metrics several times, each report less than
/// the delay after the one before, and every timer fires once, the delay
/// after its report, then exactly one write is committed, and it holds the
/// metrics of the last report. (The token counter starts over after 2^64
/// reports, so there must be fewer than that.)
pub proof fn lemma_rapid_reports_write_once(
    init: DebounceView,
    steps: Seq<MetricsStep>,
    times: Seq<int>,
    delay: int,
)
    requires
        delay > 0,
        1 <= times.len() < 0x1_0000_0000_0000_0000,
        rapid(times, delay),
        chronological(steps, times, delay),
    ensures
        last_change(steps) is Some,
        replay(init, steps).writes == seq![last_change(steps).unwrap()],
{
    lemma_rapid_reports_form_a_burst(steps, times, delay);
    lemma_burst_writes_once(init, steps);
}

} // verus!
