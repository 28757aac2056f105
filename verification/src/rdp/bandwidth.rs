//! The bandwidth estimator: throughput over a rolling window of samples
//! and a smoothed round-trip time.

use vstd::prelude::*;
use std::collections::VecDeque;
use std::time::Duration;
use std::time::Instant;
use crate::clock::{duration_nanos, instant_gap, longer_than};

verus! {

/// The sum of the bytes of the first `n` samples.
pub open spec fn bytes_in(samples: Seq<(Instant, u64)>, n: nat) -> nat
    decreases n,
{
    if n == 0 {
        0
    } else {
        bytes_in(samples, (n - 1) as nat) + samples[n - 1].1 as nat
    }
}

/// The sum of the bytes of all samples.
pub open spec fn total_of(samples: Seq<(Instant, u64)>) -> nat {
    bytes_in(samples, samples.len())
}

/// Whether a sample taken at `at` is older than the window at `now`.
pub open spec fn outdated(at: Instant, now: Instant, window: Duration) -> bool {
    longer_than(instant_gap(now, at), window)
}

/// The samples that stay after eviction at `now`: samples are dropped
/// from the front while the front one is older than the window.
pub open spec fn evicted(samples: Seq<(Instant, u64)>, now: Instant, window: Duration) -> Seq<
    (Instant, u64),
>
    decreases samples.len(),
{
    if samples.len() > 0 && outdated(samples[0].0, now, window) {
        evicted(samples.skip(1), now, window)
    } else {
        samples
    }
}

/// The time in nanoseconds that an estimate is taken over: the time from
/// the first to the last sample, or a millisecond when they coincide.
pub open spec fn estimate_span(samples: Seq<(Instant, u64)>) -> nat {
    let d = duration_nanos(instant_gap(samples.last().0, samples.first().0));
    if d == 0 {
        1_000_000
    } else {
        d
    }
}

/// Bytes per second, rounded down, for `total` bytes over `nanos`
/// nanoseconds; no more than `u64::MAX`.
pub open spec fn rate(total: nat, nanos: nat) -> nat {
    if nanos == 0 {
        0
    } else if total * 1_000_000_000 / nanos > u64::MAX {
        u64::MAX as nat
    } else {
        total * 1_000_000_000 / nanos
    }
}

/// The smoothed round-trip time after a sample: the first sample is taken
/// as it is, later ones enter with weight one eighth.
pub open spec fn smoothed(srtt: nat, sample: nat) -> nat {
    if srtt == 0 {
        sample
    } else {
        srtt * 7 / 8 + sample / 8
    }
}

/// The estimator as mathematical values.
pub struct EstimatorView {
    pub samples: Seq<(Instant, u64)>,
    pub window: Duration,
    pub smoothed_rtt_us: u64,
}

/// Estimates throughput over a rolling window.
pub struct BandwidthEstimator {
    samples: VecDeque<(Instant, u64)>,
    window: Duration,
    total_bytes: u64,
    smoothed_rtt_us: u64,
}

impl View for BandwidthEstimator {
    type V = EstimatorView;

    closed spec fn view(&self) -> EstimatorView {
        EstimatorView {
            samples: self.samples@,
            window: self.window,
            smoothed_rtt_us: self.smoothed_rtt_us,
        }
    }
}

impl Default for BandwidthEstimator {
    fn default() -> (r: BandwidthEstimator)
        ensures
            r.well_formed(),
            r@.samples == Seq::<(Instant, u64)>::empty(),
            duration_nanos(r@.window) == 1_000_000_000,
            r@.smoothed_rtt_us == 0,
    {
        BandwidthEstimator::new()
    }
}

impl BandwidthEstimator {
    /// The running total is the sum of the bytes of the samples in the
    /// window. Every estimator that the constructors make is well-formed
    /// and stays so.
    pub closed spec fn well_formed(&self) -> bool {
        self.total_bytes == total_of(self.samples@)
    }

    /// An estimator with a window of one second.
    pub fn new() -> (r: BandwidthEstimator)
        ensures
            r.well_formed(),
            r@.samples == Seq::<(Instant, u64)>::empty(),
            duration_nanos(r@.window) == 1_000_000_000,
            r@.smoothed_rtt_us == 0,
    {
        BandwidthEstimator::with_window(Duration::from_secs(1))
    }

    /// An estimator with the given window.
    pub fn with_window(window: Duration) -> (r: BandwidthEstimator)
        ensures
            r.well_formed(),
            r@ == (EstimatorView {
                samples: Seq::<(Instant, u64)>::empty(),
                window,
                smoothed_rtt_us: 0,
            }),
    {
        BandwidthEstimator {
            samples: VecDeque::with_capacity(256),
            window,
            total_bytes: 0,
            smoothed_rtt_us: 0,
        }
    }

    /// The bytes of the samples in the window.
    pub fn total_bytes(&self) -> (r: u64)
        requires
            self.well_formed(),
        ensures
            r == total_of(self@.samples),
    {
        self.total_bytes
    }

    /// Records `bytes` sent at the clock's reading.
    pub fn record(&mut self, bytes: u64)
        requires
            old(self).well_formed(),
            total_of(old(self)@.samples) + bytes <= u64::MAX,
        ensures
            final(self).well_formed(),
            exists|now: Instant|
                final(self)@ == (EstimatorView {
                    samples: #[trigger] evicted(
                        old(self)@.samples.push((now, bytes)),
                        now,
                        old(self)@.window,
                    ),
                    ..old(self)@
                }),
    {
        let now = Instant::now();
        self.record_at(now, bytes);
    }

    /// Records `bytes` sent at `when`, then evicts: samples leave from
    /// the front while the front one is older than the window at `when`.
    pub fn record_at(&mut self, when: Instant, bytes: u64)
        requires
            old(self).well_formed(),
            total_of(old(self)@.samples) + bytes <= u64::MAX,
        ensures
            final(self).well_formed(),
            final(self)@ == (EstimatorView {
                samples: evicted(old(self)@.samples.push((when, bytes)), when, old(self)@.window),
                ..old(self)@
            }),
    {
        let ghost before = self.samples@;
        self.samples.push_back((when, bytes));
        self.total_bytes = self.total_bytes + bytes;
        proof {
            lemma_bytes_in_prefix(before, before.push((when, bytes)), before.len());
        }
        self.evict(when);
    }

    /// Takes a round-trip time into the smoothed value: the first sample
    /// sets it, each later one moves it by an eighth of the way.
    pub fn record_rtt(&mut self, rtt: Duration)
        ensures
            final(self).well_formed() == old(self).well_formed(),
            final(self)@ == (EstimatorView {
                smoothed_rtt_us: smoothed(
                    old(self)@.smoothed_rtt_us as nat,
                    (duration_nanos(rtt) / 1000) % 0x1_0000_0000_0000_0000,
                ) as u64,
                ..old(self)@
            }),
            smoothed(
                old(self)@.smoothed_rtt_us as nat,
                (duration_nanos(rtt) / 1000) % 0x1_0000_0000_0000_0000,
            ) <= u64::MAX,
    {
        let micros = rtt.as_micros();
        let rtt_us = (micros % 0x1_0000_0000_0000_0000u128) as u64;
        if self.smoothed_rtt_us == 0 {
            self.smoothed_rtt_us = rtt_us;
        } else {
            let kept = (self.smoothed_rtt_us as u128 * 7 / 8) as u64;
            self.smoothed_rtt_us = kept + rtt_us / 8;
        }
    }

    /// The estimated throughput in bytes per second: the bytes in the
    /// window over the time from the first to the last sample, or over a
    /// millisecond when they coincide; zero without samples.
    pub fn estimate_bps(&self) -> (r: u64)
        requires
            self.well_formed(),
        ensures
            self@.samples.len() == 0 ==> r == 0,
            self@.samples.len() > 0 ==> r == rate(
                total_of(self@.samples),
                estimate_span(self@.samples),
            ),
    {
        let n = self.samples.len();
        if n == 0 {
            return 0;
        }
        let first = self.samples[0].0;
        let last = self.samples[n - 1].0;
        let d = last.duration_since(first).as_nanos();
        let nanos: u128 = if d == 0 {
            1_000_000
        } else {
            d
        };
        let scaled = self.total_bytes as u128 * 1_000_000_000;
        let bps = scaled / nanos;
        if bps > u64::MAX as u128 {
            u64::MAX
        } else {
            bps as u64
        }
    }

    /// The smoothed round-trip time; zero before the first sample.
    pub fn latency(&self) -> (r: Duration)
        ensures
            duration_nanos(r) == self@.smoothed_rtt_us * 1000,
    {
        Duration::from_micros(self.smoothed_rtt_us)
    }

    /// The number of samples in the window.
    pub fn sample_count(&self) -> (r: usize)
        ensures
            r == self@.samples.len(),
    {
        self.samples.len()
    }

    /// Drops samples from the front while the front one is older than the
    /// window at `now`.
    fn evict(&mut self, now: Instant)
        requires
            old(self).well_formed(),
        ensures
            final(self).well_formed(),
            final(self)@ == (EstimatorView {
                samples: evicted(old(self)@.samples, now, old(self)@.window),
                ..old(self)@
            }),
    {
        while self.samples.len() > 0
            invariant
                self.well_formed(),
                self.window == old(self).window,
                self.smoothed_rtt_us == old(self).smoothed_rtt_us,
                evicted(self.samples@, now, self.window) == evicted(
                    old(self).samples@,
                    now,
                    old(self).window,
                ),
            decreases self.samples@.len(),
        {
            let (ts, bytes) = self.samples[0];
            let age = now.duration_since(ts);
            if age.as_nanos() > self.window.as_nanos() {
                let ghost before = self.samples@;
                self.samples.pop_front();
                proof {
                    lemma_bytes_in_skip(before, before.len());
                    assert(self.samples@ =~= before.skip(1));
                }
                self.total_bytes = self.total_bytes - bytes;
            } else {
                return ;
            }
        }
    }
}

/// With constant ingress the estimate is within a tenth of it: for 11 or
/// more samples of `b` bytes each that came `dt` nanoseconds apart, the
/// rate over their span is no more than 110% of `b` bytes in `dt`
/// nanoseconds, and less than one byte per second below it.
pub proof fn lemma_constant_ingress(k: nat, b: nat, dt: nat)
    requires
        k >= 11,
        dt > 0,
        (k * b * 1_000_000_000) as int / ((k - 1) * dt) <= u64::MAX,
    ensures
        10 * rate(k * b, ((k - 1) * dt) as nat) * dt <= 11 * b * 1_000_000_000,
        (rate(k * b, ((k - 1) * dt) as nat) + 1) * dt > b * 1_000_000_000,
{
    let n: int = (k * b * 1_000_000_000) as int;
    let d: int = (k - 1) * dt;
    assert(d > 0) by (nonlinear_arith)
        requires
            d == (k - 1) * dt,
            k >= 11,
            dt > 0,
    ;
    vstd::arithmetic::div_mod::lemma_fundamental_div_mod(n, d);
    let q = n / d;
    assert(rate(k * b, d as nat) == q);
    assert(0 <= n % d < d);
    assert(q * d <= n < (q + 1) * d) by (nonlinear_arith)
        requires
            n == d * q + (n % d),
            0 <= n % d < d,
    ;
    assert(10 * q * dt <= 11 * b * 1_000_000_000) by (nonlinear_arith)
        requires
            q * d <= n,
            d == (k - 1) * dt,
            n == k * b * 1_000_000_000,
            k >= 11,
            dt > 0,
            q >= 0,
            b >= 0,
    ;
    assert((q + 1) * dt > b * 1_000_000_000) by (nonlinear_arith)
        requires
            n < (q + 1) * d,
            d == (k - 1) * dt,
            n == k * b * 1_000_000_000,
            k >= 11,
            dt > 0,
            q >= 0,
            b >= 0,
    ;
}

/// The sum over a prefix does not depend on what follows the prefix.
proof fn lemma_bytes_in_prefix(a: Seq<(Instant, u64)>, b: Seq<(Instant, u64)>, n: nat)
    requires
        n <= a.len(),
        n <= b.len(),
        forall|i: int| 0 <= i < n ==> a[i] == b[i],
    ensures
        bytes_in(a, n) == bytes_in(b, n),
    decreases n,
{
    if n > 0 {
        lemma_bytes_in_prefix(a, b, (n - 1) as nat);
    }
}

/// Dropping the first sample takes its bytes off the sum.
proof fn lemma_bytes_in_skip(s: Seq<(Instant, u64)>, n: nat)
    requires
        1 <= n <= s.len(),
    ensures
        bytes_in(s, n) == s[0].1 + bytes_in(s.skip(1), (n - 1) as nat),
    decreases n,
{
    if n > 1 {
        lemma_bytes_in_skip(s, (n - 1) as nat);
        assert(s.skip(1)[n - 2] == s[n - 1]);
        assert(bytes_in(s.skip(1), (n - 1) as nat) == bytes_in(s.skip(1), (n - 2) as nat)
            + s.skip(1)[n - 2].1 as nat);
    } else {
        assert(bytes_in(s, 1) == bytes_in(s, 0) + s[0].1 as nat);
        assert(bytes_in(s.skip(1), 0) == 0);
    }
}

/// Whether the instants of `times` come `dt` nanoseconds one after the
/// other: the time from any of them to a later one is its number of
/// steps times `dt`.
pub open spec fn paced(times: Seq<Instant>, dt: nat) -> bool {
    forall|i: int, j: int|
        0 <= i <= j < times.len() ==> duration_nanos(#[trigger] instant_gap(times[j], times[i]))
            == (j - i) * dt
}

/// The samples of an estimator with this window after `b` bytes were
/// recorded at each of the first `n` instants of `times`, in their
/// order, starting without samples.
pub open spec fn recorded(times: Seq<Instant>, b: u64, window: Duration, n: nat) -> Seq<
    (Instant, u64),
>
    decreases n,
{
    if n == 0 {
        Seq::empty()
    } else {
        evicted(
            recorded(times, b, window, (n - 1) as nat).push((times[n - 1], b)),
            times[n - 1],
            window,
        )
    }
}

/// The samples of `b` bytes at the instants from `from` up to `to`.
pub open spec fn run_of(times: Seq<Instant>, b: u64, from: int, to: int) -> Seq<(Instant, u64)> {
    Seq::new((to - from) as nat, |i: int| (times[from + i], b))
}

/// The first of `n` paced instants that is not older than `w`
/// nanoseconds at the last of them.
pub open spec fn first_kept(n: nat, dt: nat, w: nat) -> int {
    if n == 0 || (n - 1) * dt <= w {
        0
    } else {
        n - 1 - (w / dt) as int
    }
}

proof fn lemma_first_kept(n: nat, dt: nat, w: nat)
    requires
        dt > 0,
        n > 0,
    ensures
        0 <= first_kept(n, dt, w) <= n - 1,
        (n - 1 - first_kept(n, dt, w)) * dt <= w,
        first_kept(n, dt, w) > 0 ==> (n - first_kept(n, dt, w)) * dt > w,
        first_kept((n - 1) as nat, dt, w) <= first_kept(n, dt, w),
{
    let q = (w / dt) as int;
    vstd::arithmetic::div_mod::lemma_fundamental_div_mod(w as int, dt as int);
    assert(q * dt <= w < (q + 1) * dt) by (nonlinear_arith)
        requires
            w == dt * q + (w % dt),
            0 <= w % dt < dt,
    ;
    assert(q >= 0) by (nonlinear_arith)
        requires
            w < (q + 1) * dt,
            dt > 0,
            w >= 0,
    ;
    if (n - 1) * dt > w {
        assert(n - 1 > q) by (nonlinear_arith)
            requires
                (n - 1) * dt > w,
                q * dt <= w,
                w < (q + 1) * dt,
                dt > 0,
        ;
    }
    if n >= 2 && (n - 2) * dt > w {
        assert((n - 1) * dt > w) by (nonlinear_arith)
            requires
                (n - 2) * dt > w,
                dt > 0,
        ;
    }
}

/// Eviction at the last of the instants of a run drops the samples
/// before the first that is kept.
proof fn lemma_evict_run(times: Seq<Instant>, b: u64, dt: nat, window: Duration, lo: int, n: nat)
    requires
        dt > 0,
        paced(times, dt),
        0 < n <= times.len(),
        0 <= lo <= first_kept(n, dt, duration_nanos(window)),
    ensures
        evicted(run_of(times, b, lo, n as int), times[n - 1], window) == run_of(
            times,
            b,
            first_kept(n, dt, duration_nanos(window)),
            n as int,
        ),
    decreases first_kept(n, dt, duration_nanos(window)) - lo,
{
    let w = duration_nanos(window);
    let m = first_kept(n, dt, w);
    lemma_first_kept(n, dt, w);
    let run = run_of(times, b, lo, n as int);
    assert(run.len() > 0);
    assert(run[0].0 == times[lo]);
    assert(duration_nanos(instant_gap(times[n - 1], times[lo])) == (n - 1 - lo) * dt);
    if lo < m {
        assert((n - 1 - lo) * dt > w) by (nonlinear_arith)
            requires
                (n - m) * dt > w,
                lo < m,
                dt > 0,
        ;
        assert(run.skip(1) =~= run_of(times, b, lo + 1, n as int));
        lemma_evict_run(times, b, dt, window, lo + 1, n);
    } else {
        assert(!outdated(run[0].0, times[n - 1], window));
    }
}

/// After `b` bytes were recorded at each of `n` paced instants, the
/// samples are those from the first that is kept on.
proof fn lemma_recorded(times: Seq<Instant>, b: u64, dt: nat, window: Duration, n: nat)
    requires
        dt > 0,
        paced(times, dt),
        n <= times.len(),
    ensures
        recorded(times, b, window, n) == run_of(
            times,
            b,
            first_kept(n, dt, duration_nanos(window)),
            n as int,
        ),
    decreases n,
{
    let w = duration_nanos(window);
    if n == 0 {
        assert(recorded(times, b, window, 0) =~= run_of(times, b, 0, 0));
    } else {
        lemma_recorded(times, b, dt, window, (n - 1) as nat);
        lemma_first_kept(n, dt, w);
        let lo = first_kept((n - 1) as nat, dt, w);
        if n > 1 {
            lemma_first_kept((n - 1) as nat, dt, w);
        }
        assert(run_of(times, b, lo, n - 1).push((times[n - 1], b)) =~= run_of(
            times,
            b,
            lo,
            n as int,
        ));
        lemma_evict_run(times, b, dt, window, lo, n);
    }
}

proof fn lemma_bytes_of_run(times: Seq<Instant>, b: u64, from: int, to: int, k: nat)
    requires
        0 <= from <= to,
        k <= to - from,
    ensures
        bytes_in(run_of(times, b, from, to), k) == k * b,
    decreases k,
{
    if k > 0 {
        lemma_bytes_of_run(times, b, from, to, (k - 1) as nat);
        assert(k * b == (k - 1) * b + b) by (nonlinear_arith);
    } else {
        assert(0 * b == 0) by (nonlinear_arith);
    }
}

/// With constant ingress over a window or longer the estimate comes to
/// the ingress within a tenth. Let `b` bytes be recorded at instants that
/// come `dt` nanoseconds one after the other, 20 or more of them in a
/// window, from an estimator without samples until the window has gone
/// by. Then the samples older than the window are gone: those of the
/// last `window / dt` steps stay. The estimate over them is no more than
/// 110% of `b` bytes in `dt` nanoseconds and less than one byte per
/// second below it, which for 100 bytes per second or more is no less
/// than 90%.
pub proof fn lemma_paced_ingress_is_estimated(
    times: Seq<Instant>,
    b: u64,
    dt: nat,
    window: Duration,
)
    requires
        dt > 0,
        20 * dt <= duration_nanos(window),
        times.len() > 0,
        (times.len() - 1) * dt >= duration_nanos(window),
        paced(times, dt),
        ((duration_nanos(window) / dt + 1) * b * 1_000_000_000) as int / ((duration_nanos(window)
            / dt) * dt) as int <= u64::MAX,
    ensures
        ({
            let steps = duration_nanos(window) / dt;
            let samples = recorded(times, b, window, times.len());
            let estimate = rate(total_of(samples), estimate_span(samples));
            &&& samples == run_of(times, b, times.len() - 1 - steps, times.len() as int)
            &&& samples.len() == steps + 1
            &&& total_of(samples) == (steps + 1) * b
            &&& estimate_span(samples) == steps * dt
            &&& 10 * estimate * dt <= 11 * b * 1_000_000_000
            &&& (estimate + 1) * dt > b * 1_000_000_000
            &&& b * 1_000_000_000 >= 100 * dt ==> 10 * estimate * dt >= 9 * b * 1_000_000_000
        }),
{
    let w = duration_nanos(window);
    let n = times.len();
    let q = w / dt;
    vstd::arithmetic::div_mod::lemma_fundamental_div_mod(w as int, dt as int);
    assert(q * dt <= w < (q + 1) * dt) by (nonlinear_arith)
        requires
            w == dt * q + (w % dt),
            0 <= w % dt < dt,
    ;
    assert(q >= 20) by (nonlinear_arith)
        requires
            20 * dt <= w,
            w < (q + 1) * dt,
            dt > 0,
    ;
    assert(n - 1 >= q) by (nonlinear_arith)
        requires
            (n - 1) * dt >= w,
            q * dt <= w,
            w < (q + 1) * dt,
            dt > 0,
    ;
    lemma_recorded(times, b, dt, window, n);
    lemma_first_kept(n, dt, w);
    let m = first_kept(n, dt, w);
    assert(m == n - 1 - q) by {
        if (n - 1) * dt <= w {
            assert(n - 1 == q) by (nonlinear_arith)
                requires
                    (n - 1) * dt >= w,
                    (n - 1) * dt <= w,
                    q * dt <= w,
                    w < (q + 1) * dt,
                    dt > 0,
            ;
        }
    }
    let samples = recorded(times, b, window, n);
    assert(samples.len() == q + 1);
    lemma_bytes_of_run(times, b, m, n as int, (q + 1) as nat);
    assert(samples.first().0 == times[m]);
    assert(samples.last().0 == times[n - 1]);
    assert(duration_nanos(instant_gap(times[n - 1], times[m])) == (n - 1 - m) * dt);
    assert(q * dt > 0) by (nonlinear_arith)
        requires
            q >= 20,
            dt > 0,
    ;
    assert(estimate_span(samples) == q * dt);
    lemma_constant_ingress((q + 1) as nat, b as nat, dt);
    let estimate = rate(total_of(samples), estimate_span(samples));
    if b * 1_000_000_000 >= 100 * dt {
        assert(10 * estimate * dt >= 9 * b * 1_000_000_000) by (nonlinear_arith)
            requires
                (estimate + 1) * dt > b * 1_000_000_000,
                b * 1_000_000_000 >= 100 * dt,
                dt > 0,
                estimate >= 0,
        ;
    }
}

} // verus!
