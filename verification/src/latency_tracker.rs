//! Rolling-average latency tracker: keeps the last N samples and averages
//! them.

use vstd::prelude::*;

verus! {

pub const DEFAULT_WINDOW_SIZE: usize = 20;

pub struct LatencyTracker {
    samples: Vec<u64>,
    window_size: usize,
}

/// The sum of a sequence of samples.
pub open spec fn sum_of(s: Seq<u64>) -> nat
    decreases s.len(),
{
    if s.len() == 0 {
        0
    } else {
        sum_of(s.drop_last()) + (s.last() as nat)
    }
}

/// The window after recording `x`: the oldest sample leaves once the window
/// is full; a window of zero keeps no sample.
pub open spec fn window_after_record(s: Seq<u64>, window: usize, x: u64) -> Seq<u64> {
    if window == 0 {
        Seq::empty()
    } else if s.len() >= window {
        s.drop_first().push(x)
    } else {
        s.push(x)
    }
}

/// The integer average of the samples, 0 when there are none.
pub open spec fn average_of(s: Seq<u64>) -> nat {
    if s.len() == 0 {
        0
    } else {
        sum_of(s) / s.len()
    }
}

proof fn lemma_sum_bound(s: Seq<u64>)
    ensures
        sum_of(s) <= s.len() * (u64::MAX as nat),
    decreases s.len(),
{
    if s.len() > 0 {
        lemma_sum_bound(s.drop_last());
        assert(sum_of(s.drop_last()) + s.last() <= (s.len() - 1) * (u64::MAX as nat) + (u64::MAX as nat)) by (nonlinear_arith)
            requires
                sum_of(s.drop_last()) <= (s.len() - 1) * (u64::MAX as nat),
                s.last() <= u64::MAX;
        assert((s.len() - 1) * (u64::MAX as nat) + (u64::MAX as nat) == s.len() * (u64::MAX as nat)) by (nonlinear_arith);
    }
}

impl LatencyTracker {
    /// The samples kept, oldest first.
    pub closed spec fn samples(&self) -> Seq<u64> {
        self.samples@
    }

    pub closed spec fn window(&self) -> usize {
        self.window_size
    }

    /// The invariant every tracker keeps: at most one window of samples.
    pub closed spec fn wf(&self) -> bool {
        self.samples@.len() <= self.window_size
    }

    pub fn new() -> (t: Self)
        ensures
            t.wf(),
            t.samples() == Seq::<u64>::empty(),
            t.window() == DEFAULT_WINDOW_SIZE,
    {
        Self::with_window(DEFAULT_WINDOW_SIZE)
    }

    pub fn with_window(window_size: usize) -> (t: Self)
        ensures
            t.wf(),
            t.samples() == Seq::<u64>::empty(),
            t.window() == window_size,
    {
        Self { samples: Vec::new(), window_size }
    }

    /// Record a latency sample in milliseconds.
    pub fn record(&mut self, latency_ms: u64)
        requires
            old(self).wf(),
        ensures
            final(self).wf(),
            final(self).window() == old(self).window(),
            final(self).samples() == window_after_record(old(self).samples(), old(self).window(), latency_ms),
    {
        if self.window_size == 0 {
            return;
        }
        if self.samples.len() >= self.window_size {
            self.samples.remove(0);
        }
        self.samples.push(latency_ms);
        proof {
            assert(self.samples@ =~= window_after_record(old(self).samples(), old(self).window(), latency_ms));
        }
    }

    /// The rolling average of the recorded samples. Returns 0 if there are
    /// none.
    pub fn rolling_average_ms(&self) -> (avg: u64)
        requires
            self.wf(),
        ensures
            avg == average_of(self.samples()),
    {
        let n = self.samples.len();
        if n == 0 {
            return 0;
        }
        let mut sum: u128 = 0;
        let mut i: usize = 0;
        while i < n
            invariant
                n == self.samples@.len(),
                i <= n,
                sum == sum_of(self.samples@.subrange(0, i as int)),
                sum <= i * (u64::MAX as nat),
                n <= usize::MAX,
            decreases n - i,
        {
            proof {
                assert(self.samples@.subrange(0, i + 1).drop_last() =~= self.samples@.subrange(0, i as int));
                assert(sum + self.samples@[i as int] <= (i + 1) * (u64::MAX as nat)) by (nonlinear_arith)
                    requires
                        sum <= i * (u64::MAX as nat),
                        self.samples@[i as int] <= u64::MAX;
                assert((i + 1) * (u64::MAX as nat) <= (usize::MAX as nat) * (u64::MAX as nat)) by (nonlinear_arith)
                    requires i < n, n <= usize::MAX;
                assert((usize::MAX as nat) * (u64::MAX as nat) < u128::MAX) by (nonlinear_arith)
                    requires usize::MAX <= u64::MAX;
            }
            sum = sum + self.samples[i] as u128;
            i = i + 1;
        }
        proof {
            assert(self.samples@.subrange(0, n as int) =~= self.samples@);
            lemma_sum_bound(self.samples@);
            assert(sum_of(self.samples@) / (n as nat) <= u64::MAX) by (nonlinear_arith)
                requires
                    sum_of(self.samples@) <= n * (u64::MAX as nat),
                    n > 0;
        }
        (sum / (n as u128)) as u64
    }

    /// Number of samples currently stored.
    pub fn sample_count(&self) -> (n: usize)
        ensures
            n == self.samples().len(),
    {
        self.samples.len()
    }

    /// The window size.
    pub fn window_size(&self) -> (w: usize)
        ensures
            w == self.window(),
    {
        self.window_size
    }
}

impl Default for LatencyTracker {
    fn default() -> (t: Self)
        ensures
            t.wf(),
            t.samples() == Seq::<u64>::empty(),
            t.window() == DEFAULT_WINDOW_SIZE,
    {
        Self::new()
    }
}

/// The samples a tracker with window `window` keeps after recording `xs`
/// in order, starting empty.
pub open spec fn samples_after_records(xs: Seq<u64>, window: usize) -> Seq<u64>
    decreases xs.len(),
{
    if xs.len() == 0 {
        Seq::empty()
    } else {
        window_after_record(samples_after_records(xs.drop_last(), window), window, xs.last())
    }
}

/// How many samples a tracker keeps after `n` records: the window's worth
/// once that many were recorded, all of them before.
pub open spec fn kept_count(n: nat, window: usize) -> nat {
    if n < window { n } else { window as nat }
}

/// A tracker keeps exactly the most recent samples: after recording
/// `xs` from empty it holds the last `kept_count(xs.len(), window)` of
/// them, oldest first (the oldest is evicted first), and its rolling
/// average is their integer mean.
pub proof fn lemma_keeps_last_samples(xs: Seq<u64>, window: usize)
    ensures
        samples_after_records(xs, window) == xs.subrange(xs.len() - kept_count(xs.len(), window), xs.len() as int),
        average_of(samples_after_records(xs, window)) == average_of(
            xs.subrange(xs.len() - kept_count(xs.len(), window), xs.len() as int),
        ),
    decreases xs.len(),
{
    if xs.len() == 0 {
        assert(xs.subrange(0, 0) =~= Seq::<u64>::empty());
    } else {
        let d = xs.drop_last();
        lemma_keeps_last_samples(d, window);
        let p = samples_after_records(d, window);
        let n = xs.len();
        let kd = kept_count(d.len(), window);
        assert(p.len() == kd);
        if window == 0 {
            assert(xs.subrange(n - kept_count(n, window), n as int) =~= Seq::<u64>::empty());
        } else if p.len() >= window {
            assert(p.drop_first().push(xs.last()) =~= xs.subrange(n - kept_count(n, window), n as int));
        } else {
            assert(p.push(xs.last()) =~= xs.subrange(n - kept_count(n, window), n as int));
        }
    }
}

/// Recording never leaves more samples than the window holds, and once the
/// window is full every record keeps the count unchanged.
pub proof fn lemma_window_bounded(s: Seq<u64>, window: usize, x: u64)
    requires
        s.len() <= window,
        window > 0,
    ensures
        window_after_record(s, window, x).len() <= window,
        s.len() == window ==> window_after_record(s, window, x).len() == window,
        window_after_record(s, window, x).last() == x,
{
}

} // verus!
