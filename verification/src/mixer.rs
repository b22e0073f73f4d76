//! PCM s16le sample statistics and the peak limiter.

use vstd::prelude::*;

verus! {

pub const DEFAULT_LIMITER_CEILING: i16 = 30_000;

#[derive(Debug, Default, Clone, Copy, PartialEq, Eq, Structural)]
pub struct AudioStats {
    pub samples: usize,
    pub clipped_samples: usize,
    pub peak_abs: i16,
}

#[derive(Debug, Default, Clone, Copy, PartialEq, Eq, Structural)]
pub struct LimitStats {
    pub samples: usize,
    pub limited_samples: usize,
    pub peak_before: i16,
    pub peak_after: i16,
}

/// The signed sample stored little-endian in `lo`, `hi`.
pub open spec fn sample_of(lo: u8, hi: u8) -> int {
    let u = hi * 256 + lo;
    if u >= 32768 { u - 65536 } else { u }
}

/// The `i`-th sample of a PCM buffer.
pub open spec fn sample_at(pcm: Seq<u8>, i: int) -> int {
    sample_of(pcm[2 * i], pcm[2 * i + 1])
}

/// The number of whole samples in a PCM buffer (a trailing odd byte is
/// ignored).
pub open spec fn sample_count(pcm: Seq<u8>) -> nat {
    pcm.len() / 2
}

pub open spec fn abs_int(x: int) -> int {
    if x < 0 { -x } else { x }
}

/// A sample's magnitude as an `i16`: the most negative sample counts as
/// the most positive one.
pub open spec fn sample_abs(x: int) -> int {
    if x == -32768 { 32767 } else { abs_int(x) }
}

/// The low and high byte of a sample.
pub open spec fn lo_byte(x: int) -> u8 {
    (((if x < 0 { x + 65536 } else { x }) as nat) % 256) as u8
}

pub open spec fn hi_byte(x: int) -> u8 {
    ((if x < 0 { x + 65536 } else { x }) as nat / 256) as u8
}

/// How many of the first `n` samples reach `threshold` in magnitude.
pub open spec fn count_reaching(pcm: Seq<u8>, threshold: int, n: int) -> nat
    decreases n,
{
    if n <= 0 {
        0
    } else {
        count_reaching(pcm, threshold, n - 1) + if abs_int(sample_at(pcm, n - 1)) >= threshold { 1nat } else { 0 }
    }
}

/// The greatest sample magnitude among the first `n` samples (0 for none).
pub open spec fn peak_of(pcm: Seq<u8>, n: int) -> int
    decreases n,
{
    if n <= 0 {
        0
    } else {
        let p = peak_of(pcm, n - 1);
        let a = sample_abs(sample_at(pcm, n - 1));
        if a > p { a } else { p }
    }
}

/// The limiter ceiling for a requested ceiling: its magnitude, at most
/// 32767.
pub open spec fn limiter_ceiling(ceiling: i16) -> int {
    let a = abs_int(ceiling as int);
    if a > 32767 { 32767 } else { a }
}

/// A sample clamped into `[-c, c]`.
pub open spec fn limit_sample(x: int, c: int) -> int {
    if x < -c { -c } else if x > c { c } else { x }
}

/// How many of the first `n` samples the limiter changes.
pub open spec fn count_limited(pcm: Seq<u8>, c: int, n: int) -> nat
    decreases n,
{
    if n <= 0 {
        0
    } else {
        count_limited(pcm, c, n - 1) + if limit_sample(sample_at(pcm, n - 1), c) != sample_at(pcm, n - 1) { 1nat } else { 0 }
    }
}

/// The greatest magnitude among the first `n` limited samples.
pub open spec fn peak_limited(pcm: Seq<u8>, c: int, n: int) -> int
    decreases n,
{
    if n <= 0 {
        0
    } else {
        let p = peak_limited(pcm, c, n - 1);
        let a = sample_abs(limit_sample(sample_at(pcm, n - 1), c));
        if a > p { a } else { p }
    }
}

fn decode(lo: u8, hi: u8) -> (x: i16)
    ensures
        x as int == sample_of(lo, hi),
{
    let u = hi as i32 * 256 + lo as i32;
    if u >= 32768 { (u - 65536) as i16 } else { u as i16 }
}

fn push_sample(out: &mut Vec<u8>, x: i16)
    ensures
        final(out)@ == old(out)@.push(lo_byte(x as int)).push(hi_byte(x as int)),
{
    let u: i32 = if x < 0 { x as i32 + 65536 } else { x as i32 };
    out.push((u % 256) as u8);
    out.push((u / 256) as u8);
}

/// A sample's magnitude as an `i16` (`i16::MIN` maps to `i16::MAX`).
pub fn sample_abs_i16(sample: i16) -> (r: i16)
    ensures
        r as int == sample_abs(sample as int),
{
    if sample == i16::MIN { i16::MAX } else if sample < 0 { -sample } else { sample }
}

proof fn lemma_peak_bounds(pcm: Seq<u8>, n: int)
    requires
        0 <= n <= sample_count(pcm),
    ensures
        0 <= peak_of(pcm, n) <= 32767,
        count_reaching(pcm, 0, n) <= n,
    decreases n,
{
    if n > 0 {
        lemma_peak_bounds(pcm, n - 1);
    }
}

/// Counts the samples whose magnitude reaches `threshold`'s magnitude.
pub fn count_clipped_samples(pcm: &[u8], threshold: i16) -> (n: usize)
    ensures
        n == count_reaching(pcm@, abs_int(threshold as int), sample_count(pcm@) as int),
{
    analyze_pcm_s16le(pcm, threshold).clipped_samples
}

/// Sample count, peak magnitude, and how many samples reach the
/// threshold's magnitude.
pub fn analyze_pcm_s16le(pcm: &[u8], threshold: i16) -> (stats: AudioStats)
    ensures
        stats.samples == sample_count(pcm@),
        stats.clipped_samples == count_reaching(pcm@, abs_int(threshold as int), sample_count(pcm@) as int),
        stats.peak_abs as int == peak_of(pcm@, sample_count(pcm@) as int),
{
    let thr: i32 = if threshold < 0 { -(threshold as i32) } else { threshold as i32 };
    let plen = pcm.len();
    let k = plen / 2;
    let mut samples: usize = 0;
    let mut clipped: usize = 0;
    let mut peak: i16 = 0;
    while samples < k
        invariant
            k == sample_count(pcm@),
            plen == pcm@.len(),
            k == plen / 2,
            samples <= k,
            thr == abs_int(threshold as int),
            clipped == count_reaching(pcm@, thr as int, samples as int),
            clipped <= samples,
            peak as int == peak_of(pcm@, samples as int),
        decreases k - samples,
    {
        let x = decode(pcm[2 * samples], pcm[2 * samples + 1]);
        let a = sample_abs_i16(x);
        if a > peak {
            peak = a;
        }
        let ax: i32 = if x < 0 { -(x as i32) } else { x as i32 };
        if ax >= thr {
            clipped = clipped + 1;
        }
        samples = samples + 1;
    }
    AudioStats { samples, clipped_samples: clipped, peak_abs: peak }
}

/// Clamps every sample into `[-c, c]`, `c` being the ceiling's magnitude
/// (at most 32767), and reports what it did. A trailing odd byte is
/// dropped.
pub fn limit_pcm_s16le(pcm: &[u8], ceiling: i16) -> (r: (Vec<u8>, LimitStats))
    ensures
        ({
            let (out, stats) = r;
            let k = sample_count(pcm@) as int;
            let c = limiter_ceiling(ceiling);
            &&& out@.len() == 2 * k
            &&& forall|i: int| 0 <= i < k ==> {
                &&& #[trigger] out@[2 * i] == lo_byte(limit_sample(sample_at(pcm@, i), c))
                &&& out@[2 * i + 1] == hi_byte(limit_sample(sample_at(pcm@, i), c))
            }
            &&& stats.samples == k
            &&& stats.limited_samples == count_limited(pcm@, c, k)
            &&& stats.peak_before as int == peak_of(pcm@, k)
            &&& stats.peak_after as int == peak_limited(pcm@, c, k)
        }),
{
    let a: i32 = if ceiling < 0 { -(ceiling as i32) } else { ceiling as i32 };
    let c: i16 = if a > 32767 { 32767 } else { a as i16 };
    let plen = pcm.len();
    let k = plen / 2;
    let mut out: Vec<u8> = Vec::new();
    let mut samples: usize = 0;
    let mut limited: usize = 0;
    let mut peak_before: i16 = 0;
    let mut peak_after: i16 = 0;
    while samples < k
        invariant
            k == sample_count(pcm@),
            plen == pcm@.len(),
            k == plen / 2,
            samples <= k,
            c as int == limiter_ceiling(ceiling),
            0 <= c,
            out@.len() == 2 * samples,
            forall|i: int| 0 <= i < samples ==> {
                &&& #[trigger] out@[2 * i] == lo_byte(limit_sample(sample_at(pcm@, i), c as int))
                &&& out@[2 * i + 1] == hi_byte(limit_sample(sample_at(pcm@, i), c as int))
            },
            limited == count_limited(pcm@, c as int, samples as int),
            limited <= samples,
            peak_before as int == peak_of(pcm@, samples as int),
            peak_after as int == peak_limited(pcm@, c as int, samples as int),
        decreases k - samples,
    {
        let x = decode(pcm[2 * samples], pcm[2 * samples + 1]);
        let lim: i16 = if x < -c { -c } else if x > c { c } else { x };
        let pb = sample_abs_i16(x);
        if pb > peak_before {
            peak_before = pb;
        }
        let pa = sample_abs_i16(lim);
        if pa > peak_after {
            peak_after = pa;
        }
        if lim != x {
            limited = limited + 1;
        }
        let ghost before = out@;
        push_sample(&mut out, lim);
        proof {
            assert forall|i: int| 0 <= i < samples + 1 implies {
                &&& #[trigger] out@[2 * i] == lo_byte(limit_sample(sample_at(pcm@, i), c as int))
                &&& out@[2 * i + 1] == hi_byte(limit_sample(sample_at(pcm@, i), c as int))
            } by {
                if i < samples {
                    assert(out@[2 * i] == before[2 * i]);
                    assert(out@[2 * i + 1] == before[2 * i + 1]);
                }
            }
        }
        samples = samples + 1;
    }
    (out, LimitStats { samples, limited_samples: limited, peak_before, peak_after })
}

/// The limiter never leaves a sample beyond its ceiling and never changes
/// a sample already within it.
pub proof fn lemma_limit_bounds(x: int, ceiling: i16)
    ensures
        ({
            let c = limiter_ceiling(ceiling);
            &&& abs_int(limit_sample(x, c)) <= c
            &&& (abs_int(x) <= c ==> limit_sample(x, c) == x)
        }),
{
}

} // verus!
