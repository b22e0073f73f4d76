//! Per-stream delay buffers: which queued video and audio is due for FFmpeg,
//! what is too stale to send, and the 20 ms audio ticks.

use std::collections::VecDeque;
use vstd::prelude::*;

verus! {

/// Audio: 20 ms per tick.
pub const AUDIO_TICK_MS: u64 = 20;
/// Audio: 1764 bytes = 44.1 kHz x 20 ms x s16le mono.
pub const AUDIO_BYTES_PER_TICK: usize = 1764;
pub const DEFAULT_VIDEO_MAX_LAG_MS: u64 = 3_000;
pub const MAX_VIDEO_MAX_LAG_MS: u64 = 5_000;
pub const DEFAULT_AUDIO_MAX_LAG_MS: u64 = 3_000;
pub const MAX_AUDIO_MAX_LAG_MS: u64 = 5_000;
/// Ready host audio may hold this many ticks before the oldest is shed.
pub const DEFAULT_AUDIO_MAX_READY_TICKS: usize = 150;
/// Audio drain never waits longer than this on a full FIFO.
pub const AUDIO_FIFO_WRITE_BUDGET_MS: u64 = 18;

/// A queued chunk: its capture time in milliseconds and its bytes.
pub type TimedChunk = (u64, Vec<u8>);

/// The tick sample taken from ready host audio: its first tick, padded with
/// silence to a full tick.
pub open spec fn tick_sample(ready: Seq<u8>) -> Seq<u8> {
    let take = if ready.len() < AUDIO_BYTES_PER_TICK { ready.len() } else { AUDIO_BYTES_PER_TICK as nat };
    ready.subrange(0, take as int) + Seq::new((AUDIO_BYTES_PER_TICK - take) as nat, |i: int| 0u8)
}

/// The ready host audio left after one tick is taken.
pub open spec fn after_tick(ready: Seq<u8>) -> Seq<u8> {
    if ready.len() < AUDIO_BYTES_PER_TICK { Seq::empty() } else { ready.subrange(AUDIO_BYTES_PER_TICK as int, ready.len() as int) }
}

/// Takes one tick of ready host audio, padding with silence.
pub fn take_tick_sample(ready_host: &mut Vec<u8>) -> (chunk: Vec<u8>)
    ensures
        chunk@ == tick_sample(old(ready_host)@),
        final(ready_host)@ == after_tick(old(ready_host)@),
{
    let take = if ready_host.len() < AUDIO_BYTES_PER_TICK { ready_host.len() } else { AUDIO_BYTES_PER_TICK };
    let mut chunk: Vec<u8> = Vec::new();
    let mut i: usize = 0;
    while i < take
        invariant
            i <= take <= ready_host@.len(),
            take <= AUDIO_BYTES_PER_TICK,
            chunk@ == ready_host@.subrange(0, i as int),
        decreases take - i,
    {
        chunk.push(ready_host[i]);
        i = i + 1;
    }
    let mut rest: Vec<u8> = Vec::new();
    let mut j: usize = take;
    while j < ready_host.len()
        invariant
            take <= j <= ready_host@.len(),
            rest@ == ready_host@.subrange(take as int, j as int),
        decreases ready_host@.len() - j,
    {
        rest.push(ready_host[j]);
        j = j + 1;
    }
    let ghost prefix = chunk@;
    while chunk.len() < AUDIO_BYTES_PER_TICK
        invariant
            prefix.len() <= chunk@.len() <= AUDIO_BYTES_PER_TICK,
            chunk@.subrange(0, prefix.len() as int) == prefix,
            forall|k: int| prefix.len() <= k < chunk@.len() ==> chunk@[k] == 0u8,
        decreases AUDIO_BYTES_PER_TICK - chunk@.len(),
    {
        chunk.push(0u8);
    }
    *ready_host = rest;
    assert(chunk@ =~= tick_sample(old(ready_host)@));
    assert(ready_host@ =~= after_tick(old(ready_host)@));
    chunk
}

/// The most ready host audio kept for `max_ready_ticks` (at least one tick).
pub open spec fn max_ready_bytes(max_ready_ticks: usize) -> nat {
    AUDIO_BYTES_PER_TICK as nat * (if max_ready_ticks == 0 { 1 } else { max_ready_ticks as nat })
}

/// Sheds the oldest ready host audio beyond the live budget; returns how
/// many bytes were shed.
pub fn cap_ready_audio_to_live(ready_host: &mut Vec<u8>, max_ready_ticks: usize) -> (dropped: usize)
    requires
        max_ready_bytes(max_ready_ticks) <= usize::MAX,
    ensures
        old(ready_host)@.len() > max_ready_bytes(max_ready_ticks) ==> {
            &&& dropped == old(ready_host)@.len() - max_ready_bytes(max_ready_ticks)
            &&& final(ready_host)@ == old(ready_host)@.subrange(dropped as int, old(ready_host)@.len() as int)
        },
        old(ready_host)@.len() <= max_ready_bytes(max_ready_ticks) ==> {
            &&& dropped == 0
            &&& final(ready_host)@ == old(ready_host)@
        },
{
    let ticks = if max_ready_ticks == 0 { 1 } else { max_ready_ticks };
    let max_bytes = AUDIO_BYTES_PER_TICK * ticks;
    if ready_host.len() > max_bytes {
        let keep_from = ready_host.len() - max_bytes;
        let mut rest: Vec<u8> = Vec::new();
        let mut j: usize = keep_from;
        while j < ready_host.len()
            invariant
                keep_from <= j <= ready_host@.len(),
                rest@ == ready_host@.subrange(keep_from as int, j as int),
            decreases ready_host@.len() - j,
        {
            rest.push(ready_host[j]);
            j = j + 1;
        }
        *ready_host = rest;
        keep_from
    } else {
        0
    }
}

/// Puts host audio that could not be written back at the front of the
/// ready buffer, then sheds what exceeds the live budget.
pub fn requeue_host_audio_after_backpressure(
    ready_host: &mut Vec<u8>,
    host_requeue: Vec<u8>,
    max_ready_ticks: usize,
) -> (dropped: usize)
    requires
        max_ready_bytes(max_ready_ticks) <= usize::MAX,
        host_requeue@.len() + old(ready_host)@.len() <= usize::MAX,
    ensures
        ({
            let joined = host_requeue@ + old(ready_host)@;
            &&& joined.len() > max_ready_bytes(max_ready_ticks) ==> {
                &&& dropped == joined.len() - max_ready_bytes(max_ready_ticks)
                &&& final(ready_host)@ == joined.subrange(dropped as int, joined.len() as int)
            }
            &&& joined.len() <= max_ready_bytes(max_ready_ticks) ==> {
                &&& dropped == 0
                &&& final(ready_host)@ == joined
            }
        }),
{
    let mut joined = host_requeue;
    let mut i: usize = 0;
    let ghost front = joined@;
    while i < ready_host.len()
        invariant
            i <= ready_host@.len(),
            joined@ == front + ready_host@.subrange(0, i as int),
        decreases ready_host@.len() - i,
    {
        joined.push(ready_host[i]);
        i = i + 1;
    }
    assert(ready_host@.subrange(0, ready_host@.len() as int) =~= ready_host@);
    *ready_host = joined;
    cap_ready_audio_to_live(ready_host, max_ready_ticks)
}

/// The number of ready-audio ticks that fit in a lag window (at least one).
pub fn audio_max_ready_ticks(max_lag_ms: u64) -> (ticks: usize)
    ensures
        ticks == if max_lag_ms / AUDIO_TICK_MS == 0 { 1 } else { #[verifier::truncate] ((max_lag_ms / AUDIO_TICK_MS) as usize) },
{
    let t = max_lag_ms / AUDIO_TICK_MS;
    if t == 0 { 1 } else { #[verifier::truncate] (t as usize) }
}

/// A lag setting clamped to `[250, max]`, falling back to the default when
/// unset.
pub fn max_lag_from_setting(setting_ms: Option<u64>, default_ms: u64, max_ms: u64) -> (ms: u64)
    requires
        250 <= max_ms,
    ensures
        ({
            let v = match setting_ms { Some(x) => x, None => default_ms };
            ms == if v < 250 { 250 } else if v > max_ms { max_ms } else { v }
        }),
{
    let v = match setting_ms { Some(x) => x, None => default_ms };
    if v < 250 { 250 } else if v > max_ms { max_ms } else { v }
}

/// Whether an Annex-B H.264 packet holds an IDR slice, scanning start codes
/// from position `i` on: after each 3- or 4-byte start code the NAL header
/// byte is checked for type 5, and the scan resumes after that byte.
pub open spec fn idr_from(p: Seq<u8>, i: nat) -> bool
    decreases p.len() + 1 - i,
{
    if i + 3 >= p.len() {
        false
    } else {
        let start_len: nat = if p[i as int] == 0 && p[i + 1 as int] == 0 && p[i + 2 as int] == 1 {
            3
        } else if p[i as int] == 0 && p[i + 1 as int] == 0 && p[i + 2 as int] == 0 && p[i + 3 as int] == 1 {
            4
        } else {
            0
        };
        if start_len == 0 {
            idr_from(p, i + 1)
        } else {
            let nal = i + start_len;
            if nal < p.len() && p[nal as int] % 32 == 5 {
                true
            } else {
                idr_from(p, nal + 1)
            }
        }
    }
}

pub open spec fn is_idr_packet(p: Seq<u8>) -> bool {
    idr_from(p, 0)
}

/// The scan from a position depends only on the bytes from there on.
proof fn lemma_idr_from_shift(a: Seq<u8>, b: Seq<u8>, k: nat)
    ensures
        idr_from(a + b, a.len() + k) == idr_from(b, k),
    decreases b.len() + 1 - k,
{
    let p = a + b;
    let i: int = (a.len() + k) as int;
    let ki: int = k as int;
    if k + 3 < b.len() {
        assert(p[i] == b[ki]);
        assert(p[i + 1] == b[ki + 1]);
        assert(p[i + 2] == b[ki + 2]);
        assert(p[i + 3] == b[ki + 3]);
        if k + 4 < b.len() {
            assert(p[i + 4] == b[ki + 4]);
        }
        lemma_idr_from_shift(a, b, k + 1);
        lemma_idr_from_shift(a, b, k + 4);
        lemma_idr_from_shift(a, b, k + 5);
        assert(a.len() + (k + 4) == i + 3 + 1);
        assert(a.len() + (k + 5) == i + 4 + 1);
    }
}

/// A scan passes over bytes that are not zero: no start code begins there.
proof fn lemma_idr_from_skip_nonzero(p: Seq<u8>, i: nat, m: nat)
    requires
        i + m <= p.len(),
        forall|j: int| i <= j < i + m ==> p[j] != 0,
    ensures
        idr_from(p, i) == idr_from(p, i + m),
    decreases m,
{
    if m > 0 {
        assert(p[i as int] != 0);
        assert(idr_from(p, i) == idr_from(p, i + 1));
        lemma_idr_from_skip_nonzero(p, i + 1, (m - 1) as nat);
    }
}

/// A keyframe is found wherever it sits: a packet that opens with a 3- or
/// 4-byte start code, a NAL header byte `h` and a payload `x` free of zero
/// bytes, followed by more NAL units `b`, holds an IDR slice exactly when
/// `h` is of type 5 or `b` holds one. So SPS and PPS units before the IDR
/// slice of an access unit never hide it.
pub proof fn lemma_idr_after_nal_unit(sc: Seq<u8>, h: u8, x: Seq<u8>, b: Seq<u8>)
    requires
        sc == seq![0u8, 0u8, 1u8] || sc == seq![0u8, 0u8, 0u8, 1u8],
        forall|j: int| 0 <= j < x.len() ==> x[j] != 0,
    ensures
        is_idr_packet(sc + seq![h] + x + b) == (h % 32 == 5 || is_idr_packet(b)),
{
    let a = sc + seq![h] + x;
    let p = a + b;
    let n = sc.len();
    assert(p[0] == 0u8 && p[1] == 0u8);
    assert(p[2] == sc[2]);
    assert(p[n as int] == h);
    if n == 4 {
        assert(p[3] == 1u8);
    }
    assert(idr_from(p, 0) == (h % 32 == 5 || idr_from(p, n + 1)));
    assert forall|j: int| n + 1 <= j < n + 1 + x.len() implies p[j] != 0 by {
        assert(p[j] == x[j - n - 1]);
    }
    lemma_idr_from_skip_nonzero(p, n + 1, x.len());
    lemma_idr_from_shift(a, b, 0);
    assert(a.len() + 0 == n + 1 + x.len());
}

/// Whether an Annex-B H.264 packet holds an IDR slice (a keyframe).
pub fn h264_annexb_contains_idr(packet: &[u8]) -> (b: bool)
    ensures
        b == is_idr_packet(packet@),
{
    let n = packet.len();
    let mut i: usize = 0;
    while i < n && n - i > 3
        invariant
            n == packet@.len(),
            i <= n + 1,
            is_idr_packet(packet@) == idr_from(packet@, i as nat),
        decreases n + 1 - i,
    {
        let start_len: usize = if packet[i] == 0 && packet[i + 1] == 0 && packet[i + 2] == 1 {
            3
        } else if packet[i] == 0 && packet[i + 1] == 0 && packet[i + 2] == 0 && packet[i + 3] == 1 {
            4
        } else {
            0
        };
        if start_len == 0 {
            i = i + 1;
        } else {
            let nal_idx = i + start_len;
            if nal_idx < n && packet[nal_idx] % 32 == 5 {
                return true;
            }
            proof {
                assert(idr_from(packet@, i as nat) == idr_from(packet@, (nal_idx + 1) as nat));
                assert(!idr_from(packet@, (n + 1) as nat));
                assert(!idr_from(packet@, n as nat));
            }
            i = if nal_idx < n { nal_idx + 1 } else { n };
        }
    }
    false
}

/// Where the live window starts: `max_lag` before now (now itself when that
/// would fall before the clock's origin).
pub open spec fn live_cutoff(now: u64, max_lag: u64) -> int {
    if now >= max_lag { now - max_lag } else { now as int }
}

/// How many chunks at the front are older than the live window; the last
/// chunk always stays.
pub open spec fn stale_count(b: Seq<TimedChunk>, delay: u64, cutoff: int) -> nat
    decreases b.len(),
{
    if b.len() > 1 && b[0].0 + delay < cutoff { 1 + stale_count(b.drop_first(), delay, cutoff) } else { 0 }
}

/// How many due non-keyframe chunks at the front are skipped while waiting
/// for a keyframe; the last chunk always stays.
pub open spec fn keyframe_wait_count(b: Seq<TimedChunk>, delay: u64, now: u64) -> nat
    decreases b.len(),
{
    if b.len() > 1 && b[0].0 + delay <= now && !is_idr_packet(b[0].1@) {
        1 + keyframe_wait_count(b.drop_first(), delay, now)
    } else {
        0
    }
}

/// The chunk handed to FFmpeg, with the counts of chunks dropped as stale
/// and while waiting for a keyframe.
pub struct VideoDrainNext {
    pub chunk: Vec<u8>,
    pub dropped_stale: usize,
    pub dropped_for_keyframe: usize,
}

/// The buffer after the stale and keyframe-wait drops.
pub open spec fn video_after_drops(b: Seq<TimedChunk>, now: u64, delay: u64, max_lag: u64, need: bool) -> Seq<TimedChunk> {
    let s = stale_count(b, delay, live_cutoff(now, max_lag));
    let b1 = b.skip(s as int);
    let k = if need || s > 0 { keyframe_wait_count(b1, delay, now) } else { 0 };
    b1.skip(k as int)
}

/// Whether a keyframe is needed after the drops.
pub open spec fn video_need_after_drops(b: Seq<TimedChunk>, now: u64, delay: u64, max_lag: u64, need: bool) -> bool {
    need || stale_count(b, delay, live_cutoff(now, max_lag)) > 0
}

fn due(ts: u64, delay: u64, limit: u64) -> (b: bool)
    ensures
        b == (ts + delay <= limit),
{
    (ts as u128) + (delay as u128) <= limit as u128
}

fn before(ts: u64, delay: u64, cutoff: u64) -> (b: bool)
    ensures
        b == (ts + delay < cutoff),
{
    (ts as u128) + (delay as u128) < cutoff as u128
}

/// Pops up to the stale chunks; returns how many.
fn drop_stale(buf: &mut VecDeque<TimedChunk>, delay: u64, cutoff: u64) -> (n: usize)
    ensures
        n == stale_count(old(buf)@, delay, cutoff as int),
        final(buf)@ == old(buf)@.skip(n as int),
{
    let mut n: usize = 0;
    let l0 = buf.len();
    while buf.len() > 1 && before(buf[0].0, delay, cutoff)
        invariant
            n <= old(buf)@.len(),
            old(buf)@.len() == l0,
            buf@ == old(buf)@.skip(n as int),
            stale_count(old(buf)@, delay, cutoff as int) == n + stale_count(buf@, delay, cutoff as int),
        decreases buf@.len(),
    {
        let ghost pre = buf@;
        buf.pop_front();
        proof {
            assert(buf@ =~= pre.drop_first());
            assert(buf@ =~= old(buf)@.skip(n + 1));
        }
        n = n + 1;
    }
    n
}

/// Pops the due non-keyframe chunks at the front; returns how many.
fn drop_until_keyframe(buf: &mut VecDeque<TimedChunk>, delay: u64, now: u64) -> (n: usize)
    ensures
        n == keyframe_wait_count(old(buf)@, delay, now),
        final(buf)@ == old(buf)@.skip(n as int),
{
    let mut n: usize = 0;
    let l0 = buf.len();
    while buf.len() > 1 && due(buf[0].0, delay, now) && !h264_annexb_contains_idr(buf[0].1.as_slice())
        invariant
            n <= old(buf)@.len(),
            old(buf)@.len() == l0,
            buf@ == old(buf)@.skip(n as int),
            keyframe_wait_count(old(buf)@, delay, now) == n + keyframe_wait_count(buf@, delay, now),
        decreases buf@.len(),
    {
        let ghost pre = buf@;
        buf.pop_front();
        proof {
            assert(buf@ =~= pre.drop_first());
            assert(buf@ =~= old(buf)@.skip(n + 1));
        }
        n = n + 1;
    }
    n
}

/// Takes the next due video chunk for a live stream. Chunks older than the
/// live window are dropped; after such a drop (or while a keyframe is
/// awaited) due chunks before the next keyframe are skipped too. The front
/// chunk is emitted once due; while a keyframe is awaited a due
/// non-keyframe front chunk is discarded and nothing is emitted.
pub fn drain_next_h264_live(
    buf: &mut VecDeque<TimedChunk>,
    now_ms: u64,
    delay_ms: u64,
    max_lag_ms: u64,
    need_keyframe: &mut bool,
) -> (r: Option<VideoDrainNext>)
    ensures
        ({
            let b = video_after_drops(old(buf)@, now_ms, delay_ms, max_lag_ms, *old(need_keyframe));
            let need = video_need_after_drops(old(buf)@, now_ms, delay_ms, max_lag_ms, *old(need_keyframe));
            let s = stale_count(old(buf)@, delay_ms, live_cutoff(now_ms, max_lag_ms));
            let k = if need { keyframe_wait_count(old(buf)@.skip(s as int), delay_ms, now_ms) } else { 0 };
            if b.len() == 0 || b[0].0 + delay_ms > now_ms {
                &&& r is None
                &&& final(buf)@ == b
                &&& *final(need_keyframe) == need
            } else if need && !is_idr_packet(b[0].1@) {
                &&& r is None
                &&& final(buf)@ == b.drop_first()
                &&& *final(need_keyframe)
            } else {
                &&& r matches Some(next) && next.chunk@ == b[0].1@ && next.dropped_stale == s
                    && next.dropped_for_keyframe == k
                &&& final(buf)@ == b.drop_first()
                &&& !*final(need_keyframe)
            }
        }),
{
    let cutoff = if now_ms >= max_lag_ms { now_ms - max_lag_ms } else { now_ms };
    let dropped_stale = drop_stale(buf, delay_ms, cutoff);
    let mut dropped_for_keyframe: usize = 0;
    if dropped_stale > 0 {
        *need_keyframe = true;
    }
    if *need_keyframe {
        dropped_for_keyframe = drop_until_keyframe(buf, delay_ms, now_ms);
    }
    if buf.len() == 0 {
        return None;
    }
    if !due(buf[0].0, delay_ms, now_ms) {
        return None;
    }
    let front = buf.pop_front();
    match front {
        Some((_, packet)) => {
            if *need_keyframe {
                if !h264_annexb_contains_idr(packet.as_slice()) {
                    return None;
                }
                *need_keyframe = false;
            }
            Some(VideoDrainNext { chunk: packet, dropped_stale, dropped_for_keyframe })
        },
        None => None,
    }
}

/// The bytes of the first `n` chunks, concatenated.
pub open spec fn chunk_bytes(b: Seq<TimedChunk>, n: nat) -> Seq<u8>
    decreases n,
{
    if n == 0 || b.len() == 0 {
        Seq::empty()
    } else {
        let m = if n <= b.len() { n } else { b.len() };
        chunk_bytes(b, (m - 1) as nat) + b[m - 1].1@
    }
}

/// How many chunks at the front are due.
pub open spec fn due_count(b: Seq<TimedChunk>, delay: u64, now: u64) -> nat
    decreases b.len(),
{
    if b.len() > 0 && b[0].0 + delay <= now { 1 + due_count(b.drop_first(), delay, now) } else { 0 }
}

proof fn lemma_chunk_bytes_step(b: Seq<TimedChunk>, n: nat)
    requires
        n < b.len(),
    ensures
        chunk_bytes(b, n + 1) == chunk_bytes(b, n) + b[n as int].1@,
{
}

proof fn lemma_due_count_bound(b: Seq<TimedChunk>, delay: u64, now: u64)
    ensures
        due_count(b, delay, now) <= b.len(),
    decreases b.len(),
{
    if b.len() > 0 && b[0].0 + delay <= now {
        lemma_due_count_bound(b.drop_first(), delay, now);
    }
}

/// Moves due host-audio chunks into the ready buffer, first dropping chunks
/// older than the live window; returns how many were dropped.
pub fn drain_aged_host_audio(
    host_buf: &mut VecDeque<TimedChunk>,
    ready_host: &mut Vec<u8>,
    now_ms: u64,
    delay_ms: u64,
    max_lag_ms: u64,
) -> (dropped: usize)
    ensures
        ({
            let s = stale_count(old(host_buf)@, delay_ms, live_cutoff(now_ms, max_lag_ms));
            let b1 = old(host_buf)@.skip(s as int);
            let a = due_count(b1, delay_ms, now_ms);
            &&& dropped == s
            &&& final(host_buf)@ == b1.skip(a as int)
            &&& final(ready_host)@ == old(ready_host)@ + chunk_bytes(b1, a)
        }),
{
    let cutoff = if now_ms >= max_lag_ms { now_ms - max_lag_ms } else { now_ms };
    let dropped = drop_stale(host_buf, delay_ms, cutoff);
    let ghost b1 = host_buf@;
    let l1 = host_buf.len();
    let mut taken: usize = 0;
    proof {
        lemma_due_count_bound(b1, delay_ms, now_ms);
    }
    while host_buf.len() > 0 && due(host_buf[0].0, delay_ms, now_ms)
        invariant
            taken <= b1.len(),
            b1.len() == l1,
            host_buf@ == b1.skip(taken as int),
            due_count(b1, delay_ms, now_ms) == taken + due_count(host_buf@, delay_ms, now_ms),
            ready_host@ == old(ready_host)@ + chunk_bytes(b1, taken as nat),
        decreases host_buf@.len(),
    {
        let ghost pre = host_buf@;
        let front = host_buf.pop_front();
        match front {
            Some((_, pcm)) => {
                let ghost before_ready = ready_host@;
                let mut i: usize = 0;
                while i < pcm.len()
                    invariant
                        i <= pcm@.len(),
                        ready_host@ == before_ready + pcm@.subrange(0, i as int),
                    decreases pcm@.len() - i,
                {
                    ready_host.push(pcm[i]);
                    i = i + 1;
                }
                proof {
                    assert(pcm@.subrange(0, pcm@.len() as int) =~= pcm@);
                    assert(pre[0] == b1[taken as int]);
                    lemma_chunk_bytes_step(b1, taken as nat);
                    assert(ready_host@ =~= old(ready_host)@ + chunk_bytes(b1, (taken + 1) as nat));
                }
            },
            None => {},
        }
        proof {
            assert(host_buf@ =~= pre.drop_first());
            assert(host_buf@ =~= b1.skip(taken + 1));
        }
        taken = taken + 1;
    }
    dropped
}

/// The TTS audio one tick mixes in, without taking it off the queue: the
/// queue's first tick, padded with silence, and how many real bytes that
/// is (they are committed only once the tick is written).
pub fn peek_tts_tick(tts_queue: &VecDeque<u8>) -> (r: (Vec<u8>, usize))
    ensures
        r.0@ == tick_sample(tts_queue@),
        r.1 == if tts_queue@.len() < AUDIO_BYTES_PER_TICK { tts_queue@.len() } else { AUDIO_BYTES_PER_TICK as nat },
{
    let n = if tts_queue.len() < AUDIO_BYTES_PER_TICK { tts_queue.len() } else { AUDIO_BYTES_PER_TICK };
    let mut chunk: Vec<u8> = Vec::new();
    let mut i: usize = 0;
    while i < n
        invariant
            i <= n <= tts_queue@.len(),
            n <= AUDIO_BYTES_PER_TICK,
            chunk@ == tts_queue@.subrange(0, i as int),
        decreases n - i,
    {
        chunk.push(tts_queue[i]);
        i = i + 1;
    }
    let ghost prefix = chunk@;
    while chunk.len() < AUDIO_BYTES_PER_TICK
        invariant
            prefix.len() <= chunk@.len() <= AUDIO_BYTES_PER_TICK,
            chunk@.subrange(0, prefix.len() as int) == prefix,
            forall|k: int| prefix.len() <= k < chunk@.len() ==> chunk@[k] == 0u8,
        decreases AUDIO_BYTES_PER_TICK - chunk@.len(),
    {
        chunk.push(0u8);
    }
    assert(chunk@ =~= tick_sample(tts_queue@));
    (chunk, n)
}

/// Drops the first `bytes` bytes of the TTS queue once they were written
/// (all of them when fewer are queued).
pub fn commit_tts_drain(tts_queue: &mut VecDeque<u8>, bytes: usize)
    ensures
        final(tts_queue)@ == if bytes >= old(tts_queue)@.len() {
            Seq::<u8>::empty()
        } else {
            old(tts_queue)@.subrange(bytes as int, old(tts_queue)@.len() as int)
        },
{
    let mut n: usize = 0;
    while n < bytes && tts_queue.len() > 0
        invariant
            n <= bytes,
            n <= old(tts_queue)@.len(),
            tts_queue@ == old(tts_queue)@.subrange(n as int, old(tts_queue)@.len() as int),
        decreases bytes - n,
    {
        tts_queue.pop_front();
        n = n + 1;
    }
}

/// Taking a tick never loses or reorders audio: the sample's real bytes and
/// what is left together are the ready buffer, and the sample is exactly
/// one tick long.
pub proof fn lemma_tick_sample_partition(ready: Seq<u8>)
    ensures
        tick_sample(ready).len() == AUDIO_BYTES_PER_TICK,
        ({
            let take = if ready.len() < AUDIO_BYTES_PER_TICK { ready.len() } else { AUDIO_BYTES_PER_TICK as nat };
            tick_sample(ready).subrange(0, take as int) + after_tick(ready) == ready
        }),
{
    let take = if ready.len() < AUDIO_BYTES_PER_TICK { ready.len() } else { AUDIO_BYTES_PER_TICK as nat };
    assert(tick_sample(ready).subrange(0, take as int) + after_tick(ready) =~= ready);
}

/// Host audio is delayed, never altered: a chunk alone in a stream's host
/// buffer, once its delay has passed, is not shed as stale, moves whole to
/// the ready audio, and (from empty ready audio, when it fits one tick) the
/// next tick starts with exactly its bytes.
pub proof fn lemma_delayed_audio_comes_out(c: TimedChunk, delay: u64, now: u64, max_lag: u64)
    requires
        c.0 + delay <= now,
        c.1@.len() <= AUDIO_BYTES_PER_TICK,
    ensures
        stale_count(seq![c], delay, live_cutoff(now, max_lag)) == 0,
        due_count(seq![c], delay, now) == 1,
        seq![c].skip(0).skip(1).len() == 0,
        chunk_bytes(seq![c], 1) == c.1@,
        tick_sample(Seq::<u8>::empty() + chunk_bytes(seq![c], 1)).subrange(0, c.1@.len() as int) == c.1@,
{
    let b = seq![c];
    assert(b.drop_first().len() == 0);
    assert(due_count(b.drop_first(), delay, now) == 0);
    assert(chunk_bytes(b, 0) == Seq::<u8>::empty());
    assert(chunk_bytes(b, 1) =~= c.1@);
    assert(Seq::<u8>::empty() + c.1@ =~= c.1@);
    assert(tick_sample(c.1@).subrange(0, c.1@.len() as int) =~= c.1@);
}

} // verus!
