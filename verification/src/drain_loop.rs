//! The state the video and audio drain loops of a stream carry from one
//! step to the next, and what each step does to it. The loops themselves
//! (the clock, the pipe and FIFO writes, the mix) run around these steps.

use std::collections::VecDeque;
use vstd::prelude::*;

use crate::drain::{
    after_tick, cap_ready_audio_to_live, chunk_bytes, commit_tts_drain, drain_aged_host_audio, due_count,
    live_cutoff, max_ready_bytes, stale_count,
    requeue_host_audio_after_backpressure, take_tick_sample, tick_sample, TimedChunk, VideoDrainNext,
    AUDIO_BYTES_PER_TICK,
};

verus! {

/// `a + b`, held at `u64::MAX`.
pub open spec fn sat_add(a: u64, b: int) -> u64 {
    if a + b > u64::MAX { u64::MAX } else { (a + b) as u64 }
}

fn add_sat(a: u64, b: u64) -> (r: u64)
    ensures
        r == sat_add(a, b as int),
{
    if a > u64::MAX - b { u64::MAX } else { a + b }
}

/// The video drain's state: whether it waits for a keyframe, and its
/// counters.
pub struct VideoDrainState {
    pub need_keyframe: bool,
    pub chunk_count: u64,
    pub stale_chunks_dropped: u64,
    pub keyframe_wait_chunks_dropped: u64,
}

impl VideoDrainState {
    /// A drain that starts by waiting for a keyframe.
    pub fn new() -> (s: Self)
        ensures
            s.need_keyframe,
            s.chunk_count == 0,
            s.stale_chunks_dropped == 0,
            s.keyframe_wait_chunks_dropped == 0,
    {
        VideoDrainState { need_keyframe: true, chunk_count: 0, stale_chunks_dropped: 0, keyframe_wait_chunks_dropped: 0 }
    }

    /// Counts the chunks one drain step dropped.
    pub fn record_drops(&mut self, next: &VideoDrainNext)
        ensures
            final(self).stale_chunks_dropped == sat_add(old(self).stale_chunks_dropped, next.dropped_stale as int),
            final(self).keyframe_wait_chunks_dropped
                == sat_add(old(self).keyframe_wait_chunks_dropped, next.dropped_for_keyframe as int),
            final(self).need_keyframe == old(self).need_keyframe,
            final(self).chunk_count == old(self).chunk_count,
    {
        self.stale_chunks_dropped = add_sat(self.stale_chunks_dropped, next.dropped_stale as u64);
        self.keyframe_wait_chunks_dropped = add_sat(self.keyframe_wait_chunks_dropped, next.dropped_for_keyframe as u64);
    }

    /// Counts a chunk written to FFmpeg.
    pub fn record_write(&mut self)
        ensures
            final(self).chunk_count == sat_add(old(self).chunk_count, 1),
            final(self).need_keyframe == old(self).need_keyframe,
            final(self).stale_chunks_dropped == old(self).stale_chunks_dropped,
            final(self).keyframe_wait_chunks_dropped == old(self).keyframe_wait_chunks_dropped,
    {
        self.chunk_count = add_sat(self.chunk_count, 1);
    }
}

/// How a FIFO write of one tick ended.
pub enum FifoWrite {
    Written { would_blocks: u64 },
    Backpressured { would_blocks: u64 },
    Stopped,
    Failed,
}

/// The audio drain's state: the host audio due but not yet written, the
/// ready-buffer budget, and its counters.
pub struct AudioDrainState {
    pub ready_host: Vec<u8>,
    pub max_ready_ticks: usize,
    pub tick_count: u64,
    pub fifo_would_blocks: u64,
    pub fifo_skipped_ticks: u64,
    pub host_stale_chunks_dropped: u64,
    pub ready_host_bytes_dropped: u64,
}

/// One tick's host audio: the full tick sample (padded with silence) and
/// its real bytes, which go back to the ready buffer if the tick cannot be
/// written.
pub struct AudioTick {
    pub host_chunk: Vec<u8>,
    pub host_requeue: Vec<u8>,
    pub host_dropped: usize,
    pub ready_dropped: usize,
}

/// The newest `m` bytes of `r` (all of it when it is no longer).
pub open spec fn keep_newest(r: Seq<u8>, m: nat) -> Seq<u8> {
    if r.len() > m { r.subrange(r.len() - m, r.len() as int) } else { r }
}

impl AudioDrainState {
    /// The ready buffer stays within its budget, which is far from the
    /// address-space limit.
    pub open spec fn wf(&self) -> bool {
        &&& max_ready_bytes(self.max_ready_ticks) + AUDIO_BYTES_PER_TICK <= usize::MAX
        &&& self.ready_host@.len() <= max_ready_bytes(self.max_ready_ticks)
    }

    pub fn new(max_ready_ticks: usize) -> (s: Self)
        requires
            max_ready_bytes(max_ready_ticks) + AUDIO_BYTES_PER_TICK <= usize::MAX,
        ensures
            s.wf(),
            s.ready_host@.len() == 0,
            s.max_ready_ticks == max_ready_ticks,
            s.tick_count == 0,
            s.fifo_would_blocks == 0,
            s.fifo_skipped_ticks == 0,
            s.host_stale_chunks_dropped == 0,
            s.ready_host_bytes_dropped == 0,
    {
        AudioDrainState {
            ready_host: Vec::new(),
            max_ready_ticks,
            tick_count: 0,
            fifo_would_blocks: 0,
            fifo_skipped_ticks: 0,
            host_stale_chunks_dropped: 0,
            ready_host_bytes_dropped: 0,
        }
    }

    /// Starts a tick: moves due host audio into the ready buffer (dropping
    /// stale chunks), sheds ready audio beyond the budget, and takes the
    /// tick's sample.
    pub fn begin_tick(&mut self, host_buf: &mut VecDeque<TimedChunk>, now_ms: u64, delay_ms: u64, max_lag_ms: u64) -> (t: AudioTick)
        requires
            old(self).wf(),
        ensures
            final(self).wf(),
            final(self).max_ready_ticks == old(self).max_ready_ticks,
            final(self).tick_count == sat_add(old(self).tick_count, 1),
            final(self).host_stale_chunks_dropped == sat_add(old(self).host_stale_chunks_dropped, t.host_dropped as int),
            final(self).ready_host_bytes_dropped == sat_add(old(self).ready_host_bytes_dropped, t.ready_dropped as int),
            final(self).fifo_would_blocks == old(self).fifo_would_blocks,
            final(self).fifo_skipped_ticks == old(self).fifo_skipped_ticks,
            t.host_chunk@.len() == AUDIO_BYTES_PER_TICK,
            t.host_requeue@.len() <= AUDIO_BYTES_PER_TICK,
            t.host_chunk@.subrange(0, t.host_requeue@.len() as int) == t.host_requeue@,
            t.host_requeue@.len() < AUDIO_BYTES_PER_TICK ==> final(self).ready_host@.len() == 0,
            ({
                let s = stale_count(old(host_buf)@, delay_ms, live_cutoff(now_ms, max_lag_ms));
                let b1 = old(host_buf)@.skip(s as int);
                let a = due_count(b1, delay_ms, now_ms);
                let r = old(self).ready_host@ + chunk_bytes(b1, a);
                let c = keep_newest(r, max_ready_bytes(old(self).max_ready_ticks));
                &&& final(host_buf)@ == b1.skip(a as int)
                &&& t.host_dropped == s
                &&& t.ready_dropped == r.len() - c.len()
                &&& t.host_chunk@ == tick_sample(c)
                &&& final(self).ready_host@ == after_tick(c)
                &&& t.host_requeue@ == c.subrange(
                    0,
                    if c.len() < AUDIO_BYTES_PER_TICK { c.len() as int } else { AUDIO_BYTES_PER_TICK as int },
                )
            }),
    {
        self.tick_count = add_sat(self.tick_count, 1);
        let host_dropped = drain_aged_host_audio(host_buf, &mut self.ready_host, now_ms, delay_ms, max_lag_ms);
        self.host_stale_chunks_dropped = add_sat(self.host_stale_chunks_dropped, host_dropped as u64);
        let ready_dropped = cap_ready_audio_to_live(&mut self.ready_host, self.max_ready_ticks);
        self.ready_host_bytes_dropped = add_sat(self.ready_host_bytes_dropped, ready_dropped as u64);
        let host_real_bytes = if self.ready_host.len() < AUDIO_BYTES_PER_TICK { self.ready_host.len() } else { AUDIO_BYTES_PER_TICK };
        let ghost ready_before = self.ready_host@;
        let host_chunk = take_tick_sample(&mut self.ready_host);
        let mut host_requeue: Vec<u8> = Vec::new();
        let mut i: usize = 0;
        while i < host_real_bytes
            invariant
                i <= host_real_bytes <= AUDIO_BYTES_PER_TICK,
                host_chunk@.len() == AUDIO_BYTES_PER_TICK,
                host_requeue@ == host_chunk@.subrange(0, i as int),
            decreases host_real_bytes - i,
        {
            host_requeue.push(host_chunk[i]);
            i = i + 1;
        }
        proof {
            assert(host_chunk@.subrange(0, host_real_bytes as int) =~= ready_before.subrange(0, host_real_bytes as int));
        }
        AudioTick { host_chunk, host_requeue, host_dropped, ready_dropped }
    }

    /// Ends a tick after the FIFO write: a written tick commits the TTS
    /// bytes it mixed in; a tick skipped under backpressure puts its host
    /// audio back at the front of the ready buffer (shedding beyond the
    /// budget). Returns whether the drain goes on: it stops when asked to
    /// or when the write failed.
    pub fn end_tick(
        &mut self,
        outcome: FifoWrite,
        host_requeue: Vec<u8>,
        tts_queue: &mut VecDeque<u8>,
        tts_bytes_consumed: usize,
    ) -> (go_on: bool)
        requires
            old(self).wf(),
            host_requeue@.len() <= AUDIO_BYTES_PER_TICK,
        ensures
            final(self).wf(),
            final(self).max_ready_ticks == old(self).max_ready_ticks,
            final(self).tick_count == old(self).tick_count,
            final(self).host_stale_chunks_dropped == old(self).host_stale_chunks_dropped,
            match outcome {
                FifoWrite::Written { would_blocks } => {
                    &&& go_on
                    &&& final(self).fifo_would_blocks == sat_add(old(self).fifo_would_blocks, would_blocks as int)
                    &&& final(self).fifo_skipped_ticks == old(self).fifo_skipped_ticks
                    &&& final(self).ready_host@ == old(self).ready_host@
                    &&& final(tts_queue)@ == if tts_bytes_consumed >= old(tts_queue)@.len() {
                        Seq::<u8>::empty()
                    } else {
                        old(tts_queue)@.subrange(tts_bytes_consumed as int, old(tts_queue)@.len() as int)
                    }
                },
                FifoWrite::Backpressured { would_blocks } => {
                    let joined = host_requeue@ + old(self).ready_host@;
                    let cap = max_ready_bytes(old(self).max_ready_ticks);
                    &&& go_on
                    &&& final(self).fifo_would_blocks == sat_add(old(self).fifo_would_blocks, would_blocks as int)
                    &&& final(self).fifo_skipped_ticks == sat_add(old(self).fifo_skipped_ticks, 1)
                    &&& final(self).ready_host@ == if joined.len() > cap {
                        joined.subrange(joined.len() - cap, joined.len() as int)
                    } else {
                        joined
                    }
                    &&& final(self).ready_host_bytes_dropped == sat_add(
                        old(self).ready_host_bytes_dropped,
                        if joined.len() > cap { joined.len() - cap } else { 0 },
                    )
                    &&& final(tts_queue)@ == old(tts_queue)@
                },
                _ => !go_on && final(self).ready_host@ == old(self).ready_host@ && final(tts_queue)@ == old(tts_queue)@,
            },
    {
        match outcome {
            FifoWrite::Written { would_blocks } => {
                self.fifo_would_blocks = add_sat(self.fifo_would_blocks, would_blocks);
                commit_tts_drain(tts_queue, tts_bytes_consumed);
                true
            },
            FifoWrite::Backpressured { would_blocks } => {
                self.fifo_would_blocks = add_sat(self.fifo_would_blocks, would_blocks);
                self.fifo_skipped_ticks = add_sat(self.fifo_skipped_ticks, 1);
                let dropped = requeue_host_audio_after_backpressure(&mut self.ready_host, host_requeue, self.max_ready_ticks);
                self.ready_host_bytes_dropped = add_sat(self.ready_host_bytes_dropped, dropped as u64);
                true
            },
            FifoWrite::Stopped => false,
            FifoWrite::Failed => false,
        }
    }
}

} // verus!
