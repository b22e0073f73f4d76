//! The per-stream queues of the RTMP muxer and the supervisor's decisions:
//! bounded host-media and TTS buffers, the TTS backlog, the idle and crash
//! handling of FFmpeg children, and the files a stream works with.

use std::collections::VecDeque;
use std::time::{Duration, SystemTime};
use vstd::prelude::*;

use crate::drain::TimedChunk;
use crate::ffmpeg_args::{VideoEncoderKind, VideoProfileCaps};
use crate::text::{decimal, owned, push_decimal, push_str};
use crate::time::nanos_of;

verus! {

/// Cap of the host audio delay buffer per stream: about 20 s of samples.
pub const HOST_AUDIO_CAP_BYTES: usize = 1_764_000;
/// Cap of the queued H.264 chunks per stream.
pub const HOST_VIDEO_H264_CAP_CHUNKS: usize = 120_000;
/// Bytes per second of mono s16le PCM at 44.1 kHz.
pub const PCM_BYTES_PER_SECOND: usize = 88_200;
pub const DEFAULT_TTS_QUEUE_CAP_MS: u64 = 60_000;
pub const MAX_TTS_QUEUE_CAP_MS: u64 = 120_000;
/// The TTS queue cap under the default setting: 60 s of PCM.
pub const TTS_QUEUE_CAP_BYTES: usize = 5_292_000;
/// Restarts an FFmpeg child gets before its stream is abandoned.
pub const MAX_FFMPEG_RESTARTS: u32 = 3;
/// Pause between FFmpeg restart attempts.
pub const FFMPEG_RESTART_DELAY_MS: u64 = 2_000;
/// A child that has not been written to for this long is killed.
pub const IDLE_RESTART_THRESHOLD_MS: u64 = 25_000;

#[verifier::external_type_specification]
#[verifier::external_body]
pub struct ExSystemTime(SystemTime);

/// Reads the wall clock (`SystemTime::now`). Nothing is stated of the
/// reading: it depends on the time of the call.
#[verifier::external_body]
fn system_now() -> SystemTime {
    SystemTime::now()
}

/// `SystemTime::duration_since(UNIX_EPOCH)`: the time since the epoch, none
/// when the clock is set before it. Nothing is stated of the value: it
/// depends on the reading.
#[verifier::external_body]
fn since_unix_epoch(t: &SystemTime) -> Option<Duration> {
    t.duration_since(std::time::UNIX_EPOCH).ok()
}

/// Milliseconds since the Unix epoch from the nanoseconds since it (`None`
/// when the clock reads before the epoch, which gives 0), truncated to
/// `i64` as a cast does.
pub open spec fn unix_ms_spec(since_nanos: Option<u128>) -> i64 {
    match since_nanos {
        Some(n) => (n / 1_000_000) as i64,
        None => 0,
    }
}

/// Converts the time since the epoch, in nanoseconds, to milliseconds.
pub fn unix_ms_of(since_nanos: Option<u128>) -> (ms: i64)
    ensures
        ms == unix_ms_spec(since_nanos),
{
    match since_nanos {
        Some(n) => {
            let ms = n / 1_000_000;
            #[verifier::truncate]
            (ms as i64)
        },
        None => 0,
    }
}

/// Milliseconds since the Unix epoch on the wall clock (0 when the clock
/// reads before the epoch). The clock reading itself is not stated.
pub fn now_unix_ms() -> (ms: i64)
    ensures
        exists|since_nanos: Option<u128>| ms == unix_ms_spec(since_nanos),
{
    let since = match since_unix_epoch(&system_now()) {
        Some(d) => Some(nanos_of(&d)),
        None => None,
    };
    let ms = unix_ms_of(since);
    assert(ms == unix_ms_spec(since));
    ms
}

/// An even byte count: whole s16le samples only.
pub fn align_pcm_s16le_len(len: usize) -> (r: usize)
    ensures
        r == len - len % 2,
{
    len - len % 2
}

/// Drops a trailing half sample.
pub fn truncate_pcm_s16le(pcm: Vec<u8>) -> (r: Vec<u8>)
    ensures
        r@ == pcm@.subrange(0, pcm@.len() - pcm@.len() % 2),
{
    let mut pcm = pcm;
    let n = align_pcm_s16le_len(pcm.len());
    pcm.truncate(n);
    pcm
}

/// The playback length of `bytes` of PCM, in milliseconds (saturating).
pub open spec fn pcm_ms(bytes: nat) -> nat {
    let scaled = if bytes * 1_000 <= u64::MAX { bytes * 1_000 } else { u64::MAX as nat };
    scaled / (PCM_BYTES_PER_SECOND as nat)
}

/// One synthesized utterance (or sentence) queued for a stream.
pub struct TtsSegment {
    pub utterance_id: u64,
    pub sentence_id: u32,
    pub lang: String,
    pub text: String,
    pub pcm: Vec<u8>,
    pub estimated_source_duration_ms: Option<u64>,
    pub tts_duration_ms: u64,
    pub expansion_ratio_milli: Option<u32>,
    pub policy: String,
}

/// The expansion ratio recorded with a segment: against a positive source
/// estimate only.
pub open spec fn segment_ratio(tts_ms: u64, source_ms: Option<u64>) -> Option<u32> {
    match source_ms {
        Some(s) => if s > 0 {
            let scaled = if tts_ms * 1_000 <= u64::MAX { tts_ms * 1_000 } else { u64::MAX as int };
            let r = scaled / (s as int);
            Some(if r > u32::MAX { u32::MAX } else { r as u32 })
        } else {
            None
        },
        None => None,
    }
}

impl TtsSegment {
    /// A segment with its measurements: whole samples only, the playback
    /// length, and the ratio to the estimated source duration.
    pub fn with_metadata(
        utterance_id: u64,
        sentence_id: u32,
        lang: String,
        text: String,
        pcm: Vec<u8>,
        estimated_source_duration_ms: Option<u64>,
        policy: &str,
    ) -> (s: Self)
        ensures
            s.utterance_id == utterance_id,
            s.sentence_id == sentence_id,
            s.lang@ == lang@,
            s.text@ == text@,
            s.pcm@ == pcm@.subrange(0, pcm@.len() - pcm@.len() % 2),
            s.estimated_source_duration_ms == estimated_source_duration_ms,
            s.tts_duration_ms == pcm_ms(s.pcm@.len()),
            s.expansion_ratio_milli == segment_ratio(s.tts_duration_ms, estimated_source_duration_ms),
            s.policy@ == policy@,
    {
        let pcm = truncate_pcm_s16le(pcm);
        let n = pcm.len() as u64;
        let scaled = if n <= u64::MAX / 1_000 { n * 1_000 } else { u64::MAX };
        let tts_duration_ms = scaled / (PCM_BYTES_PER_SECOND as u64);
        let expansion_ratio_milli = match estimated_source_duration_ms {
            Some(source_ms) => if source_ms > 0 {
                let t = if tts_duration_ms <= u64::MAX / 1_000 { tts_duration_ms * 1_000 } else { u64::MAX };
                let r = t / source_ms;
                Some(if r > u32::MAX as u64 { u32::MAX } else { r as u32 })
            } else {
                None
            },
            None => None,
        };
        TtsSegment {
            utterance_id,
            sentence_id,
            lang,
            text,
            pcm,
            estimated_source_duration_ms,
            tts_duration_ms,
            expansion_ratio_milli,
            policy: owned(policy),
        }
    }

    /// A segment without source measurements, under the normal policy.
    pub fn new(utterance_id: u64, sentence_id: u32, lang: String, text: String, pcm: Vec<u8>) -> (s: Self)
        ensures
            s.utterance_id == utterance_id,
            s.lang@ == lang@,
            s.pcm@ == pcm@.subrange(0, pcm@.len() - pcm@.len() % 2),
            s.estimated_source_duration_ms is None,
            s.expansion_ratio_milli is None,
            s.policy@ == "normal"@,
    {
        Self::with_metadata(utterance_id, sentence_id, lang, text, pcm, None, "normal")
    }

    /// A copy of the segment, field for field.
    pub fn copy(&self) -> (c: Self)
        ensures
            seg_view(c) == seg_view(*self),
    {
        let mut pcm: Vec<u8> = Vec::new();
        let mut i: usize = 0;
        while i < self.pcm.len()
            invariant
                i <= self.pcm@.len(),
                pcm@ == self.pcm@.subrange(0, i as int),
            decreases self.pcm@.len() - i,
        {
            pcm.push(self.pcm[i]);
            i = i + 1;
        }
        assert(pcm@ =~= self.pcm@);
        TtsSegment {
            utterance_id: self.utterance_id,
            sentence_id: self.sentence_id,
            lang: owned(self.lang.as_str()),
            text: owned(self.text.as_str()),
            pcm,
            estimated_source_duration_ms: self.estimated_source_duration_ms,
            tts_duration_ms: self.tts_duration_ms,
            expansion_ratio_milli: self.expansion_ratio_milli,
            policy: owned(self.policy.as_str()),
        }
    }

    pub fn byte_len(&self) -> (n: usize)
        ensures
            n == self.pcm@.len(),
    {
        self.pcm.len()
    }

    pub fn duration_ms(&self) -> (ms: u64)
        ensures
            ms == self.tts_duration_ms,
    {
        self.tts_duration_ms
    }
}

/// A segment as a value: its ids, language, text, PCM and measurements.
pub open spec fn seg_view(s: TtsSegment) -> (u64, u32, Seq<char>, Seq<char>, Seq<u8>, Option<u64>, u64, Option<u32>, Seq<char>) {
    (s.utterance_id, s.sentence_id, s.lang@, s.text@, s.pcm@, s.estimated_source_duration_ms, s.tts_duration_ms,
        s.expansion_ratio_milli, s.policy@)
}

/// A queue of segments as values.
pub open spec fn queue_view(q: Seq<TtsSegment>) -> Seq<(u64, u32, Seq<char>, Seq<char>, Seq<u8>, Option<u64>, u64, Option<u32>, Seq<char>)> {
    q.map_values(|s: TtsSegment| seg_view(s))
}

/// The PCM bytes of a queue of segment values.
pub open spec fn view_bytes(q: Seq<(u64, u32, Seq<char>, Seq<char>, Seq<u8>, Option<u64>, u64, Option<u32>, Seq<char>)>) -> nat
    decreases q.len(),
{
    if q.len() == 0 { 0 } else { view_bytes(q.drop_last()) + q.last().4.len() }
}

/// What is left of a queue after whole segments are shed from the front
/// until it fits `cap` bytes.
pub open spec fn trim_to_cap(q: Seq<(u64, u32, Seq<char>, Seq<char>, Seq<u8>, Option<u64>, u64, Option<u32>, Seq<char>)>, cap: nat) -> Seq<(u64, u32, Seq<char>, Seq<char>, Seq<u8>, Option<u64>, u64, Option<u32>, Seq<char>)>
    decreases q.len(),
{
    if q.len() == 0 || view_bytes(q) <= cap {
        q
    } else {
        trim_to_cap(q.drop_first(), cap)
    }
}

proof fn lemma_view_bytes_front(q: Seq<(u64, u32, Seq<char>, Seq<char>, Seq<u8>, Option<u64>, u64, Option<u32>, Seq<char>)>)
    requires
        q.len() > 0,
    ensures
        view_bytes(q) == q[0].4.len() + view_bytes(q.drop_first()),
    decreases q.len(),
{
    let d = q.drop_first();
    if q.len() > 1 {
        lemma_view_bytes_front(q.drop_last());
        assert(q.drop_last().drop_first() =~= d.drop_last());
        assert(d.last() == q.last());
        assert(q.drop_last()[0] == q[0]);
        assert(view_bytes(d) == view_bytes(d.drop_last()) + d.last().4.len());
        assert(view_bytes(q) == view_bytes(q.drop_last()) + q.last().4.len());
    } else {
        assert(d =~= Seq::<(u64, u32, Seq<char>, Seq<char>, Seq<u8>, Option<u64>, u64, Option<u32>, Seq<char>)>::empty());
        assert(q.drop_last() =~= Seq::<(u64, u32, Seq<char>, Seq<char>, Seq<u8>, Option<u64>, u64, Option<u32>, Seq<char>)>::empty());
        assert(q.last() == q[0]);
        assert(view_bytes(q) == view_bytes(q.drop_last()) + q.last().4.len());
    }
}

/// Shedding to a cap leaves a suffix of the queue that fits the cap, and
/// keeps the newest segment whenever that segment alone fits.
pub proof fn lemma_trim_to_cap(q: Seq<(u64, u32, Seq<char>, Seq<char>, Seq<u8>, Option<u64>, u64, Option<u32>, Seq<char>)>, cap: nat)
    ensures
        view_bytes(trim_to_cap(q, cap)) <= cap,
        trim_to_cap(q, cap).len() <= q.len(),
        trim_to_cap(q, cap) == q.subrange(q.len() - trim_to_cap(q, cap).len(), q.len() as int),
        q.len() > 0 && q.last().4.len() <= cap ==> trim_to_cap(q, cap).len() > 0,
    decreases q.len(),
{
    if q.len() == 0 {
        assert(q.subrange(0, 0) =~= q);
    } else if view_bytes(q) <= cap {
        assert(q.subrange(0, q.len() as int) =~= q);
    } else {
        let d = q.drop_first();
        lemma_trim_to_cap(d, cap);
        lemma_view_bytes_front(q);
        let t = trim_to_cap(d, cap);
        assert(d.subrange(d.len() - t.len(), d.len() as int) =~= q.subrange(q.len() - t.len(), q.len() as int));
        if q.len() == 1 {
            assert(d.len() == 0);
            assert(view_bytes(q) == q[0].4.len());
        } else {
            assert(d.last() == q.last());
        }
    }
}

/// Counting bytes over segments or over their values agrees.
pub(crate) proof fn lemma_view_bytes(q: Seq<TtsSegment>)
    ensures
        view_bytes(queue_view(q)) == segment_bytes(q),
    decreases q.len(),
{
    if q.len() > 0 {
        lemma_view_bytes(q.drop_last());
        assert(queue_view(q).drop_last() =~= queue_view(q.drop_last()));
    }
}

/// The PCM bytes held by a run of segments.
pub open spec fn segment_bytes(q: Seq<TtsSegment>) -> nat
    decreases q.len(),
{
    if q.len() == 0 { 0 } else { segment_bytes(q.drop_last()) + q.last().pcm@.len() }
}

/// The bytes of media held by a run of timed chunks.
pub open spec fn chunk_bytes_total(q: Seq<TimedChunk>) -> nat
    decreases q.len(),
{
    if q.len() == 0 { 0 } else { chunk_bytes_total(q.drop_last()) + q.last().1@.len() }
}

proof fn lemma_segment_bytes_front(q: Seq<TtsSegment>)
    requires
        q.len() > 0,
    ensures
        segment_bytes(q) == q[0].pcm@.len() + segment_bytes(q.drop_first()),
    decreases q.len(),
{
    let d = q.drop_first();
    if q.len() > 1 {
        lemma_segment_bytes_front(q.drop_last());
        assert(q.drop_last().drop_first() =~= d.drop_last());
        assert(d.last() == q.last());
        assert(q.drop_last()[0] == q[0]);
        assert(segment_bytes(d) == segment_bytes(d.drop_last()) + d.last().pcm@.len());
        assert(segment_bytes(q) == segment_bytes(q.drop_last()) + q.last().pcm@.len());
    } else {
        assert(d =~= Seq::<TtsSegment>::empty());
        assert(q.drop_last() =~= Seq::<TtsSegment>::empty());
        assert(q.last() == q[0]);
        assert(segment_bytes(q) == segment_bytes(q.drop_last()) + q.last().pcm@.len());
    }
}

proof fn lemma_chunk_bytes_front(q: Seq<TimedChunk>)
    requires
        q.len() > 0,
    ensures
        chunk_bytes_total(q) == q[0].1@.len() + chunk_bytes_total(q.drop_first()),
    decreases q.len(),
{
    let d = q.drop_first();
    if q.len() > 1 {
        lemma_chunk_bytes_front(q.drop_last());
        assert(q.drop_last().drop_first() =~= d.drop_last());
        assert(d.last() == q.last());
        assert(q.drop_last()[0] == q[0]);
        assert(chunk_bytes_total(d) == chunk_bytes_total(d.drop_last()) + d.last().1@.len());
        assert(chunk_bytes_total(q) == chunk_bytes_total(q.drop_last()) + q.last().1@.len());
    } else {
        assert(d =~= Seq::<TimedChunk>::empty());
        assert(q.drop_last() =~= Seq::<TimedChunk>::empty());
        assert(q.last() == q[0]);
        assert(chunk_bytes_total(q) == chunk_bytes_total(q.drop_last()) + q.last().1@.len());
    }
}

/// The PCM bytes queued for TTS.
pub fn tts_queue_bytes(queue: &VecDeque<TtsSegment>) -> (n: usize)
    requires
        segment_bytes(queue@) <= usize::MAX,
    ensures
        n == segment_bytes(queue@),
{
    let mut total: usize = 0;
    let mut i: usize = 0;
    while i < queue.len()
        invariant
            i <= queue@.len(),
            segment_bytes(queue@) <= usize::MAX,
            total == segment_bytes(queue@.subrange(0, i as int)),
        decreases queue@.len() - i,
    {
        proof {
            let p = queue@.subrange(0, i + 1);
            assert(p.drop_last() =~= queue@.subrange(0, i as int));
            lemma_segment_bytes_prefix(queue@, i + 1);
        }
        total = total + queue[i].pcm.len();
        i = i + 1;
    }
    assert(queue@.subrange(0, queue@.len() as int) =~= queue@);
    total
}

proof fn lemma_segment_bytes_prefix(q: Seq<TtsSegment>, n: int)
    requires
        0 <= n <= q.len(),
    ensures
        segment_bytes(q.subrange(0, n)) <= segment_bytes(q),
    decreases q.len(),
{
    if n < q.len() {
        assert(q.drop_last().subrange(0, n) =~= q.subrange(0, n));
        lemma_segment_bytes_prefix(q.drop_last(), n);
    } else {
        assert(q.subrange(0, n) =~= q);
    }
}

/// The TTS queue cap from its setting: the setting (default 60 s) kept
/// between 1 s and 120 s, as PCM bytes.
pub open spec fn tts_cap_bytes(setting_ms: Option<u64>) -> nat {
    let ms = match setting_ms {
        Some(v) => if v < 1_000 { 1_000 } else if v > MAX_TTS_QUEUE_CAP_MS { MAX_TTS_QUEUE_CAP_MS } else { v },
        None => DEFAULT_TTS_QUEUE_CAP_MS,
    };
    (ms as nat) * (PCM_BYTES_PER_SECOND as nat) / 1_000
}

/// The TTS queue cap, in bytes.
pub fn tts_queue_cap_bytes(setting_ms: Option<u64>) -> (n: usize)
    ensures
        n == tts_cap_bytes(setting_ms),
{
    let ms: u64 = match setting_ms {
        Some(v) => if v < 1_000 { 1_000 } else if v > MAX_TTS_QUEUE_CAP_MS { MAX_TTS_QUEUE_CAP_MS } else { v },
        None => DEFAULT_TTS_QUEUE_CAP_MS,
    };
    assert(ms * 88_200 <= 120_000 * 88_200) by (nonlinear_arith)
        requires ms <= 120_000;
    (ms * (PCM_BYTES_PER_SECOND as u64) / 1_000) as usize
}

/// Queues a segment and sheds whole segments from the front until the
/// queue fits the cap; returns how many were shed. The queue left is the
/// longest suffix of the old queue plus the segment that fits.
pub fn enqueue_tts_segment(queue: &mut VecDeque<TtsSegment>, segment: TtsSegment, cap_bytes: usize) -> (dropped: usize)
    requires
        segment_bytes(old(queue)@) + segment.pcm@.len() <= usize::MAX,
    ensures
        ({
            let all = old(queue)@.push(segment);
            &&& dropped <= all.len()
            &&& final(queue)@ == all.subrange(dropped as int, all.len() as int)
            &&& segment_bytes(final(queue)@) <= cap_bytes
            &&& dropped > 0 ==> segment_bytes(all.subrange(dropped - 1, all.len() as int)) > cap_bytes
            &&& segment.pcm@.len() <= cap_bytes ==> final(queue)@.len() > 0 && final(queue)@.last() == segment
        }),
{
    let ghost all = old(queue)@.push(segment);
    proof {
        assert(all.drop_last() =~= old(queue)@);
    }
    queue.push_back(segment);
    let n_all = queue.len();
    let mut total = tts_queue_bytes(queue);
    let mut dropped: usize = 0;
    assert(all.subrange(0, all.len() as int) =~= all);
    while total > cap_bytes
        invariant
            n_all == all.len(),
            dropped <= all.len(),
            queue@ == all.subrange(dropped as int, all.len() as int),
            total == segment_bytes(queue@),
            dropped > 0 ==> segment_bytes(all.subrange(dropped - 1, all.len() as int)) > cap_bytes,
        decreases queue@.len(),
    {
        proof {
            if queue@.len() == 0 {
                assert(segment_bytes(queue@) == 0);
            }
            assert(queue@.len() == all.len() - dropped);
            lemma_segment_bytes_front(queue@);
            assert(queue@.drop_first() =~= all.subrange(dropped + 1, all.len() as int));
        }
        let ghost before = queue@;
        let front = queue.pop_front();
        match front {
            Some(seg) => {
                total = total - seg.pcm.len();
            },
            None => {},
        }
        dropped = dropped + 1;
    }
    proof {
        assert(all[all.len() - 1] == segment);
        if segment.pcm@.len() <= cap_bytes {
            if dropped == all.len() {
                let one = all.subrange(dropped - 1, all.len() as int);
                assert(one.drop_last().len() == 0);
                assert(segment_bytes(one.drop_last()) == 0);
                assert(one.last() == segment);
                assert(segment_bytes(one) == segment.pcm@.len());
            }
            assert(queue@.len() > 0);
            assert(queue@.last() == all[all.len() - 1]);
        }
    }
    dropped
}

/// Queues host audio and sheds whole chunks from the front until the
/// buffer fits the cap; returns how many were shed.
pub fn enqueue_host_audio(buf: &mut VecDeque<TimedChunk>, chunk: TimedChunk, cap_bytes: usize) -> (dropped: usize)
    requires
        chunk_bytes_total(old(buf)@) + chunk.1@.len() <= usize::MAX,
    ensures
        ({
            let all = old(buf)@.push(chunk);
            &&& dropped <= all.len()
            &&& final(buf)@ == all.subrange(dropped as int, all.len() as int)
            &&& chunk_bytes_total(final(buf)@) <= cap_bytes
            &&& dropped > 0 ==> chunk_bytes_total(all.subrange(dropped - 1, all.len() as int)) > cap_bytes
            &&& chunk.1@.len() <= cap_bytes ==> final(buf)@.len() > 0 && final(buf)@.last() == chunk
        }),
{
    let ghost all = old(buf)@.push(chunk);
    proof {
        assert(all.drop_last() =~= old(buf)@);
    }
    let added = chunk.1.len();
    let mut total = chunk_total(buf) + added;
    buf.push_back(chunk);
    let n_all = buf.len();
    let mut dropped: usize = 0;
    assert(all.subrange(0, all.len() as int) =~= all);
    proof {
        assert(all.drop_last() =~= old(buf)@);
    }
    while total > cap_bytes
        invariant
            n_all == all.len(),
            dropped <= all.len(),
            buf@ == all.subrange(dropped as int, all.len() as int),
            total == chunk_bytes_total(buf@),
            dropped > 0 ==> chunk_bytes_total(all.subrange(dropped - 1, all.len() as int)) > cap_bytes,
        decreases buf@.len(),
    {
        proof {
            if buf@.len() == 0 {
                assert(chunk_bytes_total(buf@) == 0);
            }
            assert(buf@.len() == all.len() - dropped);
            lemma_chunk_bytes_front(buf@);
            assert(buf@.drop_first() =~= all.subrange(dropped + 1, all.len() as int));
        }
        let front = buf.pop_front();
        match front {
            Some(c) => {
                total = total - c.1.len();
            },
            None => {},
        }
        dropped = dropped + 1;
    }
    proof {
        assert(all[all.len() - 1] == chunk);
        if chunk.1@.len() <= cap_bytes {
            if dropped == all.len() {
                let one = all.subrange(dropped - 1, all.len() as int);
                assert(one.drop_last().len() == 0);
                assert(chunk_bytes_total(one.drop_last()) == 0);
                assert(one.last() == chunk);
                assert(chunk_bytes_total(one) == chunk.1@.len());
            }
            assert(buf@.len() > 0);
            assert(buf@.last() == all[all.len() - 1]);
        }
    }
    dropped
}

proof fn lemma_chunk_bytes_prefix(q: Seq<TimedChunk>, n: int)
    requires
        0 <= n <= q.len(),
    ensures
        chunk_bytes_total(q.subrange(0, n)) <= chunk_bytes_total(q),
    decreases q.len(),
{
    if n < q.len() {
        assert(q.drop_last().subrange(0, n) =~= q.subrange(0, n));
        lemma_chunk_bytes_prefix(q.drop_last(), n);
    } else {
        assert(q.subrange(0, n) =~= q);
    }
}

pub(crate) fn chunk_total(buf: &VecDeque<TimedChunk>) -> (n: usize)
    requires
        chunk_bytes_total(buf@) <= usize::MAX,
    ensures
        n == chunk_bytes_total(buf@),
{
    let mut total: usize = 0;
    let mut i: usize = 0;
    while i < buf.len()
        invariant
            i <= buf@.len(),
            chunk_bytes_total(buf@) <= usize::MAX,
            total == chunk_bytes_total(buf@.subrange(0, i as int)),
        decreases buf@.len() - i,
    {
        proof {
            assert(buf@.subrange(0, i + 1).drop_last() =~= buf@.subrange(0, i as int));
            lemma_chunk_bytes_prefix(buf@, i + 1);
        }
        total = total + buf[i].1.len();
        i = i + 1;
    }
    assert(buf@.subrange(0, buf@.len() as int) =~= buf@);
    total
}

/// Queues a video chunk and keeps only the newest `cap_chunks`; returns
/// how many were shed.
pub fn enqueue_video_chunk(buf: &mut VecDeque<TimedChunk>, chunk: TimedChunk, cap_chunks: usize) -> (dropped: usize)
    ensures
        ({
            let all = old(buf)@.push(chunk);
            &&& dropped == if all.len() > cap_chunks { all.len() - cap_chunks } else { 0 }
            &&& final(buf)@ == all.subrange(dropped as int, all.len() as int)
            &&& cap_chunks > 0 ==> final(buf)@.len() > 0 && final(buf)@.last() == chunk
        }),
{
    let ghost all = old(buf)@.push(chunk);
    buf.push_back(chunk);
    let n_all = buf.len();
    let mut dropped: usize = 0;
    assert(all.subrange(0, all.len() as int) =~= all);
    while buf.len() > cap_chunks
        invariant
            n_all == all.len(),
            dropped <= all.len(),
            buf@ == all.subrange(dropped as int, all.len() as int),
            all.len() > cap_chunks ==> dropped <= all.len() - cap_chunks,
            all.len() <= cap_chunks ==> dropped == 0,
        decreases buf@.len(),
    {
        assert(buf@.drop_first() =~= all.subrange(dropped + 1, all.len() as int));
        buf.pop_front();
        dropped = dropped + 1;
    }
    dropped
}

/// Whether a stream plays a language's dubbed audio: a target stream of
/// that language (not the source, not a passthrough).
pub open spec fn plays_tts(stream_lang: Seq<char>, is_source: bool, passthrough: bool, lang: Seq<char>) -> bool {
    stream_lang == lang && !is_source && !passthrough
}

/// Whether a stream takes the TTS (and subtitles) of `lang`.
pub fn stream_plays_tts(stream_lang: &str, is_source: bool, passthrough: bool, lang: &str) -> (b: bool)
    ensures
        b == plays_tts(stream_lang@, is_source, passthrough, lang@),
{
    crate::text::str_eq(stream_lang, lang) && !is_source && !passthrough
}

/// How far a stream's queued TTS runs behind, in milliseconds.
pub fn tts_backlog_ms_of(queued_bytes: usize) -> (ms: u64)
    ensures
        ms == pcm_ms(queued_bytes as nat),
{
    let n = queued_bytes as u64;
    let scaled = if n <= u64::MAX / 1_000 { n * 1_000 } else { u64::MAX };
    scaled / (PCM_BYTES_PER_SECOND as u64)
}

/// The caps the encoder can honour: x264 is held to 30 fps.
pub fn effective_video_profile_caps(encoder: VideoEncoderKind, caps: VideoProfileCaps) -> (c: VideoProfileCaps)
    ensures
        c == if encoder == VideoEncoderKind::X264 && caps.max_fps > 30 {
            VideoProfileCaps { max_fps: 30, ..caps }
        } else {
            caps
        },
{
    match encoder {
        VideoEncoderKind::X264 => if caps.max_fps > 30 {
            VideoProfileCaps { max_width: caps.max_width, max_height: caps.max_height, max_fps: 30 }
        } else {
            caps
        },
        VideoEncoderKind::Nvenc => caps,
    }
}

/// Whether a live child counts as idle: not stopping, written to at least
/// once, and silent for the threshold or longer.
pub open spec fn is_idle(stop: bool, last_write_ms: i64, now_ms: i64) -> bool {
    let idle = if now_ms - last_write_ms < i64::MIN { i64::MIN as int } else if now_ms - last_write_ms > i64::MAX { i64::MAX as int } else { now_ms - last_write_ms };
    !stop && last_write_ms != 0 && idle >= IDLE_RESTART_THRESHOLD_MS
}

/// How long a child has gone without a write, in milliseconds, saturating
/// at the bounds of `i64`.
pub open spec fn idle_ms_spec(last_write_ms: i64, now_ms: i64) -> int {
    if now_ms - last_write_ms < i64::MIN {
        i64::MIN as int
    } else if now_ms - last_write_ms > i64::MAX {
        i64::MAX as int
    } else {
        now_ms - last_write_ms
    }
}

/// Computes how long a child has gone without a write.
pub fn idle_ms(last_write_ms: i64, now_ms: i64) -> (ms: i64)
    ensures
        ms == idle_ms_spec(last_write_ms, now_ms),
{
    if last_write_ms >= 0 {
        if now_ms < i64::MIN + last_write_ms { i64::MIN } else { now_ms - last_write_ms }
    } else {
        if now_ms > i64::MAX + last_write_ms { i64::MAX } else { now_ms - last_write_ms }
    }
}

/// Decides whether the supervisor kills a silent child.
pub fn should_kill_idle(stop: bool, last_write_ms: i64, now_ms: i64) -> (b: bool)
    ensures
        b == is_idle(stop, last_write_ms, now_ms),
{
    if stop || last_write_ms == 0 {
        return false;
    }
    let idle: i64 = if last_write_ms >= 0 {
        if now_ms < i64::MIN + last_write_ms { i64::MIN } else { now_ms - last_write_ms }
    } else {
        if now_ms > i64::MAX + last_write_ms { i64::MAX } else { now_ms - last_write_ms }
    };
    idle >= IDLE_RESTART_THRESHOLD_MS as i64
}

/// What the supervisor does with a child that exited.
#[derive(Debug, Clone, Copy, PartialEq, Eq, Structural)]
pub enum CrashDecision {
    Ignore,
    GiveUp,
    Restart,
}

/// An exit of a stopping stream is expected; a stream that used up its
/// restarts is abandoned; any other exit is restarted.
pub fn crash_decision(stop: bool, restart_count: u32) -> (d: CrashDecision)
    ensures
        d == if stop {
            CrashDecision::Ignore
        } else if restart_count >= MAX_FFMPEG_RESTARTS {
            CrashDecision::GiveUp
        } else {
            CrashDecision::Restart
        },
{
    if stop {
        CrashDecision::Ignore
    } else if restart_count >= MAX_FFMPEG_RESTARTS {
        CrashDecision::GiveUp
    } else {
        CrashDecision::Restart
    }
}

/// The decimal rendering of a signed number.
pub open spec fn signed_decimal(n: int) -> Seq<char> {
    if n < 0 { seq!['-'] + decimal((-n) as nat) } else { decimal(n as nat) }
}

/// Appends the decimal rendering of a signed number.
pub fn push_signed(s: &mut String, n: i64)
    ensures
        final(s)@ == old(s)@ + signed_decimal(n as int),
{
    if n < 0 {
        crate::text::push_char(s, '-');
        let m: u64 = if n == i64::MIN { 9_223_372_036_854_775_808 } else { (-n) as u64 };
        push_decimal(s, m);
        assert(old(s)@.push('-') + decimal(m as nat) =~= old(s)@ + (seq!['-'] + decimal(m as nat)));
    } else {
        push_decimal(s, n as u64);
    }
}

/// The crash message of an exit: with the signal when one killed the child.
pub open spec fn crash_detail_spec(signal: Option<i32>, code: i32) -> Seq<char> {
    match signal {
        Some(sig) => "ffmpeg signal="@ + signed_decimal(sig as int) + " exit_code="@ + signed_decimal(code as int),
        None => "ffmpeg exit_code="@ + signed_decimal(code as int),
    }
}

/// Describes how an FFmpeg child ended.
pub fn crash_detail(signal: Option<i32>, code: i32) -> (s: String)
    ensures
        s@ == crash_detail_spec(signal, code),
{
    let mut s = String::new();
    match signal {
        Some(sig) => {
            push_str(&mut s, "ffmpeg signal=");
            push_signed(&mut s, sig as i64);
            push_str(&mut s, " exit_code=");
            push_signed(&mut s, code as i64);
        },
        None => {
            push_str(&mut s, "ffmpeg exit_code=");
            push_signed(&mut s, code as i64);
        },
    }
    s
}

/// The FIFO the audio drain of a stream writes to.
pub fn audio_fifo_path(stream_id: &str) -> (p: String)
    ensures
        p@ == "/tmp/brivva_audio_"@ + stream_id@,
{
    let mut p = owned("/tmp/brivva_audio_");
    push_str(&mut p, stream_id);
    p
}

/// The text file FFmpeg reloads the burnt-in subtitle from.
pub fn subtitle_textfile_path(stream_id: &str) -> (p: String)
    ensures
        p@ == "/tmp/brivva_subtitle_"@ + stream_id@ + ".txt"@,
{
    let mut p = owned("/tmp/brivva_subtitle_");
    push_str(&mut p, stream_id);
    push_str(&mut p, ".txt");
    p
}

/// One publish destination of a stream group.
#[derive(Clone, Debug)]
pub struct RtmpDestination {
    pub platform: String,
    pub url: String,
}

impl RtmpDestination {
    pub fn new(platform: &str, url: &str) -> (d: Self)
        ensures
            d.platform@ == platform@,
            d.url@ == url@,
    {
        RtmpDestination { platform: owned(platform), url: owned(url) }
    }
}

/// The delay buffers of one stream: host audio, host video and TTS.
pub struct StreamBuffers {
    pub audio: VecDeque<TimedChunk>,
    pub video_h264: VecDeque<TimedChunk>,
    pub tts: VecDeque<TtsSegment>,
}

impl StreamBuffers {
    pub fn new() -> (b: Self)
        ensures
            b.audio@.len() == 0,
            b.video_h264@.len() == 0,
            b.tts@.len() == 0,
    {
        StreamBuffers { audio: VecDeque::new(), video_h264: VecDeque::new(), tts: VecDeque::new() }
    }
}

} // verus!
