//! The streams of one broadcast and the supervisor's decisions over them:
//! which exited children are restarted or given up, which silent children
//! are killed, how far a language's dubbed audio runs behind, and the video
//! settings new children start with.

use std::collections::VecDeque;
use vstd::prelude::*;

use crate::drain::TimedChunk;
use crate::ffmpeg_args::{profile_from_capture, VideoEncoderKind, VideoInputCodec, VideoProfile, VideoProfileCaps};
use crate::rtmp::{
    crash_decision, effective_video_profile_caps, is_idle, lemma_view_bytes, pcm_ms, plays_tts, queue_view, seg_view,
    segment_bytes, should_kill_idle, stream_plays_tts, trim_to_cap, tts_backlog_ms_of, tts_queue_bytes, view_bytes,
    CrashDecision, RtmpDestination, StreamBuffers, TtsSegment, HOST_AUDIO_CAP_BYTES, HOST_VIDEO_H264_CAP_CHUNKS,
    MAX_FFMPEG_RESTARTS,
};

verus! {

/// One publishing stream: where it goes, how it plays, its supervisor
/// counters, and the media queued for it.
pub struct StreamEntry {
    pub id: String,
    pub lang: String,
    pub rtmp_urls: Vec<String>,
    pub destinations: Vec<RtmpDestination>,
    pub destination_platform: String,
    pub delay_ms: u64,
    pub is_source: bool,
    pub passthrough: bool,
    /// The output this stream publishes, when the broadcast reports output
    /// health.
    pub output_id: Option<String>,
    /// Whether health events of this stream are reported.
    pub output_controls_enabled: bool,
    /// The elementary stream format its FFmpeg child reads video in.
    pub video_input_codec: VideoInputCodec,
    pub restart_count: u32,
    /// Set once the stream is being torn down; its drains stop.
    pub stop: bool,
    /// Milliseconds since the epoch of the last FIFO write; 0 before the
    /// first.
    pub last_write_ms: i64,
    pub buffers: StreamBuffers,
}

/// The streams of a broadcast, in the order they were started.
pub struct StreamSet {
    pub streams: Vec<StreamEntry>,
}

/// What the supervisor does with a stream after a health check: only an
/// exited child is acted on.
pub open spec fn exit_decision(e: StreamEntry, exited: bool) -> CrashDecision {
    if !exited || e.stop {
        CrashDecision::Ignore
    } else if e.restart_count >= MAX_FFMPEG_RESTARTS {
        CrashDecision::GiveUp
    } else {
        CrashDecision::Restart
    }
}

/// A stream with its stop flag set.
pub open spec fn stopped_entry(e: StreamEntry) -> StreamEntry {
    StreamEntry { stop: true, ..e }
}

/// The first `n` streams that stay after a health check: a given-up
/// stream stays stopped, a restarted one leaves, the others stay as they
/// were.
pub open spec fn survivors(es: Seq<StreamEntry>, exited: Seq<bool>, n: nat) -> Seq<StreamEntry>
    decreases n,
{
    if n == 0 {
        Seq::empty()
    } else {
        let prev = survivors(es, exited, (n - 1) as nat);
        let e = es[n - 1];
        match exit_decision(e, exited[n - 1]) {
            CrashDecision::Restart => prev,
            CrashDecision::GiveUp => prev.push(stopped_entry(e)),
            CrashDecision::Ignore => prev.push(e),
        }
    }
}

/// The streams among the first `n` that are restarted, stopped, in order,
/// with everything they carried (queued media included).
pub open spec fn restarting(es: Seq<StreamEntry>, exited: Seq<bool>, n: nat) -> Seq<StreamEntry>
    decreases n,
{
    if n == 0 {
        Seq::empty()
    } else {
        let prev = restarting(es, exited, (n - 1) as nat);
        let e = es[n - 1];
        if exit_decision(e, exited[n - 1]) == CrashDecision::Restart {
            prev.push(stopped_entry(e))
        } else {
            prev
        }
    }
}

/// The positions, among the first `n` streams, of the children to kill for
/// silence.
pub open spec fn idle_positions(es: Seq<StreamEntry>, now_ms: i64, n: nat) -> Seq<usize>
    decreases n,
{
    if n == 0 {
        Seq::empty()
    } else {
        let prev = idle_positions(es, now_ms, (n - 1) as nat);
        if is_idle(es[n - 1].stop, es[n - 1].last_write_ms, now_ms) {
            prev.push((n - 1) as usize)
        } else {
            prev
        }
    }
}

/// The largest backlog, in milliseconds, among the first `n` streams that
/// play `lang`'s dubbed audio (0 when none does).
pub open spec fn max_backlog(es: Seq<StreamEntry>, lang: Seq<char>, n: nat) -> nat
    decreases n,
{
    if n == 0 {
        0
    } else {
        let prev = max_backlog(es, lang, (n - 1) as nat);
        let e = es[n - 1];
        if plays_tts(e.lang@, e.is_source, e.passthrough, lang) {
            let b = pcm_ms(segment_bytes(e.buffers.tts@));
            if b > prev { b } else { prev }
        } else {
            prev
        }
    }
}

/// Every stream's TTS queue is counted in bytes within `usize`.
pub open spec fn tts_bounded(es: Seq<StreamEntry>) -> bool {
    forall|i: int| 0 <= i < es.len() ==> segment_bytes(#[trigger] es[i].buffers.tts@) <= usize::MAX
}

/// The backlog of a language is the longest queue among the streams that
/// play it: at least the backlog of every such stream, and equal to the
/// backlog of one of them (0 when none plays it).
pub proof fn lemma_backlog_is_longest_queue(es: Seq<StreamEntry>, lang: Seq<char>, n: nat)
    requires
        n <= es.len(),
    ensures
        forall|i: int| 0 <= i < n && plays_tts(es[i].lang@, es[i].is_source, es[i].passthrough, lang) ==>
            #[trigger] pcm_ms(segment_bytes(es[i].buffers.tts@)) <= max_backlog(es, lang, n),
        max_backlog(es, lang, n) == 0 || exists|i: int| 0 <= i < n
            && plays_tts(es[i].lang@, es[i].is_source, es[i].passthrough, lang)
            && max_backlog(es, lang, n) == #[trigger] pcm_ms(segment_bytes(es[i].buffers.tts@)),
    decreases n,
{
    if n > 0 {
        lemma_backlog_is_longest_queue(es, lang, (n - 1) as nat);
        let prev = max_backlog(es, lang, (n - 1) as nat);
        let e = es[n - 1];
        if plays_tts(e.lang@, e.is_source, e.passthrough, lang) {
            let b = pcm_ms(segment_bytes(e.buffers.tts@));
            if b <= prev && prev != 0 {
                let w = choose|i: int| 0 <= i < n - 1
                    && plays_tts(es[i].lang@, es[i].is_source, es[i].passthrough, lang)
                    && prev == #[trigger] pcm_ms(segment_bytes(es[i].buffers.tts@));
                assert(0 <= w < n && plays_tts(es[w].lang@, es[w].is_source, es[w].passthrough, lang)
                    && max_backlog(es, lang, n) == pcm_ms(segment_bytes(es[w].buffers.tts@)));
            } else if b > prev {
                assert(max_backlog(es, lang, n) == pcm_ms(segment_bytes(es[n - 1].buffers.tts@)));
            }
        } else if prev != 0 {
            let w = choose|i: int| 0 <= i < n - 1
                && plays_tts(es[i].lang@, es[i].is_source, es[i].passthrough, lang)
                && prev == #[trigger] pcm_ms(segment_bytes(es[i].buffers.tts@));
            assert(0 <= w < n && plays_tts(es[w].lang@, es[w].is_source, es[w].passthrough, lang)
                && max_backlog(es, lang, n) == pcm_ms(segment_bytes(es[w].buffers.tts@)));
        }
    }
}

impl StreamSet {
    pub fn new() -> (s: Self)
        ensures
            s.streams@.len() == 0,
            s.wf(),
    {
        StreamSet { streams: Vec::new() }
    }

    /// The set's invariant: no two streams share an id, and every
    /// stream's TTS queue is counted in bytes within `usize`.
    pub open spec fn wf(&self) -> bool {
        &&& ids_unique(self.streams@)
        &&& tts_bounded(self.streams@)
    }

    /// Acts on a health check (`exited[i]`: the child of stream `i` has
    /// exited): an exit of a stopping stream is ignored; a stream out of
    /// restarts is stopped and stays; any other exited stream is stopped
    /// and handed back, with its queued media, to be restarted.
    pub fn detect_crashed(&mut self, exited: &[bool]) -> (crashed: Vec<StreamEntry>)
        requires
            exited@.len() == old(self).streams@.len(),
        ensures
            final(self).streams@ == survivors(old(self).streams@, exited@, exited@.len() as nat),
            crashed@ == restarting(old(self).streams@, exited@, exited@.len() as nat),
            ids_unique(old(self).streams@) ==> ids_unique(final(self).streams@),
            tts_bounded(old(self).streams@) ==> tts_bounded(final(self).streams@),
    {
        let mut rest: Vec<StreamEntry> = Vec::new();
        std::mem::swap(&mut rest, &mut self.streams);
        let ghost es = rest@;
        let n = rest.len();
        let mut crashed: Vec<StreamEntry> = Vec::new();
        let mut i: usize = 0;
        assert(es.subrange(0, n as int) =~= es);
        while i < n
            invariant
                n == es.len(),
                n == exited@.len(),
                i <= n,
                rest@ == es.subrange(i as int, n as int),
                self.streams@ == survivors(es, exited@, i as nat),
                crashed@ == restarting(es, exited@, i as nat),
            decreases n - i,
        {
            assert(rest@[0] == es[i as int]);
            let mut e = rest.remove(0);
            assert(rest@ =~= es.subrange(i + 1, n as int));
            if exited[i] {
                match crash_decision(e.stop, e.restart_count) {
                    CrashDecision::Restart => {
                        e.stop = true;
                        crashed.push(e);
                    },
                    CrashDecision::GiveUp => {
                        e.stop = true;
                        self.streams.push(e);
                    },
                    CrashDecision::Ignore => {
                        self.streams.push(e);
                    },
                }
            } else {
                self.streams.push(e);
            }
            i = i + 1;
        }
        proof {
            if ids_unique(es) {
                lemma_survivors_unique(es, exited@, n as nat);
            }
            if tts_bounded(es) {
                lemma_survivor_origin(es, exited@, n as nat);
                let f = self.streams@;
                assert forall|k: int| 0 <= k < f.len() implies segment_bytes(#[trigger] f[k].buffers.tts@) <= usize::MAX by {
                    assert(0 <= survivor_origin(es, exited@, n as nat, k));
                }
            }
        }
        crashed
    }

    /// The positions of the children to kill for silence at `now_ms`.
    pub fn idle_streams(&self, now_ms: i64) -> (idle: Vec<usize>)
        ensures
            idle@ == idle_positions(self.streams@, now_ms, self.streams@.len()),
    {
        let mut idle: Vec<usize> = Vec::new();
        let mut i: usize = 0;
        while i < self.streams.len()
            invariant
                i <= self.streams@.len(),
                idle@ == idle_positions(self.streams@, now_ms, i as nat),
            decreases self.streams@.len() - i,
        {
            let e = &self.streams[i];
            if should_kill_idle(e.stop, e.last_write_ms, now_ms) {
                idle.push(i);
            }
            i = i + 1;
        }
        idle
    }

    /// After killing a silent child, counts it as written to now, so it is
    /// not killed twice before its exit is seen.
    pub fn record_kill(&mut self, index: usize, now_ms: i64)
        requires
            index < old(self).streams@.len(),
        ensures
            final(self).streams@ == old(self).streams@.update(
                index as int,
                StreamEntry { last_write_ms: now_ms, ..old(self).streams@[index as int] },
            ),
            ids_unique(old(self).streams@) ==> ids_unique(final(self).streams@),
            tts_bounded(old(self).streams@) ==> tts_bounded(final(self).streams@),
    {
        let mut e = self.streams.remove(index);
        e.last_write_ms = now_ms;
        self.streams.insert(index, e);
        assert(self.streams@ =~= old(self).streams@.update(
            index as int,
            StreamEntry { last_write_ms: now_ms, ..old(self).streams@[index as int] },
        ));
        proof {
            let f = self.streams@;
            let o = old(self).streams@;
            assert forall|a: int| 0 <= a < f.len() implies #[trigger] f[a].id == o[a].id by {}
        }
    }

    /// How far `lang`'s dubbed audio runs behind: the longest TTS queue
    /// among the streams that play it, in milliseconds.
    pub fn tts_backlog_ms(&self, lang: &str) -> (ms: u64)
        requires
            self.wf(),
        ensures
            ms == max_backlog(self.streams@, lang@, self.streams@.len()),
    {
        let mut best: u64 = 0;
        let mut i: usize = 0;
        while i < self.streams.len()
            invariant
                self.wf(),
                i <= self.streams@.len(),
                best == max_backlog(self.streams@, lang@, i as nat),
            decreases self.streams@.len() - i,
        {
            let e = &self.streams[i];
            if stream_plays_tts(e.lang.as_str(), e.is_source, e.passthrough, lang) {
                assert(segment_bytes(self.streams@[i as int].buffers.tts@) <= usize::MAX);
                let b = tts_backlog_ms_of(tts_queue_bytes(&e.buffers.tts));
                if b > best {
                    best = b;
                }
            }
            i = i + 1;
        }
        best
    }
}

/// No two streams share an id: the set is keyed by stream id.
pub open spec fn ids_unique(es: Seq<StreamEntry>) -> bool {
    forall|i: int, j: int| 0 <= i < es.len() && 0 <= j < es.len() && i != j ==> #[trigger] es[i].id@ != #[trigger] es[j].id@
}

/// The streams of `es` whose id is not `id`, in order.
pub open spec fn without_id(es: Seq<StreamEntry>, id: Seq<char>) -> Seq<StreamEntry>
    decreases es.len(),
{
    if es.len() == 0 {
        Seq::empty()
    } else {
        let prev = without_id(es.drop_last(), id);
        if es.last().id@ == id { prev } else { prev.push(es.last()) }
    }
}

/// The position in `es` of the `k`-th stream kept by `without_id`.
pub open spec fn without_id_origin(es: Seq<StreamEntry>, id: Seq<char>, k: int) -> int
    decreases es.len(),
{
    if es.len() == 0 {
        0
    } else if k < without_id(es.drop_last(), id).len() {
        without_id_origin(es.drop_last(), id, k)
    } else {
        es.len() - 1
    }
}

/// `without_id` keeps streams of `es` in their order and drops exactly
/// those with the id.
pub proof fn lemma_without_id(es: Seq<StreamEntry>, id: Seq<char>)
    ensures
        without_id(es, id).len() <= es.len(),
        forall|k: int| 0 <= k < without_id(es, id).len() ==> {
            &&& 0 <= #[trigger] without_id_origin(es, id, k) < es.len()
            &&& without_id(es, id)[k] == es[without_id_origin(es, id, k)]
            &&& without_id(es, id)[k].id@ != id
        },
        forall|k1: int, k2: int| 0 <= k1 < k2 < without_id(es, id).len() ==>
            #[trigger] without_id_origin(es, id, k1) < #[trigger] without_id_origin(es, id, k2),
    decreases es.len(),
{
    if es.len() > 0 {
        let d = es.drop_last();
        lemma_without_id(d, id);
        let prev = without_id(d, id);
        assert forall|k: int| 0 <= k < prev.len() implies without_id_origin(es, id, k) == without_id_origin(d, id, k) by {}
    }
}

/// Removing every stream with one id from a set with unique ids keeps the
/// ids unique and leaves the id free.
pub proof fn lemma_without_id_unique(es: Seq<StreamEntry>, id: Seq<char>)
    requires
        ids_unique(es),
    ensures
        ids_unique(without_id(es, id)),
        forall|k: int| 0 <= k < without_id(es, id).len() ==> (#[trigger] without_id(es, id)[k]).id@ != id,
{
    lemma_without_id(es, id);
    let w = without_id(es, id);
    assert forall|i: int, j: int| 0 <= i < w.len() && 0 <= j < w.len() && i != j implies #[trigger] w[i].id@ != #[trigger] w[j].id@ by {
        let oi = without_id_origin(es, id, i);
        let oj = without_id_origin(es, id, j);
        if i < j {
            assert(oi < oj);
        } else {
            assert(oj < oi);
        }
        assert(w[i] == es[oi]);
        assert(w[j] == es[oj]);
    }
    assert forall|k: int| 0 <= k < w.len() implies (#[trigger] w[k]).id@ != id by {
        assert(0 <= without_id_origin(es, id, k));
    }
}

/// A stream after an FFmpeg child was spawned for it again following a
/// crash: one more restart counted, running, not yet written to, reading
/// video in the codec of the relaunch, and otherwise what it carried
/// (queued media included).
pub open spec fn restarted_spec(crashed: StreamEntry, codec: VideoInputCodec) -> StreamEntry {
    StreamEntry {
        restart_count: (crashed.restart_count + 1) as u32,
        stop: false,
        last_write_ms: 0,
        video_input_codec: codec,
        ..crashed
    }
}

impl StreamSet {
    /// A stream whose FFmpeg child was just spawned: no restarts yet, not
    /// stopping, not yet written to.
    pub fn started_entry(
        id: String,
        lang: String,
        rtmp_urls: Vec<String>,
        destinations: Vec<RtmpDestination>,
        destination_platform: String,
        delay_ms: u64,
        is_source: bool,
        passthrough: bool,
        output_id: Option<String>,
        output_controls_enabled: bool,
        video_input_codec: VideoInputCodec,
        buffers: StreamBuffers,
    ) -> (e: StreamEntry)
        ensures
            e == (StreamEntry {
                id,
                lang,
                rtmp_urls,
                destinations,
                destination_platform,
                delay_ms,
                is_source,
                passthrough,
                output_id,
                output_controls_enabled,
                video_input_codec,
                restart_count: 0,
                stop: false,
                last_write_ms: 0,
                buffers,
            }),
    {
        StreamEntry {
            id,
            lang,
            rtmp_urls,
            destinations,
            destination_platform,
            delay_ms,
            is_source,
            passthrough,
            output_id,
            output_controls_enabled,
            video_input_codec,
            restart_count: 0,
            stop: false,
            last_write_ms: 0,
            buffers,
        }
    }

    /// The stream a crashed one becomes once its child is spawned again
    /// (reading video in `codec`): its restart count goes up by one.
    pub fn restarted_entry(crashed: StreamEntry, codec: VideoInputCodec) -> (e: StreamEntry)
        requires
            crashed.restart_count < u32::MAX,
        ensures
            e == restarted_spec(crashed, codec),
    {
        let mut e = crashed;
        e.restart_count = e.restart_count + 1;
        e.stop = false;
        e.last_write_ms = 0;
        e.video_input_codec = codec;
        e
    }

    /// Registers a spawned stream under its id, replacing any stream with
    /// the same id; the others keep their order.
    pub fn insert_started(&mut self, e: StreamEntry)
        ensures
            final(self).streams@ == without_id(old(self).streams@, e.id@).push(e),
            ids_unique(old(self).streams@) ==> ids_unique(final(self).streams@),
            tts_bounded(old(self).streams@) && segment_bytes(e.buffers.tts@) <= usize::MAX ==> tts_bounded(final(self).streams@),
    {
        let ghost id = e.id@;
        let mut rest: Vec<StreamEntry> = Vec::new();
        std::mem::swap(&mut rest, &mut self.streams);
        let ghost es = rest@;
        let n = rest.len();
        let mut i: usize = 0;
        assert(es.subrange(0, n as int) =~= es);
        assert(es.subrange(0, 0) =~= Seq::<StreamEntry>::empty());
        while i < n
            invariant
                n == es.len(),
                i <= n,
                rest@ == es.subrange(i as int, n as int),
                self.streams@ == without_id(es.subrange(0, i as int), id),
                id == e.id@,
            decreases n - i,
        {
            assert(rest@[0] == es[i as int]);
            let x = rest.remove(0);
            assert(rest@ =~= es.subrange(i + 1, n as int));
            assert(es.subrange(0, i + 1).drop_last() =~= es.subrange(0, i as int));
            if !crate::text::str_eq(x.id.as_str(), e.id.as_str()) {
                self.streams.push(x);
            }
            i = i + 1;
        }
        let ghost e_bytes = segment_bytes(e.buffers.tts@);
        self.streams.push(e);
        proof {
            if tts_bounded(es) && e_bytes <= usize::MAX {
                lemma_without_id(es, id);
                let w = without_id(es, id);
                let f = self.streams@;
                assert forall|k: int| 0 <= k < f.len() implies segment_bytes(#[trigger] f[k].buffers.tts@) <= usize::MAX by {
                    if k < w.len() {
                        assert(f[k] == w[k]);
                        assert(0 <= without_id_origin(es, id, k));
                    }
                }
            }
            if ids_unique(es) {
                lemma_without_id_unique(es, id);
                let w = without_id(es, id);
                let f = self.streams@;
                assert(f == w.push(e));
                assert forall|a: int, b: int| 0 <= a < f.len() && 0 <= b < f.len() && a != b implies #[trigger] f[a].id@ != #[trigger] f[b].id@ by {
                    if a < w.len() && b < w.len() {
                        assert(f[a] == w[a] && f[b] == w[b]);
                    } else if a < w.len() {
                        assert(f[a] == w[a]);
                    } else {
                        assert(f[b] == w[b]);
                    }
                }
            }
        }
    }
}

impl StreamSet {
    /// Registers a stream once the attempt to spawn its FFmpeg child is
    /// over: a spawned stream replaces any stream with its id; a failed
    /// spawn leaves the set as it was.
    pub fn after_spawn(&mut self, e: StreamEntry, spawned: &Result<(), String>)
        ensures
            spawned is Ok ==> final(self).streams@ == without_id(old(self).streams@, e.id@).push(e),
            spawned is Err ==> final(self).streams@ == old(self).streams@,
            ids_unique(old(self).streams@) ==> ids_unique(final(self).streams@),
            tts_bounded(old(self).streams@) && segment_bytes(e.buffers.tts@) <= usize::MAX ==> tts_bounded(final(self).streams@),
    {
        match spawned {
            Ok(_) => self.insert_started(e),
            Err(_) => {},
        }
    }

    /// Registers a crashed stream once the attempt to spawn its child again
    /// (reading video in `codec`) is over: on success it is back in the set
    /// with one more restart counted; on failure the set is left as it was,
    /// without the stream.
    pub fn after_restart_spawn(&mut self, crashed: StreamEntry, codec: VideoInputCodec, spawned: &Result<(), String>)
        requires
            crashed.restart_count < u32::MAX,
        ensures
            spawned is Ok ==> final(self).streams@ == without_id(old(self).streams@, crashed.id@).push(
                restarted_spec(crashed, codec),
            ),
            spawned is Err ==> final(self).streams@ == old(self).streams@,
            ids_unique(old(self).streams@) ==> ids_unique(final(self).streams@),
            tts_bounded(old(self).streams@) && segment_bytes(crashed.buffers.tts@) <= usize::MAX ==> tts_bounded(final(self).streams@),
    {
        match spawned {
            Ok(_) => {
                let e = StreamSet::restarted_entry(crashed, codec);
                self.insert_started(e);
            },
            Err(_) => {},
        }
    }
}

/// The stream after `r` rounds in which its child crashed and was spawned
/// again.
pub open spec fn after_restarts(e: StreamEntry, codec: VideoInputCodec, r: nat) -> StreamEntry
    decreases r,
{
    if r == 0 {
        e
    } else {
        restarted_spec(stopped_entry(after_restarts(e, codec, (r - 1) as nat)), codec)
    }
}

/// Each destination has its own restart budget: a freshly started stream
/// whose child keeps crashing is handed back for restart at each of its
/// first `MAX_FFMPEG_RESTARTS` crashes, its count going up by one each
/// time, and at the crash that follows the last restart it is given up:
/// stopped, kept, and handed back no more.
pub proof fn lemma_restart_budget(e: StreamEntry, codec: VideoInputCodec, r: nat)
    requires
        e.restart_count == 0,
        !e.stop,
        r <= MAX_FFMPEG_RESTARTS,
    ensures
        after_restarts(e, codec, r).restart_count == r,
        !after_restarts(e, codec, r).stop,
        after_restarts(e, codec, r).id == e.id,
        after_restarts(e, codec, r).buffers == e.buffers,
        r < MAX_FFMPEG_RESTARTS ==> {
            &&& restarting(seq![after_restarts(e, codec, r)], seq![true], 1) == seq![stopped_entry(after_restarts(e, codec, r))]
            &&& survivors(seq![after_restarts(e, codec, r)], seq![true], 1).len() == 0
        },
        r == MAX_FFMPEG_RESTARTS ==> {
            &&& restarting(seq![after_restarts(e, codec, r)], seq![true], 1).len() == 0
            &&& survivors(seq![after_restarts(e, codec, r)], seq![true], 1) == seq![stopped_entry(after_restarts(e, codec, r))]
        },
    decreases r,
{
    if r > 0 {
        lemma_restart_budget(e, codec, (r - 1) as nat);
    }
    let x = after_restarts(e, codec, r);
    assert(seq![x][0] == x);
    assert(restarting(seq![x], seq![true], 0) =~= Seq::<StreamEntry>::empty());
    assert(survivors(seq![x], seq![true], 0) =~= Seq::<StreamEntry>::empty());
}

/// The position, among the first `n` streams, of the `k`-th stream that
/// stays after a health check.
pub open spec fn survivor_origin(es: Seq<StreamEntry>, exited: Seq<bool>, n: nat, k: int) -> int
    decreases n,
{
    if n == 0 {
        0
    } else if k < survivors(es, exited, (n - 1) as nat).len() {
        survivor_origin(es, exited, (n - 1) as nat, k)
    } else {
        n - 1
    }
}

proof fn lemma_survivor_origin(es: Seq<StreamEntry>, exited: Seq<bool>, n: nat)
    requires
        n <= es.len(),
        n <= exited.len(),
    ensures
        forall|k: int| 0 <= k < survivors(es, exited, n).len() ==> {
            &&& 0 <= #[trigger] survivor_origin(es, exited, n, k) < n
            &&& survivors(es, exited, n)[k].id == es[survivor_origin(es, exited, n, k)].id
            &&& survivors(es, exited, n)[k].buffers == es[survivor_origin(es, exited, n, k)].buffers
        },
        forall|k1: int, k2: int| 0 <= k1 < k2 < survivors(es, exited, n).len() ==>
            #[trigger] survivor_origin(es, exited, n, k1) < #[trigger] survivor_origin(es, exited, n, k2),
    decreases n,
{
    if n > 0 {
        lemma_survivor_origin(es, exited, (n - 1) as nat);
        let prev = survivors(es, exited, (n - 1) as nat);
        assert forall|k: int| 0 <= k < prev.len() implies survivor_origin(es, exited, n, k) == survivor_origin(es, exited, (n - 1) as nat, k)
            && survivors(es, exited, n)[k] == prev[k] by {}
        assert forall|k1: int, k2: int| 0 <= k1 < k2 < survivors(es, exited, n).len() implies
            #[trigger] survivor_origin(es, exited, n, k1) < #[trigger] survivor_origin(es, exited, n, k2) by {
            assert(0 <= survivor_origin(es, exited, (n - 1) as nat, k1) < n - 1);
            if k2 < prev.len() {
                assert(survivor_origin(es, exited, (n - 1) as nat, k1) < survivor_origin(es, exited, (n - 1) as nat, k2));
            }
        }
    }
}

/// A health check keeps stream ids unique.
pub proof fn lemma_survivors_unique(es: Seq<StreamEntry>, exited: Seq<bool>, n: nat)
    requires
        n <= es.len(),
        n <= exited.len(),
        ids_unique(es),
    ensures
        ids_unique(survivors(es, exited, n)),
{
    lemma_survivor_origin(es, exited, n);
    let w = survivors(es, exited, n);
    assert forall|i: int, j: int| 0 <= i < w.len() && 0 <= j < w.len() && i != j implies #[trigger] w[i].id@ != #[trigger] w[j].id@ by {
        let oi = survivor_origin(es, exited, n, i);
        let oj = survivor_origin(es, exited, n, j);
        if i < j {
            assert(oi < oj);
        } else {
            assert(oj < oi);
        }
        assert(w[i].id == es[oi].id);
        assert(w[j].id == es[oj].id);
    }
}

/// The position, among the first `n` streams, of the `k`-th stream handed
/// back for restart.
pub open spec fn restart_origin(es: Seq<StreamEntry>, exited: Seq<bool>, n: nat, k: int) -> int
    decreases n,
{
    if n == 0 {
        0
    } else if k < restarting(es, exited, (n - 1) as nat).len() {
        restart_origin(es, exited, (n - 1) as nat, k)
    } else {
        n - 1
    }
}

/// The `k`-th stream handed back for restart is an exited, not-stopping
/// stream with restarts left, whole apart from its stop flag.
pub open spec fn restart_well_sourced(es: Seq<StreamEntry>, exited: Seq<bool>, n: nat, k: int) -> bool {
    let i = restart_origin(es, exited, n, k);
    &&& 0 <= i < n
    &&& restarting(es, exited, n)[k] == stopped_entry(es[i])
    &&& exited[i]
    &&& !es[i].stop
    &&& es[i].restart_count < MAX_FFMPEG_RESTARTS
}

/// A health check loses no stream and changes nothing but stop flags:
/// every stream either stays or is handed back for restart; what is handed
/// back is an exited, not-stopping stream with restarts left, kept whole
/// (flags, counters, destinations and queued media) apart from its stop
/// flag.
pub proof fn lemma_health_check_partitions(es: Seq<StreamEntry>, exited: Seq<bool>, n: nat)
    requires
        n <= es.len(),
        n <= exited.len(),
    ensures
        survivors(es, exited, n).len() + restarting(es, exited, n).len() == n,
        forall|k: int| 0 <= k < restarting(es, exited, n).len() ==> #[trigger] restart_well_sourced(es, exited, n, k),
    decreases n,
{
    if n > 0 {
        lemma_health_check_partitions(es, exited, (n - 1) as nat);
        let prev = restarting(es, exited, (n - 1) as nat);
        assert forall|k: int| 0 <= k < restarting(es, exited, n).len() implies #[trigger] restart_well_sourced(es, exited, n, k) by {
            if k < prev.len() {
                assert(restart_well_sourced(es, exited, (n - 1) as nat, k));
                assert(restarting(es, exited, n)[k] == prev[k]);
            } else {
                assert(exit_decision(es[n - 1], exited[n - 1]) == CrashDecision::Restart);
            }
        }
    }
}

/// Appends a copy of `segment` to a TTS queue and sheds whole segments
/// from the front until the queue fits `cap` bytes.
fn enqueue_copy(q: &mut VecDeque<TtsSegment>, segment: &TtsSegment, cap: usize)
    requires
        segment_bytes(old(q)@) + segment.pcm@.len() <= usize::MAX,
    ensures
        queue_view(final(q)@) == trim_to_cap(queue_view(old(q)@).push(seg_view(*segment)), cap as nat),
        segment_bytes(final(q)@) <= usize::MAX,
{
    let c = segment.copy();
    q.push_back(c);
    proof {
        assert(queue_view(q@) =~= queue_view(old(q)@).push(seg_view(*segment)));
        assert(q@.drop_last() =~= old(q)@);
    }
    let ghost target = trim_to_cap(queue_view(q@), cap as nat);
    loop
        invariant
            segment_bytes(q@) <= usize::MAX,
            trim_to_cap(queue_view(q@), cap as nat) == target,
        ensures
            queue_view(q@) == target,
            segment_bytes(q@) <= usize::MAX,
        decreases q@.len(),
    {
        let total = tts_queue_bytes(q);
        proof {
            lemma_view_bytes(q@);
        }
        if total <= cap {
            break;
        }
        proof {
            if q@.len() > 0 {
                lemma_segment_bytes_split(q@);
                assert(queue_view(q@).drop_first() =~= queue_view(q@.drop_first()));
            }
        }
        q.pop_front();
    }
}

/// Dropping the front segment drops its bytes only.
proof fn lemma_segment_bytes_split(q: Seq<TtsSegment>)
    requires
        q.len() > 0,
    ensures
        segment_bytes(q.drop_first()) <= segment_bytes(q),
    decreases q.len(),
{
    if q.len() > 1 {
        lemma_segment_bytes_split(q.drop_last());
        assert(q.drop_last().drop_first() =~= q.drop_first().drop_last());
    } else {
        assert(q.drop_first().len() == 0);
    }
}

/// Two entries agree on everything but their TTS queues.
pub open spec fn same_but_tts(a: StreamEntry, b: StreamEntry) -> bool {
    &&& a.id == b.id
    &&& a.lang == b.lang
    &&& a.rtmp_urls == b.rtmp_urls
    &&& a.destinations == b.destinations
    &&& a.destination_platform == b.destination_platform
    &&& a.delay_ms == b.delay_ms
    &&& a.is_source == b.is_source
    &&& a.passthrough == b.passthrough
    &&& a.output_id == b.output_id
    &&& a.output_controls_enabled == b.output_controls_enabled
    &&& a.video_input_codec == b.video_input_codec
    &&& a.restart_count == b.restart_count
    &&& a.stop == b.stop
    &&& a.last_write_ms == b.last_write_ms
    &&& a.buffers.audio == b.buffers.audio
    &&& a.buffers.video_h264 == b.buffers.video_h264
}

/// The TTS queue of a stream after a segment is pushed: streams that play
/// the segment's language dubbed take a copy (shedding from the front
/// beyond the cap); an empty segment goes nowhere.
pub open spec fn tts_after_push(e: StreamEntry, segment: TtsSegment, cap: nat) -> Seq<(u64, u32, Seq<char>, Seq<char>, Seq<u8>, Option<u64>, u64, Option<u32>, Seq<char>)> {
    if segment.pcm@.len() > 0 && plays_tts(e.lang@, e.is_source, e.passthrough, segment.lang@) {
        trim_to_cap(queue_view(e.buffers.tts@).push(seg_view(segment)), cap)
    } else {
        queue_view(e.buffers.tts@)
    }
}

impl StreamSet {
    /// Delivers a synthesized segment to every stream that plays its
    /// language dubbed (not source, not passthrough).
    pub fn push_tts_segment(&mut self, segment: &TtsSegment, cap: usize)
        requires
            forall|i: int| 0 <= i < old(self).streams@.len() ==>
                segment_bytes(#[trigger] old(self).streams@[i].buffers.tts@) + segment.pcm@.len() <= usize::MAX,
        ensures
            final(self).streams@.len() == old(self).streams@.len(),
            forall|i: int| 0 <= i < final(self).streams@.len() ==> {
                &&& same_but_tts(#[trigger] final(self).streams@[i], old(self).streams@[i])
                &&& queue_view(final(self).streams@[i].buffers.tts@) == tts_after_push(old(self).streams@[i], *segment, cap as nat)
            },
            ids_unique(old(self).streams@) ==> ids_unique(final(self).streams@),
            tts_bounded(final(self).streams@),
    {
        let n = self.streams.len();
        let empty = segment.pcm.len() == 0;
        let mut i: usize = 0;
        while i < n
            invariant
                n == old(self).streams@.len(),
                n == self.streams@.len(),
                i <= n,
                empty == (segment.pcm@.len() == 0),
                forall|j: int| i <= j < n ==> #[trigger] self.streams@[j] == old(self).streams@[j],
                forall|j: int| 0 <= j < i ==> {
                    &&& same_but_tts(#[trigger] self.streams@[j], old(self).streams@[j])
                    &&& queue_view(self.streams@[j].buffers.tts@) == tts_after_push(old(self).streams@[j], *segment, cap as nat)
                },
                forall|j: int| 0 <= j < n ==>
                    segment_bytes(#[trigger] old(self).streams@[j].buffers.tts@) + segment.pcm@.len() <= usize::MAX,
            forall|j: int| 0 <= j < i ==> segment_bytes(#[trigger] self.streams@[j].buffers.tts@) <= usize::MAX,
            decreases n - i,
        {
            let mut e = self.streams.remove(i);
            let ghost before = e;
            if !empty && stream_plays_tts(e.lang.as_str(), e.is_source, e.passthrough, segment.lang.as_str()) {
                enqueue_copy(&mut e.buffers.tts, segment, cap);
            }
            self.streams.insert(i, e);
            proof {
                assert(before == old(self).streams@[i as int]);
            }
            i = i + 1;
        }
        proof {
            let f = self.streams@;
            let o = old(self).streams@;
            assert forall|a: int| 0 <= a < f.len() implies #[trigger] f[a].id == o[a].id by {
                assert(same_but_tts(f[a], o[a]));
            }
        }
    }
}

/// A timed chunk as a value.
pub open spec fn chunk_view(c: TimedChunk) -> (u64, Seq<u8>) {
    (c.0, c.1@)
}

/// A queue of timed chunks as values.
pub open spec fn chunks_view(q: Seq<TimedChunk>) -> Seq<(u64, Seq<u8>)> {
    q.map_values(|c: TimedChunk| chunk_view(c))
}

/// The bytes of a queue of chunk values.
pub open spec fn chunk_view_bytes(q: Seq<(u64, Seq<u8>)>) -> nat
    decreases q.len(),
{
    if q.len() == 0 { 0 } else { chunk_view_bytes(q.drop_last()) + q.last().1.len() }
}

/// What is left of a chunk queue after whole chunks are shed from the
/// front until it fits `cap` bytes.
pub open spec fn trim_chunks_to_cap(q: Seq<(u64, Seq<u8>)>, cap: nat) -> Seq<(u64, Seq<u8>)>
    decreases q.len(),
{
    if q.len() == 0 || chunk_view_bytes(q) <= cap { q } else { trim_chunks_to_cap(q.drop_first(), cap) }
}

/// The newest `cap` chunks of a queue.
pub open spec fn newest(q: Seq<(u64, Seq<u8>)>, cap: nat) -> Seq<(u64, Seq<u8>)> {
    if q.len() > cap { q.subrange(q.len() - cap, q.len() as int) } else { q }
}

proof fn lemma_chunk_view_bytes_front(q: Seq<(u64, Seq<u8>)>)
    requires
        q.len() > 0,
    ensures
        chunk_view_bytes(q) == q[0].1.len() + chunk_view_bytes(q.drop_first()),
    decreases q.len(),
{
    let d = q.drop_first();
    if q.len() > 1 {
        lemma_chunk_view_bytes_front(q.drop_last());
        assert(q.drop_last().drop_first() =~= d.drop_last());
        assert(d.last() == q.last());
        assert(q.drop_last()[0] == q[0]);
        assert(chunk_view_bytes(d) == chunk_view_bytes(d.drop_last()) + d.last().1.len());
        assert(chunk_view_bytes(q) == chunk_view_bytes(q.drop_last()) + q.last().1.len());
    } else {
        assert(d =~= Seq::<(u64, Seq<u8>)>::empty());
        assert(q.drop_last() =~= Seq::<(u64, Seq<u8>)>::empty());
        assert(q.last() == q[0]);
        assert(chunk_view_bytes(q) == chunk_view_bytes(q.drop_last()) + q.last().1.len());
    }
}

/// Shedding host audio to a cap leaves a suffix of the queue that fits
/// the cap, and keeps the newest chunk whenever that chunk alone fits; the
/// video queue keeps at most its cap, newest last.
pub proof fn lemma_stream_queues_bounded(q: Seq<(u64, Seq<u8>)>, cap: nat)
    ensures
        chunk_view_bytes(trim_chunks_to_cap(q, cap)) <= cap,
        trim_chunks_to_cap(q, cap).len() <= q.len(),
        trim_chunks_to_cap(q, cap) == q.subrange(q.len() - trim_chunks_to_cap(q, cap).len(), q.len() as int),
        q.len() > 0 && q.last().1.len() <= cap ==> trim_chunks_to_cap(q, cap).len() > 0,
        newest(q, cap).len() <= cap,
        newest(q, cap) == q.subrange(q.len() - newest(q, cap).len(), q.len() as int),
        q.len() > 0 && cap > 0 ==> newest(q, cap).len() > 0,
    decreases q.len(),
{
    if q.len() <= cap {
        assert(q.subrange(0, q.len() as int) =~= q);
    }
    if q.len() == 0 {
        assert(q.subrange(0, 0) =~= q);
    } else if chunk_view_bytes(q) <= cap {
        assert(q.subrange(0, q.len() as int) =~= q);
    } else {
        let d = q.drop_first();
        lemma_stream_queues_bounded(d, cap);
        lemma_chunk_view_bytes_front(q);
        let t = trim_chunks_to_cap(d, cap);
        assert(d.subrange(d.len() - t.len(), d.len() as int) =~= q.subrange(q.len() - t.len(), q.len() as int));
        if q.len() == 1 {
            assert(d.len() == 0);
            assert(chunk_view_bytes(q) == q[0].1.len());
        } else {
            assert(d.last() == q.last());
        }
    }
}

proof fn lemma_chunk_view_bytes(q: Seq<TimedChunk>)
    ensures
        chunk_view_bytes(chunks_view(q)) == crate::rtmp::chunk_bytes_total(q),
    decreases q.len(),
{
    if q.len() > 0 {
        lemma_chunk_view_bytes(q.drop_last());
        assert(chunks_view(q).drop_last() =~= chunks_view(q.drop_last()));
    }
}

proof fn lemma_chunk_bytes_split(q: Seq<TimedChunk>)
    requires
        q.len() > 0,
    ensures
        crate::rtmp::chunk_bytes_total(q.drop_first()) <= crate::rtmp::chunk_bytes_total(q),
    decreases q.len(),
{
    if q.len() > 1 {
        lemma_chunk_bytes_split(q.drop_last());
        assert(q.drop_last().drop_first() =~= q.drop_first().drop_last());
    } else {
        assert(q.drop_first().len() == 0);
    }
}

/// A copy of the first `n` bytes of `bytes`.
fn copy_prefix(bytes: &[u8], n: usize) -> (v: Vec<u8>)
    requires
        n <= bytes@.len(),
    ensures
        v@ == bytes@.subrange(0, n as int),
{
    let mut v: Vec<u8> = Vec::new();
    let mut i: usize = 0;
    while i < n
        invariant
            i <= n <= bytes@.len(),
            v@ == bytes@.subrange(0, i as int),
        decreases n - i,
    {
        v.push(bytes[i]);
        i = i + 1;
    }
    v
}

/// Queues host audio (a copy of `pcm`) and sheds whole chunks from the
/// front until the queue fits `cap` bytes.
fn enqueue_audio_copy(q: &mut VecDeque<TimedChunk>, at_ms: u64, pcm: &[u8], n: usize, cap: usize)
    requires
        n <= pcm@.len(),
        crate::rtmp::chunk_bytes_total(old(q)@) + n <= usize::MAX,
    ensures
        chunks_view(final(q)@) == trim_chunks_to_cap(chunks_view(old(q)@).push((at_ms, pcm@.subrange(0, n as int))), cap as nat),
        crate::rtmp::chunk_bytes_total(final(q)@) <= usize::MAX,
{
    let c = copy_prefix(pcm, n);
    q.push_back((at_ms, c));
    proof {
        assert(chunks_view(q@) =~= chunks_view(old(q)@).push((at_ms, pcm@.subrange(0, n as int))));
        assert(q@.drop_last() =~= old(q)@);
    }
    let ghost target = trim_chunks_to_cap(chunks_view(q@), cap as nat);
    loop
        invariant
            crate::rtmp::chunk_bytes_total(q@) <= usize::MAX,
            trim_chunks_to_cap(chunks_view(q@), cap as nat) == target,
        ensures
            chunks_view(q@) == target,
            crate::rtmp::chunk_bytes_total(q@) <= usize::MAX,
        decreases q@.len(),
    {
        let total = crate::rtmp::chunk_total(q);
        proof {
            lemma_chunk_view_bytes(q@);
        }
        if total <= cap {
            break;
        }
        proof {
            if q@.len() > 0 {
                lemma_chunk_bytes_split(q@);
                assert(chunks_view(q@).drop_first() =~= chunks_view(q@.drop_first()));
            }
        }
        q.pop_front();
    }
}

/// Queues a video chunk (a copy of `chunk`) and keeps the newest `cap`.
fn enqueue_video_copy(q: &mut VecDeque<TimedChunk>, at_ms: u64, chunk: &[u8], cap: usize)
    ensures
        chunks_view(final(q)@) == newest(chunks_view(old(q)@).push((at_ms, chunk@)), cap as nat),
{
    let c = copy_prefix(chunk, chunk.len());
    q.push_back((at_ms, c));
    let ghost all = chunks_view(q@);
    proof {
        assert(chunk@.subrange(0, chunk@.len() as int) =~= chunk@);
        assert(all =~= chunks_view(old(q)@).push((at_ms, chunk@)));
    }
    let n_all = q.len();
    let mut dropped: usize = 0;
    while q.len() > cap
        invariant
            n_all == all.len(),
            dropped <= n_all,
            chunks_view(q@) == all.subrange(dropped as int, n_all as int),
            n_all > cap ==> dropped <= n_all - cap,
            n_all <= cap ==> dropped == 0,
        decreases q@.len(),
    {
        proof {
            assert(chunks_view(q@).drop_first() =~= chunks_view(q@.drop_first()));
        }
        q.pop_front();
        dropped = dropped + 1;
    }
    proof {
        if n_all <= cap {
            assert(all.subrange(0, n_all as int) =~= all);
        }
    }
}

/// Two entries agree on everything but their host audio queues.
pub open spec fn same_but_audio(a: StreamEntry, b: StreamEntry) -> bool {
    &&& a.id == b.id
    &&& a.lang == b.lang
    &&& a.rtmp_urls == b.rtmp_urls
    &&& a.destinations == b.destinations
    &&& a.destination_platform == b.destination_platform
    &&& a.delay_ms == b.delay_ms
    &&& a.is_source == b.is_source
    &&& a.passthrough == b.passthrough
    &&& a.output_id == b.output_id
    &&& a.output_controls_enabled == b.output_controls_enabled
    &&& a.video_input_codec == b.video_input_codec
    &&& a.restart_count == b.restart_count
    &&& a.stop == b.stop
    &&& a.last_write_ms == b.last_write_ms
    &&& a.buffers.video_h264 == b.buffers.video_h264
    &&& a.buffers.tts == b.buffers.tts
}

/// Two entries agree on everything but their video queues.
pub open spec fn same_but_video(a: StreamEntry, b: StreamEntry) -> bool {
    &&& a.id == b.id
    &&& a.lang == b.lang
    &&& a.rtmp_urls == b.rtmp_urls
    &&& a.destinations == b.destinations
    &&& a.destination_platform == b.destination_platform
    &&& a.delay_ms == b.delay_ms
    &&& a.is_source == b.is_source
    &&& a.passthrough == b.passthrough
    &&& a.output_id == b.output_id
    &&& a.output_controls_enabled == b.output_controls_enabled
    &&& a.video_input_codec == b.video_input_codec
    &&& a.restart_count == b.restart_count
    &&& a.stop == b.stop
    &&& a.last_write_ms == b.last_write_ms
    &&& a.buffers.audio == b.buffers.audio
    &&& a.buffers.tts == b.buffers.tts
}

/// A stream's host audio after a push: whole samples of the PCM, captured
/// at `at_ms`, shedding whole chunks from the front beyond the cap; less
/// than one sample goes nowhere.
pub open spec fn audio_after_push(e: StreamEntry, at_ms: u64, pcm: Seq<u8>) -> Seq<(u64, Seq<u8>)> {
    let even = pcm.len() - pcm.len() % 2;
    if even > 0 {
        trim_chunks_to_cap(chunks_view(e.buffers.audio@).push((at_ms, pcm.subrange(0, even as int))), HOST_AUDIO_CAP_BYTES as nat)
    } else {
        chunks_view(e.buffers.audio@)
    }
}

/// A stream's video after a push: streams reading `codec` take the chunk
/// and keep the newest chunks up to the cap; an empty chunk goes nowhere.
pub open spec fn video_after_push(e: StreamEntry, codec: VideoInputCodec, at_ms: u64, chunk: Seq<u8>) -> Seq<(u64, Seq<u8>)> {
    if chunk.len() > 0 && e.video_input_codec == codec {
        newest(chunks_view(e.buffers.video_h264@).push((at_ms, chunk)), HOST_VIDEO_H264_CAP_CHUNKS as nat)
    } else {
        chunks_view(e.buffers.video_h264@)
    }
}

impl StreamSet {
    /// Delivers host audio captured at `at_ms` to every stream.
    pub fn push_host_audio_at(&mut self, pcm: &[u8], at_ms: u64)
        requires
            forall|i: int| 0 <= i < old(self).streams@.len() ==>
                crate::rtmp::chunk_bytes_total(#[trigger] old(self).streams@[i].buffers.audio@) + pcm@.len() <= usize::MAX,
        ensures
            final(self).streams@.len() == old(self).streams@.len(),
            forall|i: int| 0 <= i < final(self).streams@.len() ==> {
                &&& same_but_audio(#[trigger] final(self).streams@[i], old(self).streams@[i])
                &&& chunks_view(final(self).streams@[i].buffers.audio@) == audio_after_push(old(self).streams@[i], at_ms, pcm@)
            },
            ids_unique(old(self).streams@) ==> ids_unique(final(self).streams@),
            tts_bounded(old(self).streams@) ==> tts_bounded(final(self).streams@),
    {
        let even = crate::rtmp::align_pcm_s16le_len(pcm.len());
        let n = self.streams.len();
        let mut i: usize = 0;
        while i < n
            invariant
                n == old(self).streams@.len(),
                n == self.streams@.len(),
                i <= n,
                even == pcm@.len() - pcm@.len() % 2,
                forall|j: int| i <= j < n ==> #[trigger] self.streams@[j] == old(self).streams@[j],
                forall|j: int| 0 <= j < i ==> {
                    &&& same_but_audio(#[trigger] self.streams@[j], old(self).streams@[j])
                    &&& chunks_view(self.streams@[j].buffers.audio@) == audio_after_push(old(self).streams@[j], at_ms, pcm@)
                },
                forall|j: int| 0 <= j < n ==>
                    crate::rtmp::chunk_bytes_total(#[trigger] old(self).streams@[j].buffers.audio@) + pcm@.len() <= usize::MAX,
            decreases n - i,
        {
            let mut e = self.streams.remove(i);
            let ghost before = e;
            if even > 0 {
                enqueue_audio_copy(&mut e.buffers.audio, at_ms, pcm, even, HOST_AUDIO_CAP_BYTES);
            }
            self.streams.insert(i, e);
            proof {
                assert(before == old(self).streams@[i as int]);
            }
            i = i + 1;
        }
        proof {
            let f = self.streams@;
            let o = old(self).streams@;
            assert forall|a: int| 0 <= a < f.len() implies #[trigger] f[a].id == o[a].id by {
                assert(same_but_audio(f[a], o[a]));
            }
        }
    }

    fn push_video_at(&mut self, codec: VideoInputCodec, chunk: &[u8], at_ms: u64)
        ensures
            final(self).streams@.len() == old(self).streams@.len(),
            forall|i: int| 0 <= i < final(self).streams@.len() ==> {
                &&& same_but_video(#[trigger] final(self).streams@[i], old(self).streams@[i])
                &&& chunks_view(final(self).streams@[i].buffers.video_h264@) == video_after_push(old(self).streams@[i], codec, at_ms, chunk@)
            },
            ids_unique(old(self).streams@) ==> ids_unique(final(self).streams@),
            tts_bounded(old(self).streams@) ==> tts_bounded(final(self).streams@),
    {
        let n = self.streams.len();
        let mut i: usize = 0;
        while i < n
            invariant
                n == old(self).streams@.len(),
                n == self.streams@.len(),
                i <= n,
                forall|j: int| i <= j < n ==> #[trigger] self.streams@[j] == old(self).streams@[j],
                forall|j: int| 0 <= j < i ==> {
                    &&& same_but_video(#[trigger] self.streams@[j], old(self).streams@[j])
                    &&& chunks_view(self.streams@[j].buffers.video_h264@) == video_after_push(old(self).streams@[j], codec, at_ms, chunk@)
                },
            decreases n - i,
        {
            let mut e = self.streams.remove(i);
            let ghost before = e;
            if chunk.len() > 0 && e.video_input_codec == codec {
                enqueue_video_copy(&mut e.buffers.video_h264, at_ms, chunk, HOST_VIDEO_H264_CAP_CHUNKS);
            }
            self.streams.insert(i, e);
            proof {
                assert(before == old(self).streams@[i as int]);
            }
            i = i + 1;
        }
        proof {
            let f = self.streams@;
            let o = old(self).streams@;
            assert forall|a: int| 0 <= a < f.len() implies #[trigger] f[a].id == o[a].id by {
                assert(same_but_video(f[a], o[a]));
            }
        }
    }

    /// Delivers a depacketized Annex-B H.264 chunk captured at `at_ms` to
    /// every stream reading H.264.
    pub fn push_video_h264_at(&mut self, chunk: &[u8], at_ms: u64)
        ensures
            final(self).streams@.len() == old(self).streams@.len(),
            forall|i: int| 0 <= i < final(self).streams@.len() ==> {
                &&& same_but_video(#[trigger] final(self).streams@[i], old(self).streams@[i])
                &&& chunks_view(final(self).streams@[i].buffers.video_h264@)
                    == video_after_push(old(self).streams@[i], VideoInputCodec::H264AnnexB, at_ms, chunk@)
            },
            ids_unique(old(self).streams@) ==> ids_unique(final(self).streams@),
            tts_bounded(old(self).streams@) ==> tts_bounded(final(self).streams@),
    {
        self.push_video_at(VideoInputCodec::H264AnnexB, chunk, at_ms);
    }

    /// Delivers one IVF-framed VP8 frame captured at `at_ms` to every
    /// stream reading VP8.
    pub fn push_video_vp8_ivf_frame_at(&mut self, frame: &[u8], at_ms: u64)
        ensures
            final(self).streams@.len() == old(self).streams@.len(),
            forall|i: int| 0 <= i < final(self).streams@.len() ==> {
                &&& same_but_video(#[trigger] final(self).streams@[i], old(self).streams@[i])
                &&& chunks_view(final(self).streams@[i].buffers.video_h264@)
                    == video_after_push(old(self).streams@[i], VideoInputCodec::Vp8Ivf, at_ms, frame@)
            },
            ids_unique(old(self).streams@) ==> ids_unique(final(self).streams@),
            tts_bounded(old(self).streams@) ==> tts_bounded(final(self).streams@),
    {
        self.push_video_at(VideoInputCodec::Vp8Ivf, frame, at_ms);
    }
}

/// The positions, among the first `n` streams, of those that take `lang`'s
/// subtitles: the streams that play it dubbed.
pub open spec fn subtitle_positions(es: Seq<StreamEntry>, lang: Seq<char>, n: nat) -> Seq<usize>
    decreases n,
{
    if n == 0 {
        Seq::empty()
    } else {
        let prev = subtitle_positions(es, lang, (n - 1) as nat);
        let e = es[n - 1];
        if plays_tts(e.lang@, e.is_source, e.passthrough, lang) {
            prev.push((n - 1) as usize)
        } else {
            prev
        }
    }
}

/// The first position of a stream with the given id among the first `n`.
pub open spec fn position_of(es: Seq<StreamEntry>, id: Seq<char>, n: nat) -> Option<int>
    decreases n,
{
    if n == 0 {
        None
    } else {
        match position_of(es, id, (n - 1) as nat) {
            Some(p) => Some(p),
            None => if es[n - 1].id@ == id { Some(n - 1) } else { None },
        }
    }
}

impl StreamSet {
    /// The positions of the streams whose burnt-in subtitles follow
    /// `lang`.
    pub fn subtitle_targets(&self, lang: &str) -> (t: Vec<usize>)
        ensures
            t@ == subtitle_positions(self.streams@, lang@, self.streams@.len()),
    {
        let mut t: Vec<usize> = Vec::new();
        let mut i: usize = 0;
        while i < self.streams.len()
            invariant
                i <= self.streams@.len(),
                t@ == subtitle_positions(self.streams@, lang@, i as nat),
            decreases self.streams@.len() - i,
        {
            let e = &self.streams[i];
            if stream_plays_tts(e.lang.as_str(), e.is_source, e.passthrough, lang) {
                t.push(i);
            }
            i = i + 1;
        }
        t
    }

    /// Takes the stream with the given id out of the set, stopped, to be
    /// restarted (with its queued media); none when no stream has the id.
    pub fn stop_stream_for_restart(&mut self, id: &str) -> (r: Option<StreamEntry>)
        ensures
            match position_of(old(self).streams@, id@, old(self).streams@.len()) {
                Some(p) => r == Some(stopped_entry(old(self).streams@[p])) && final(self).streams@ == old(self).streams@.remove(p),
                None => r is None && final(self).streams@ == old(self).streams@,
            },
            ids_unique(old(self).streams@) ==> ids_unique(final(self).streams@),
            tts_bounded(old(self).streams@) ==> tts_bounded(final(self).streams@),
    {
        let mut i: usize = 0;
        while i < self.streams.len()
            invariant
                i <= self.streams@.len(),
                self.streams@ == old(self).streams@,
                position_of(self.streams@, id@, i as nat) is None,
            decreases self.streams@.len() - i,
        {
            if crate::text::str_eq(self.streams[i].id.as_str(), id) {
                proof {
                    lemma_position_of_prefix(self.streams@, id@, (i + 1) as nat, self.streams@.len());
                }
                let mut e = self.streams.remove(i);
                proof {
                    let o = old(self).streams@;
                    let f = self.streams@;
                    assert forall|a: int| 0 <= a < f.len() implies #[trigger] f[a] == o[if a < i { a } else { a + 1 }] by {}
                }
                e.stop = true;
                return Some(e);
            }
            i = i + 1;
        }
        None
    }

    /// Takes every stream out of the set, stopped, in order.
    pub fn stop_all(&mut self) -> (stopped: Vec<StreamEntry>)
        ensures
            final(self).streams@.len() == 0,
            stopped@ == old(self).streams@.map_values(|e: StreamEntry| stopped_entry(e)),
    {
        let mut rest: Vec<StreamEntry> = Vec::new();
        std::mem::swap(&mut rest, &mut self.streams);
        let ghost es = rest@;
        let n = rest.len();
        let mut stopped: Vec<StreamEntry> = Vec::new();
        let mut i: usize = 0;
        assert(es.subrange(0, n as int) =~= es);
        while i < n
            invariant
                n == es.len(),
                i <= n,
                self.streams@.len() == 0,
                rest@ == es.subrange(i as int, n as int),
                stopped@ == es.subrange(0, i as int).map_values(|e: StreamEntry| stopped_entry(e)),
            decreases n - i,
        {
            assert(rest@[0] == es[i as int]);
            let mut e = rest.remove(0);
            assert(rest@ =~= es.subrange(i + 1, n as int));
            e.stop = true;
            stopped.push(e);
            assert(es.subrange(0, i + 1).map_values(|e: StreamEntry| stopped_entry(e))
                =~= es.subrange(0, i as int).map_values(|e: StreamEntry| stopped_entry(e)).push(stopped_entry(es[i as int])));
            i = i + 1;
        }
        assert(es.subrange(0, n as int).map_values(|e: StreamEntry| stopped_entry(e)) =~= es.map_values(|e: StreamEntry| stopped_entry(e)));
        stopped
    }
}

proof fn lemma_position_of_prefix(es: Seq<StreamEntry>, id: Seq<char>, k: nat, n: nat)
    requires
        k <= n <= es.len(),
        position_of(es, id, k) is Some,
    ensures
        position_of(es, id, n) == position_of(es, id, k),
    decreases n,
{
    if n > k {
        lemma_position_of_prefix(es, id, k, (n - 1) as nat);
    }
}

/// The caps an encoder can honour: x264 is held to 30 fps.
pub open spec fn encoder_caps(encoder: VideoEncoderKind, caps: VideoProfileCaps) -> VideoProfileCaps {
    if encoder == VideoEncoderKind::X264 && caps.max_fps > 30 {
        VideoProfileCaps { max_fps: 30, ..caps }
    } else {
        caps
    }
}

/// The video settings new FFmpeg children start with: the encoder, the
/// runtime caps, and the profile of the host's camera.
pub struct VideoSettings {
    pub encoder: VideoEncoderKind,
    pub caps: VideoProfileCaps,
    pub profile: VideoProfile,
}

impl VideoSettings {
    /// Takes a new profile; returns whether it differs from the current one.
    /// Live children keep their launch profile; the next restart uses the
    /// new one.
    pub fn set_video_profile(&mut self, profile: VideoProfile) -> (changed: bool)
        ensures
            changed == (old(self).profile != profile),
            final(self).profile == profile,
            final(self).encoder == old(self).encoder,
            final(self).caps == old(self).caps,
    {
        if self.profile == profile {
            return false;
        }
        self.profile = profile;
        true
    }

    /// The profile of the camera the host reported.
    pub fn set_capture_video_profile(&mut self, width: u32, height: u32, fps: u32) -> (p: VideoProfile)
        ensures
            p == profile_from_capture(width, height, fps, encoder_caps(old(self).encoder, old(self).caps)),
            final(self).profile == p,
            final(self).encoder == old(self).encoder,
            final(self).caps == old(self).caps,
    {
        let caps = effective_video_profile_caps(self.encoder, self.caps);
        let profile = VideoProfile::from_capture_with_caps(width, height, fps, caps);
        self.set_video_profile(profile);
        profile
    }

    /// The profile after the frame rate the browser observed: the current
    /// frame size at the new rate.
    pub fn set_observed_video_fps(&mut self, fps: u32) -> (p: VideoProfile)
        ensures
            p == profile_from_capture(
                old(self).profile.max_width,
                old(self).profile.max_height,
                fps,
                encoder_caps(old(self).encoder, old(self).caps),
            ),
            final(self).profile == p,
            final(self).encoder == old(self).encoder,
            final(self).caps == old(self).caps,
    {
        let current = self.profile;
        let caps = effective_video_profile_caps(self.encoder, self.caps);
        let profile = VideoProfile::from_capture_with_caps(current.max_width, current.max_height, fps, caps);
        self.set_video_profile(profile);
        profile
    }

    /// The profile after the frame size the browser observed: the new size
    /// at the current input rate.
    pub fn set_observed_video_dimensions(&mut self, width: u32, height: u32) -> (p: VideoProfile)
        ensures
            p == profile_from_capture(width, height, old(self).profile.input_fps, encoder_caps(old(self).encoder, old(self).caps)),
            final(self).profile == p,
            final(self).encoder == old(self).encoder,
            final(self).caps == old(self).caps,
    {
        let current = self.profile;
        let caps = effective_video_profile_caps(self.encoder, self.caps);
        let profile = VideoProfile::from_capture_with_caps(width, height, current.input_fps, caps);
        self.set_video_profile(profile);
        profile
    }
}

} // verus!
