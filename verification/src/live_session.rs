//! The per-session state of a broadcast: its languages, voice choices,
//! delays, counters and circuit breakers.

use std::collections::{HashMap, HashSet};
use vstd::prelude::*;

use crate::circuit_breaker::{CircuitBreaker, CircuitBreakerConfig};
use crate::config::{DEFAULT_BROADCAST_DELAY_MS, DEFAULT_TTS_MODEL, DEFAULT_TTS_PROVIDER};
use crate::lang::Lang;
use crate::latency_tracker::LatencyTracker;
use crate::pipeline_counters::PipelineCounters;
use crate::text::owned;
use crate::time::duration_from_millis;

verus! {

/// Failures in a row that open a provider's circuit breaker.
pub const CB_FAILURE_THRESHOLD: u32 = 5;
/// How long an open provider breaker waits before a trial call.
pub const CB_RESET_TIMEOUT_MS: u64 = 30_000;

/// One broadcast session.
pub struct Session {
    pub id: String,
    pub source_lang: Lang,
    pub target_langs: Vec<Lang>,
    pub voice_clone_id: Option<String>,
    /// Languages that skip the clone and use the provider's default voice.
    pub use_default_voice_langs: HashSet<String>,
    /// `female` or `male`: the default-voice gender.
    pub tts_voice_gender: String,
    /// Per-language gender overrides.
    pub voice_gender_map: HashMap<String, String>,
    pub tts_model: String,
    pub tts_provider: String,
    pub tier: u8,
    pub rtmp_langs: Vec<Lang>,
    pub rtmp_stop: bool,
    pub video_codec: Option<String>,
    pub broadcast_delay_ms: u64,
    /// Per-language video delay, overriding `broadcast_delay_ms`.
    pub lang_delay_ms: HashMap<String, u64>,
    pub pipeline_counters: PipelineCounters,
    pub latency_tracker: LatencyTracker,
    pub tts_circuit_breaker: CircuitBreaker,
    pub stt_circuit_breaker: CircuitBreaker,
}

/// The target languages followed by the RTMP languages not among them, in
/// order of first appearance.
pub open spec fn merged_langs(targets: Seq<Lang>, rtmp: Seq<Lang>) -> Seq<Lang>
    decreases rtmp.len(),
{
    if rtmp.len() == 0 {
        targets
    } else {
        let prev = merged_langs(targets, rtmp.drop_last());
        if prev.contains(rtmp.last()) { prev } else { prev.push(rtmp.last()) }
    }
}

impl Session {
    /// A new session with default voice, model, delay, counters and
    /// breakers (five failures, thirty seconds).
    pub fn new(id: String, source_lang: Lang, target_langs: Vec<Lang>, tier: u8) -> (s: Self)
        ensures
            s.id@ == id@,
            s.source_lang == source_lang,
            s.target_langs@ == target_langs@,
            s.tier == tier,
            s.voice_clone_id is None,
            s.use_default_voice_langs@ == Set::<String>::empty(),
            s.tts_voice_gender@ == "female"@,
            s.voice_gender_map@ == Map::<String, String>::empty(),
            s.tts_model@ == DEFAULT_TTS_MODEL@,
            s.tts_provider@ == DEFAULT_TTS_PROVIDER@,
            s.rtmp_langs@.len() == 0,
            !s.rtmp_stop,
            s.video_codec is None,
            s.broadcast_delay_ms == DEFAULT_BROADCAST_DELAY_MS,
            s.lang_delay_ms@ == Map::<String, u64>::empty(),
            s.pipeline_counters.tts_failures == 0,
            s.pipeline_counters.tts_timeouts == 0,
            s.pipeline_counters.stt_disconnects == 0,
            s.pipeline_counters.translation_empty == 0,
            s.latency_tracker.samples().len() == 0,
            s.tts_circuit_breaker.threshold() == CB_FAILURE_THRESHOLD,
            s.stt_circuit_breaker.threshold() == CB_FAILURE_THRESHOLD,
            s.tts_circuit_breaker.timeout_nanos() == CB_RESET_TIMEOUT_MS as nat * 1_000_000,
            s.stt_circuit_breaker.timeout_nanos() == CB_RESET_TIMEOUT_MS as nat * 1_000_000,
    {
        Session {
            id,
            source_lang,
            target_langs,
            voice_clone_id: None,
            use_default_voice_langs: HashSet::new(),
            tts_voice_gender: owned("female"),
            voice_gender_map: HashMap::new(),
            tts_model: owned(DEFAULT_TTS_MODEL),
            tts_provider: owned(DEFAULT_TTS_PROVIDER),
            tier,
            rtmp_langs: Vec::new(),
            rtmp_stop: false,
            video_codec: None,
            broadcast_delay_ms: DEFAULT_BROADCAST_DELAY_MS,
            lang_delay_ms: HashMap::new(),
            pipeline_counters: PipelineCounters::new(),
            latency_tracker: LatencyTracker::new(),
            tts_circuit_breaker: CircuitBreaker::new(
                CircuitBreakerConfig { failure_threshold: CB_FAILURE_THRESHOLD, reset_timeout: duration_from_millis(CB_RESET_TIMEOUT_MS) },
            ),
            stt_circuit_breaker: CircuitBreaker::new(
                CircuitBreakerConfig { failure_threshold: CB_FAILURE_THRESHOLD, reset_timeout: duration_from_millis(CB_RESET_TIMEOUT_MS) },
            ),
        }
    }

    /// Every language the session serves: its targets, then the RTMP
    /// languages not already among them.
    pub fn active_langs(&self) -> (langs: Vec<Lang>)
        ensures
            langs@ == merged_langs(self.target_langs@, self.rtmp_langs@),
    {
        let mut langs = self.target_langs.clone();
        assert(langs@ =~= self.target_langs@) by {
            assert(forall|i: int| 0 <= i < langs@.len() ==> langs@[i] == self.target_langs@[i]);
        }
        let mut i: usize = 0;
        while i < self.rtmp_langs.len()
            invariant
                i <= self.rtmp_langs@.len(),
                langs@ == merged_langs(self.target_langs@, self.rtmp_langs@.subrange(0, i as int)),
            decreases self.rtmp_langs@.len() - i,
        {
            let l = self.rtmp_langs[i];
            proof {
                assert(self.rtmp_langs@.subrange(0, i + 1).drop_last() =~= self.rtmp_langs@.subrange(0, i as int));
            }
            let mut seen = false;
            let mut j: usize = 0;
            while j < langs.len()
                invariant
                    j <= langs@.len(),
                    seen == exists|k: int| 0 <= k < j && langs@[k] == l,
                decreases langs@.len() - j,
            {
                if langs[j] == l {
                    seen = true;
                }
                j = j + 1;
            }
            if !seen {
                langs.push(l);
            }
            i = i + 1;
        }
        assert(self.rtmp_langs@.subrange(0, self.rtmp_langs@.len() as int) =~= self.rtmp_langs@);
        langs
    }
}

/// Merging keeps the targets first and in order, adds every RTMP language,
/// and adds nothing else.
pub proof fn lemma_merged_langs(targets: Seq<Lang>, rtmp: Seq<Lang>)
    ensures
        merged_langs(targets, rtmp).len() >= targets.len(),
        merged_langs(targets, rtmp).subrange(0, targets.len() as int) == targets,
        forall|l: Lang| merged_langs(targets, rtmp).contains(l) <==> (targets.contains(l) || rtmp.contains(l)),
    decreases rtmp.len(),
{
    if rtmp.len() == 0 {
        assert(targets.subrange(0, targets.len() as int) =~= targets);
    } else {
        lemma_merged_langs(targets, rtmp.drop_last());
        let prev = merged_langs(targets, rtmp.drop_last());
        let l = rtmp.last();
        if !prev.contains(l) {
            assert(prev.push(l).subrange(0, targets.len() as int) =~= prev.subrange(0, targets.len() as int));
        }
        assert forall|x: Lang| merged_langs(targets, rtmp).contains(x) <==> (targets.contains(x) || rtmp.contains(x)) by {
            if rtmp.drop_last().contains(x) {
                let k = choose|k: int| 0 <= k < rtmp.drop_last().len() && rtmp.drop_last()[k] == x;
                assert(rtmp[k] == x);
            }
            if rtmp.contains(x) {
                let k = choose|k: int| 0 <= k < rtmp.len() && rtmp[k] == x;
                if k < rtmp.len() - 1 {
                    assert(rtmp.drop_last()[k] == x);
                }
            }
            if !prev.contains(l) {
                if prev.push(l).contains(x) {
                    let k = choose|k: int| 0 <= k < prev.push(l).len() && prev.push(l)[k] == x;
                    if k < prev.len() {
                        assert(prev[k] == x);
                    }
                }
                if prev.contains(x) {
                    let k = choose|k: int| 0 <= k < prev.len() && prev[k] == x;
                    assert(prev.push(l)[k] == x);
                }
                assert(prev.push(l)[prev.len() as int] == l);
            }
        }
    }
}

/// Merging adds no duplicate: when the targets hold each language once,
/// so do the merged languages.
pub proof fn lemma_merged_langs_distinct(targets: Seq<Lang>, rtmp: Seq<Lang>)
    requires
        forall|i: int, j: int| 0 <= i < j < targets.len() ==> targets[i] != targets[j],
    ensures
        forall|i: int, j: int| 0 <= i < j < merged_langs(targets, rtmp).len()
            ==> merged_langs(targets, rtmp)[i] != merged_langs(targets, rtmp)[j],
    decreases rtmp.len(),
{
    if rtmp.len() > 0 {
        lemma_merged_langs_distinct(targets, rtmp.drop_last());
        let prev = merged_langs(targets, rtmp.drop_last());
        let l = rtmp.last();
        if !prev.contains(l) {
            let m = prev.push(l);
            assert forall|i: int, j: int| 0 <= i < j < m.len() implies m[i] != m[j] by {
                if j == prev.len() {
                    assert(m[i] == prev[i]);
                    if m[i] == m[j] {
                        assert(prev.contains(l));
                    }
                }
            }
        }
    }
}

} // verus!
