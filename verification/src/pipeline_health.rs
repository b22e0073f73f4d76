//! The pipeline-health report a host receives every few seconds.

use std::collections::HashMap;
use vstd::prelude::*;

use crate::latency_tracker::average_of;
use crate::live_session::Session;
use crate::messages::ServerMsg;

verus! {

/// Seconds between two health reports.
pub const HEALTH_REPORT_INTERVAL_SECS: u64 = 5;

/// The session counters one health report is made of.
pub struct HealthCounterSnapshot {
    pub tts_failures: u64,
    pub tts_timeouts: u64,
    pub stt_disconnects: u64,
    pub translation_empty: u64,
    pub avg_latency_ms: u64,
}

/// Reads a session's failure counters and rolling latency; all zero when
/// the session is gone.
pub fn read_counters(session: Option<&Session>) -> (c: HealthCounterSnapshot)
    requires
        session matches Some(s) ==> s.latency_tracker.wf(),
    ensures
        match session {
            Some(s) => {
                &&& c.tts_failures == s.pipeline_counters.tts_failures
                &&& c.tts_timeouts == s.pipeline_counters.tts_timeouts
                &&& c.stt_disconnects == s.pipeline_counters.stt_disconnects
                &&& c.translation_empty == s.pipeline_counters.translation_empty
                &&& c.avg_latency_ms == average_of(s.latency_tracker.samples())
            },
            None => c.tts_failures == 0 && c.tts_timeouts == 0 && c.stt_disconnects == 0
                && c.translation_empty == 0 && c.avg_latency_ms == 0,
        },
{
    match session {
        Some(s) => HealthCounterSnapshot {
            tts_failures: s.pipeline_counters.tts_failures(),
            tts_timeouts: s.pipeline_counters.tts_timeouts(),
            stt_disconnects: s.pipeline_counters.stt_disconnects(),
            translation_empty: s.pipeline_counters.translation_empty(),
            avg_latency_ms: s.latency_tracker.rolling_average_ms(),
        },
        None => HealthCounterSnapshot {
            tts_failures: 0,
            tts_timeouts: 0,
            stt_disconnects: 0,
            translation_empty: 0,
            avg_latency_ms: 0,
        },
    }
}

/// The health message: whether speech-to-text is connected, the queue
/// depth of each language, TTS failures and timeouts together as dropped
/// chunks, the timeouts alone, and empty translations as translate errors.
pub fn health_message(stt_connected: bool, queue_depth: HashMap<String, usize>, counters: &HealthCounterSnapshot) -> (m: ServerMsg)
    requires
        counters.tts_failures + counters.tts_timeouts <= u64::MAX,
    ensures
        m matches ServerMsg::PipelineHealth { stt_connected: a, queue_depth: q, dropped_chunks: d, tts_timeouts: t, translate_errors: e }
            && a == stt_connected && q@ == queue_depth@ && d == counters.tts_failures + counters.tts_timeouts
            && t == counters.tts_timeouts && e == counters.translation_empty,
{
    ServerMsg::PipelineHealth {
        stt_connected,
        queue_depth,
        dropped_chunks: counters.tts_failures + counters.tts_timeouts,
        tts_timeouts: counters.tts_timeouts,
        translate_errors: counters.translation_empty,
    }
}

} // verus!
