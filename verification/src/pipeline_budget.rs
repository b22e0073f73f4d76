//! TTS budget shared by the pipeline paths.

use std::time::Duration;
use vstd::prelude::*;

use crate::config::{TTS_DEADLINE_CAP_MS, TTS_DEADLINE_MARGIN_MS};
use crate::time::{duration_from_millis, duration_nanos};

verus! {

/// The TTS deadline for a broadcast delay: the delay less the margin (never
/// below zero), capped at the hard limit.
pub open spec fn tts_deadline_ms(broadcast_delay_ms: u64) -> nat {
    let sync = if broadcast_delay_ms >= TTS_DEADLINE_MARGIN_MS {
        (broadcast_delay_ms - TTS_DEADLINE_MARGIN_MS) as nat
    } else {
        0
    };
    if sync <= TTS_DEADLINE_CAP_MS { sync } else { TTS_DEADLINE_CAP_MS as nat }
}

/// The TTS deadline in milliseconds for a broadcast delay.
pub fn compute_tts_deadline_ms(broadcast_delay_ms: u64) -> (ms: u64)
    ensures
        ms == tts_deadline_ms(broadcast_delay_ms),
{
    let sync = broadcast_delay_ms.saturating_sub(TTS_DEADLINE_MARGIN_MS);
    if sync <= TTS_DEADLINE_CAP_MS { sync } else { TTS_DEADLINE_CAP_MS }
}

/// Compute the TTS deadline from broadcast delay: the lesser of
/// (delay - margin) and the hard cap.
pub fn compute_tts_deadline(broadcast_delay_ms: u64) -> (d: Duration)
    ensures
        duration_nanos(d) == tts_deadline_ms(broadcast_delay_ms) * 1_000_000,
{
    duration_from_millis(compute_tts_deadline_ms(broadcast_delay_ms))
}

/// The deadline never exceeds the hard cap, and grows with the delay.
pub proof fn lemma_deadline_capped_and_monotone(a: u64, b: u64)
    requires
        a <= b,
    ensures
        tts_deadline_ms(a) <= TTS_DEADLINE_CAP_MS,
        tts_deadline_ms(a) <= tts_deadline_ms(b),
{
}

} // verus!
