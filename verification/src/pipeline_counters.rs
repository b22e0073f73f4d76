//! Pipeline failure counters.

use vstd::prelude::*;

verus! {

/// A counter after one increment; like an atomic `fetch_add`, it wraps at
/// the top of the `u64` range.
pub open spec fn bumped(n: u64) -> u64 {
    if n == u64::MAX { 0 } else { (n + 1) as u64 }
}

fn bump(n: u64) -> (r: u64)
    ensures
        r == bumped(n),
{
    if n == u64::MAX { 0 } else { n + 1 }
}

pub struct PipelineCounters {
    pub tts_failures: u64,
    pub tts_timeouts: u64,
    pub stt_disconnects: u64,
    pub translation_empty: u64,
}

impl PipelineCounters {
    pub fn new() -> (c: Self)
        ensures
            c.tts_failures == 0,
            c.tts_timeouts == 0,
            c.stt_disconnects == 0,
            c.translation_empty == 0,
    {
        Self { tts_failures: 0, tts_timeouts: 0, stt_disconnects: 0, translation_empty: 0 }
    }

    pub fn tts_failures(&self) -> (n: u64)
        ensures
            n == self.tts_failures,
    {
        self.tts_failures
    }

    pub fn tts_timeouts(&self) -> (n: u64)
        ensures
            n == self.tts_timeouts,
    {
        self.tts_timeouts
    }

    pub fn stt_disconnects(&self) -> (n: u64)
        ensures
            n == self.stt_disconnects,
    {
        self.stt_disconnects
    }

    pub fn translation_empty(&self) -> (n: u64)
        ensures
            n == self.translation_empty,
    {
        self.translation_empty
    }

    pub fn increment_tts_failures(&mut self)
        ensures
            *final(self) == (PipelineCounters { tts_failures: bumped(old(self).tts_failures), ..*old(self) }),
    {
        self.tts_failures = bump(self.tts_failures);
    }

    pub fn increment_tts_timeouts(&mut self)
        ensures
            *final(self) == (PipelineCounters { tts_timeouts: bumped(old(self).tts_timeouts), ..*old(self) }),
    {
        self.tts_timeouts = bump(self.tts_timeouts);
    }

    pub fn increment_stt_disconnects(&mut self)
        ensures
            *final(self) == (PipelineCounters { stt_disconnects: bumped(old(self).stt_disconnects), ..*old(self) }),
    {
        self.stt_disconnects = bump(self.stt_disconnects);
    }

    pub fn increment_translation_empty(&mut self)
        ensures
            *final(self) == (PipelineCounters { translation_empty: bumped(old(self).translation_empty), ..*old(self) }),
    {
        self.translation_empty = bump(self.translation_empty);
    }
}

impl Default for PipelineCounters {
    fn default() -> (c: Self)
        ensures
            c.tts_failures == 0,
            c.tts_timeouts == 0,
            c.stt_disconnects == 0,
            c.translation_empty == 0,
    {
        Self::new()
    }
}

} // verus!
