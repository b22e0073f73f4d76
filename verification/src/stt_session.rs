//! The decisions of a running Soniox session: how often to reconnect, when
//! to exit, what an utterance commits, what the host sees in the meantime,
//! and when the forwarder asks Soniox to finalize.

use vstd::prelude::*;

use crate::soniox::SonioxMode;
use crate::stt::{pcm_s16le_mono_duration_ms, STT_RECONNECT_DELAY_MS, STT_RECONNECT_MAX};
use crate::text::{chars_of, owned, push_str, str_eq, trim_chars, trim_seq};

verus! {

/// Connection attempts allowed before a session gives up: ten for the first
/// connection, the reconnect limit afterwards.
pub fn connect_attempts(reconnect_count: u32) -> (n: u32)
    ensures
        n == if reconnect_count == 0 { 10 } else { STT_RECONNECT_MAX },
{
    if reconnect_count == 0 { 10 } else { STT_RECONNECT_MAX }
}

/// The pause after a failed connection attempt: three seconds for the first
/// connection, the reconnect delay afterwards.
pub fn connect_retry_delay_ms(reconnect_count: u32) -> (ms: u64)
    ensures
        ms == if reconnect_count == 0 { 3_000 } else { STT_RECONNECT_DELAY_MS },
{
    if reconnect_count == 0 { 3_000 } else { STT_RECONNECT_DELAY_MS }
}

/// What the reconnect loop does next.
#[derive(Debug, Clone, Copy, PartialEq, Eq, Structural)]
pub enum SttLoopAction {
    ReconnectNow,
    SleepThenReconnect,
    Stop,
}

/// The reconnect loop of one Soniox session: how many reconnects it has
/// spent and how many utterances it has committed.
pub struct SttReconnectLoop {
    pub reconnect_count: u32,
    pub utterance_counter: u64,
}

impl SttReconnectLoop {
    pub fn new() -> (l: Self)
        ensures
            l.reconnect_count == 0,
            l.utterance_counter == 0,
    {
        SttReconnectLoop { reconnect_count: 0, utterance_counter: 0 }
    }

    /// The configuration frame could not be sent: count a reconnect, and
    /// stop once the limit is passed.
    pub fn after_config_send_failure(&mut self) -> (a: SttLoopAction)
        requires
            old(self).reconnect_count <= STT_RECONNECT_MAX,
        ensures
            final(self).reconnect_count == old(self).reconnect_count + 1,
            final(self).utterance_counter == old(self).utterance_counter,
            a == if final(self).reconnect_count > STT_RECONNECT_MAX { SttLoopAction::Stop } else { SttLoopAction::ReconnectNow },
    {
        self.reconnect_count = self.reconnect_count + 1;
        if self.reconnect_count > STT_RECONNECT_MAX {
            SttLoopAction::Stop
        } else {
            SttLoopAction::ReconnectNow
        }
    }

    /// A connection ended. `outcome` is what the response processor
    /// returned (its utterance counter and whether the connection dropped
    /// unexpectedly), none when it did not return; `session_present` is
    /// whether the live session still exists. A clean end or a vanished
    /// session stops; an unexpected drop counts a reconnect and sleeps
    /// before it, until the limit is passed.
    pub fn after_session(&mut self, outcome: Option<(u64, bool)>, session_present: bool) -> (a: SttLoopAction)
        requires
            old(self).reconnect_count <= STT_RECONNECT_MAX,
        ensures
            final(self).utterance_counter == match outcome {
                Some((n, _)) => n,
                None => old(self).utterance_counter,
            },
            ({
                let dropped = match outcome {
                    Some((_, d)) => d,
                    None => true,
                };
                if !dropped || !session_present {
                    a == SttLoopAction::Stop && final(self).reconnect_count == old(self).reconnect_count
                } else {
                    &&& final(self).reconnect_count == old(self).reconnect_count + 1
                    &&& a == if final(self).reconnect_count > STT_RECONNECT_MAX {
                        SttLoopAction::Stop
                    } else {
                        SttLoopAction::SleepThenReconnect
                    }
                }
            }),
    {
        let dropped = match outcome {
            Some((next_counter, disconnected)) => {
                self.utterance_counter = next_counter;
                disconnected
            },
            None => true,
        };
        if !dropped || !session_present {
            return SttLoopAction::Stop;
        }
        self.reconnect_count = self.reconnect_count + 1;
        if self.reconnect_count > STT_RECONNECT_MAX {
            SttLoopAction::Stop
        } else {
            SttLoopAction::SleepThenReconnect
        }
    }
}

/// What the response processor does with one frame from Soniox.
#[derive(Debug, Clone, Copy, PartialEq, Eq, Structural)]
pub enum FrameDisposition {
    Skip,
    ExitDisconnected,
    ExitClean,
    Process,
}

/// An unparseable frame is skipped; an error code exits as a disconnect;
/// a vanished live session exits cleanly; anything else is processed.
pub fn frame_disposition(parsed: bool, has_error_code: bool, session_present: bool) -> (d: FrameDisposition)
    ensures
        d == if !parsed {
            FrameDisposition::Skip
        } else if has_error_code {
            FrameDisposition::ExitDisconnected
        } else if !session_present {
            FrameDisposition::ExitClean
        } else {
            FrameDisposition::Process
        },
{
    if !parsed {
        FrameDisposition::Skip
    } else if has_error_code {
        FrameDisposition::ExitDisconnected
    } else if !session_present {
        FrameDisposition::ExitClean
    } else {
        FrameDisposition::Process
    }
}

/// Commits the in-flight utterance: a blank text is dropped and the
/// counter stays; otherwise the text is taken and numbered with the next
/// utterance id.
pub fn finalize_utterance(final_text: &mut String, utterance_counter: u64) -> (r: Option<(String, u64)>)
    requires
        utterance_counter < u64::MAX,
    ensures
        final(final_text)@.len() == 0,
        trim_seq(old(final_text)@).len() == 0 ==> r is None,
        trim_seq(old(final_text)@).len() > 0 ==> (r matches Some((c, id)) && c@ == old(final_text)@ && id == utterance_counter + 1),
{
    let trimmed = trim_chars(&chars_of(final_text.as_str()));
    if trimmed.len() == 0 {
        *final_text = String::new();
        return None;
    }
    let committed = owned(final_text.as_str());
    *final_text = String::new();
    Some((committed, utterance_counter + 1))
}

/// The interim transcript shown to the host: source sessions only, the
/// final text so far followed by the interim tail, when not empty.
pub fn interim_transcript(mode: &SonioxMode, final_text: &str, interim_tail: &str) -> (r: Option<String>)
    ensures
        match r {
            Some(t) => mode is Source && t@ == final_text@ + interim_tail@ && t@.len() > 0,
            None => !(mode is Source) || (final_text@ + interim_tail@).len() == 0,
        },
{
    match mode {
        SonioxMode::Source { .. } => {
            let mut interim = owned(final_text);
            push_str(&mut interim, interim_tail);
            if interim.as_str().unicode_len() == 0 {
                None
            } else {
                Some(interim)
            }
        },
        SonioxMode::Translate { .. } => None,
    }
}

/// With look-ahead scheduling, the window a held utterance may fill: the
/// gap to the next utterance's source start, when both starts are known and
/// the next one is later.
pub fn lookahead_window_ms(previous_start_ms: Option<u64>, current_start_ms: Option<u64>) -> (w: Option<u64>)
    ensures
        w == match (previous_start_ms, current_start_ms) {
            (Some(p), Some(c)) => if c > p { Some((c - p) as u64) } else { None },
            _ => None,
        },
{
    match (previous_start_ms, current_start_ms) {
        (Some(p), Some(c)) => if c > p { Some(c - p) } else { None },
        _ => None,
    }
}

/// Whether a setting value turns a flag on: `1`, `true`, `TRUE`, `yes` or
/// `YES`.
pub open spec fn flag_on(value: Seq<char>) -> bool {
    value == "1"@ || value == "true"@ || value == "TRUE"@ || value == "yes"@ || value == "YES"@
}

/// Reads an on/off setting; an absent setting is off.
pub fn flag_enabled(value: Option<&str>) -> (b: bool)
    ensures
        b == match value {
            Some(v) => flag_on(v@),
            None => false,
        },
{
    match value {
        Some(v) => str_eq(v, "1") || str_eq(v, "true") || str_eq(v, "TRUE") || str_eq(v, "yes") || str_eq(v, "YES"),
        None => false,
    }
}

pub const DEFAULT_STT_FORCE_FINALIZE_MS: u64 = 3_000;
pub const MAX_STT_FORCE_FINALIZE_MS: u64 = 10_000;

/// The manual-finalize interval from its setting: the parsed value, or
/// three seconds, at most ten seconds (zero turns manual finalize off).
pub fn force_finalize_ms_from_setting(setting_ms: Option<u64>) -> (ms: u64)
    ensures
        ms == match setting_ms {
            Some(v) => if v > MAX_STT_FORCE_FINALIZE_MS { MAX_STT_FORCE_FINALIZE_MS } else { v },
            None => DEFAULT_STT_FORCE_FINALIZE_MS,
        },
{
    match setting_ms {
        Some(v) => if v > MAX_STT_FORCE_FINALIZE_MS { MAX_STT_FORCE_FINALIZE_MS } else { v },
        None => DEFAULT_STT_FORCE_FINALIZE_MS,
    }
}

/// The audio forwarder's finalize clock: audio sent since the last manual
/// finalize.
pub struct FinalizeClock {
    pub force_finalize_ms: u64,
    pub audio_since_finalize_ms: u64,
}

impl FinalizeClock {
    pub fn new(force_finalize_ms: u64) -> (c: Self)
        ensures
            c.force_finalize_ms == force_finalize_ms,
            c.audio_since_finalize_ms == 0,
    {
        FinalizeClock { force_finalize_ms, audio_since_finalize_ms: 0 }
    }

    /// Counts a chunk of `bytes` sent to Soniox; true when a finalize
    /// request is due now (the clock then starts over). With an interval of
    /// zero no finalize is ever due.
    pub fn after_chunk(&mut self, bytes: usize) -> (due: bool)
        ensures
            final(self).force_finalize_ms == old(self).force_finalize_ms,
            old(self).force_finalize_ms == 0 ==> !due && final(self).audio_since_finalize_ms == old(self).audio_since_finalize_ms,
            old(self).force_finalize_ms > 0 ==> ({
                let sum = old(self).audio_since_finalize_ms + pcm_duration_of(bytes);
                let total = if sum > u64::MAX { u64::MAX as int } else { sum };
                &&& due == (total >= old(self).force_finalize_ms)
                &&& final(self).audio_since_finalize_ms == if due { 0 } else { total }
            }),
    {
        let data_ms = pcm_s16le_mono_duration_ms(bytes);
        if self.force_finalize_ms == 0 {
            return false;
        }
        let total = if self.audio_since_finalize_ms > u64::MAX - data_ms {
            u64::MAX
        } else {
            self.audio_since_finalize_ms + data_ms
        };
        if total >= self.force_finalize_ms {
            self.audio_since_finalize_ms = 0;
            true
        } else {
            self.audio_since_finalize_ms = total;
            false
        }
    }
}

/// The playback length `pcm_s16le_mono_duration_ms` gives for `bytes`.
pub open spec fn pcm_duration_of(bytes: usize) -> int {
    let scaled = if bytes * 1000 <= u64::MAX { bytes * 1000 } else { u64::MAX as int };
    let d = scaled / (crate::soniox::HOST_SAMPLE_RATE as int * 2);
    if d < 1 { 1 } else { d }
}

} // verus!
