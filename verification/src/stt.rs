//! Speech-to-text session logic: which target languages get a session,
//! when an utterance is flushed, and how Soniox tokens accumulate into
//! transcripts and source timing.

use std::time::Instant;
use vstd::prelude::*;

use crate::lang::Lang;
use crate::soniox::{is_soniox_endpoint_token, mode_accepts, status_is, token_timing, SonioxMode, SonioxResponse, SonioxToken, HOST_SAMPLE_RATE};
use crate::text::{chars_of, push_str, str_eq};
use crate::time::{elapsed_since, instant_now, nanos_of};

verus! {

pub const STT_RECONNECT_MAX: u32 = 5;
pub const STT_RECONNECT_DELAY_MS: u64 = 1_000;

/// The target languages in first-seen order, without the source language
/// and without repeats.
pub open spec fn dedupe_spec(source: Lang, targets: Seq<Lang>) -> Seq<Lang>
    decreases targets.len(),
{
    if targets.len() == 0 {
        targets
    } else {
        let r = dedupe_spec(source, targets.drop_last());
        let l = targets.last();
        if l != source && !r.contains(l) { r.push(l) } else { r }
    }
}

/// Drops the source language and repeated languages from the targets,
/// keeping first-seen order.
pub fn dedupe_target_langs(source_lang: Lang, target_langs: Vec<Lang>) -> (r: Vec<Lang>)
    ensures
        r@ == dedupe_spec(source_lang, target_langs@),
{
    let mut r: Vec<Lang> = Vec::new();
    let mut i: usize = 0;
    while i < target_langs.len()
        invariant
            i <= target_langs@.len(),
            r@ == dedupe_spec(source_lang, target_langs@.subrange(0, i as int)),
        decreases target_langs@.len() - i,
    {
        let l = target_langs[i];
        let mut seen = false;
        let mut j: usize = 0;
        while j < r.len()
            invariant
                j <= r@.len(),
                seen == exists|k: int| 0 <= k < j && r@[k] == l,
            decreases r@.len() - j,
        {
            if r[j] == l {
                seen = true;
            }
            j = j + 1;
        }
        proof {
            let t = target_langs@.subrange(0, i + 1);
            assert(t.drop_last() =~= target_langs@.subrange(0, i as int));
            if seen {
                let k = choose|k: int| 0 <= k < j && r@[k] == l;
                assert(r@.contains(l));
            } else {
                assert(!r@.contains(l));
            }
        }
        if l != source_lang && !seen {
            r.push(l);
        }
        i = i + 1;
    }
    assert(target_langs@.subrange(0, target_langs@.len() as int) =~= target_langs@);
    r
}

/// The deduplicated targets never hold the source language, never hold a
/// language twice, and hold every other requested language.
pub proof fn lemma_dedupe_properties(source: Lang, targets: Seq<Lang>)
    ensures
        !dedupe_spec(source, targets).contains(source),
        forall|i: int, j: int| 0 <= i < j < dedupe_spec(source, targets).len()
            ==> dedupe_spec(source, targets)[i] != dedupe_spec(source, targets)[j],
        forall|l: Lang| targets.contains(l) && l != source <==> dedupe_spec(source, targets).contains(l),
    decreases targets.len(),
{
    if targets.len() > 0 {
        lemma_dedupe_properties(source, targets.drop_last());
        let r = dedupe_spec(source, targets.drop_last());
        let l = targets.last();
        assert forall|x: Lang| targets.contains(x) && x != source <==> dedupe_spec(source, targets).contains(x) by {
            if targets.contains(x) {
                let k = choose|k: int| 0 <= k < targets.len() && targets[k] == x;
                if k < targets.len() - 1 {
                    assert(targets.drop_last()[k] == x);
                }
            }
            if targets.drop_last().contains(x) {
                let k = choose|k: int| 0 <= k < targets.drop_last().len() && targets.drop_last()[k] == x;
                assert(targets[k] == x);
            }
            if l != source && !r.contains(l) {
                if r.push(l).contains(x) {
                    let k = choose|k: int| 0 <= k < r.push(l).len() && r.push(l)[k] == x;
                    if k < r.len() {
                        assert(r[k] == x);
                    }
                }
                if r.contains(x) {
                    let k = choose|k: int| 0 <= k < r.len() && r[k] == x;
                    assert(r.push(l)[k] == x);
                }
                assert(r.push(l)[r.len() as int] == l);
            }
        }
    }
}

/// The sentence enders that count towards a flush.
pub open spec fn is_sentence_end(c: char) -> bool {
    c == '.' || c == '!' || c == '?' || c == '\u{3002}' || c == '\u{ff01}' || c == '\u{ff1f}'
}

/// The soft enders that flush an utterance when one of the last three
/// characters is one.
pub open spec fn is_soft_end(c: char) -> bool {
    is_sentence_end(c) || c == ',' || c == '\u{ff0c}' || c == ';' || c == '\u{ff1b}' || c == '\u{3001}'
}

/// How many characters of `s` satisfy sentence-end.
pub open spec fn count_sentence_ends(s: Seq<char>) -> nat
    decreases s.len(),
{
    if s.len() == 0 { 0 } else { count_sentence_ends(s.drop_last()) + if is_sentence_end(s.last()) { 1nat } else { 0 } }
}

pub const FLUSH_MIN_CHARS: usize = 30;
pub const FLUSH_MAX_CHARS: usize = 100;

/// Why an utterance is flushed now, if it is: an endpoint first; nothing
/// under 30 characters; three sentence enders; 100 characters; a soft ender
/// among the last three characters.
pub open spec fn flush_reason_spec(endpoint_hit: bool, text: Seq<char>) -> Option<Seq<char>> {
    if endpoint_hit {
        Some("endpoint"@)
    } else if text.len() < FLUSH_MIN_CHARS {
        None
    } else if count_sentence_ends(text) >= 3 {
        Some("sentence_count"@)
    } else if text.len() >= FLUSH_MAX_CHARS {
        Some("length"@)
    } else if exists|k: int| text.len() - 3 <= k < text.len() && 0 <= k && is_soft_end(text[k]) {
        Some("punctuation"@)
    } else {
        None
    }
}

pub fn is_sentence_end_char(c: char) -> (b: bool)
    ensures
        b == is_sentence_end(c),
{
    c == '.' || c == '!' || c == '?' || c == '\u{3002}' || c == '\u{ff01}' || c == '\u{ff1f}'
}

fn is_soft_end_char(c: char) -> (b: bool)
    ensures
        b == is_soft_end(c),
{
    is_sentence_end_char(c) || c == ',' || c == '\u{ff0c}' || c == ';' || c == '\u{ff1b}' || c == '\u{3001}'
}

/// Decides whether to flush the in-flight utterance now, and why.
pub fn flush_reason(endpoint_hit: bool, final_text: &str) -> (r: Option<&'static str>)
    ensures
        match r {
            Some(s) => flush_reason_spec(endpoint_hit, final_text@) == Some(s@),
            None => flush_reason_spec(endpoint_hit, final_text@) is None,
        },
{
    if endpoint_hit {
        return Some("endpoint");
    }
    let v = chars_of(final_text);
    let n = v.len();
    if n < FLUSH_MIN_CHARS {
        return None;
    }
    let mut enders: usize = 0;
    let mut i: usize = 0;
    while i < n
        invariant
            n == v@.len(),
            v@ == final_text@,
            i <= n,
            enders == count_sentence_ends(v@.subrange(0, i as int)),
            enders <= i,
        decreases n - i,
    {
        proof {
            assert(v@.subrange(0, i + 1).drop_last() =~= v@.subrange(0, i as int));
        }
        if is_sentence_end_char(v[i]) {
            enders = enders + 1;
        }
        i = i + 1;
    }
    assert(v@.subrange(0, n as int) =~= v@);
    if enders >= 3 {
        return Some("sentence_count");
    }
    if n >= FLUSH_MAX_CHARS {
        return Some("length");
    }
    if is_soft_end_char(v[n - 1]) || is_soft_end_char(v[n - 2]) || is_soft_end_char(v[n - 3]) {
        return Some("punctuation");
    }
    assert(!exists|k: int| v@.len() - 3 <= k < v@.len() && 0 <= k && is_soft_end(v@[k])) by {
        assert forall|k: int| v@.len() - 3 <= k < v@.len() && 0 <= k implies !is_soft_end(v@[k]) by {
            if k == n - 1 {} else if k == n - 2 {} else {}
        }
    }
    None
}

/// How the source duration of an utterance was measured.
#[derive(Debug, Clone, Copy, PartialEq, Eq, Structural)]
pub enum SourceTimingMethod {
    SonioxTokenTimestamps,
    ResponseWallClock,
}

/// The measured source speech of an utterance and the window its TTS may
/// use.
#[derive(Debug, Clone, Copy, PartialEq, Eq, Structural)]
pub struct SourceUtteranceTiming {
    pub source_speech_duration_ms: u64,
    pub available_window_ms: u64,
    pub timing_method: SourceTimingMethod,
}

impl SourceUtteranceTiming {
    /// Timing whose TTS window equals the speech duration.
    pub fn same_as_speech(duration_ms: u64, method: SourceTimingMethod) -> (t: Self)
        ensures
            t.source_speech_duration_ms == duration_ms,
            t.available_window_ms == duration_ms,
            t.timing_method == method,
    {
        Self { source_speech_duration_ms: duration_ms, available_window_ms: duration_ms, timing_method: method }
    }

    /// The time the TTS of the utterance may take.
    pub fn tts_budget_ms(&self) -> (ms: u64)
        ensures
            ms == self.available_window_ms,
    {
        self.available_window_ms
    }
}

pub open spec fn clamp_u64(x: u64, lo: u64, hi: u64) -> u64 {
    if x < lo { lo } else if x > hi { hi } else { x }
}

fn clamp_ms(x: u64) -> (r: u64)
    ensures
        r == clamp_u64(x, 500, 15_000),
{
    if x < 500 { 500 } else if x > 15_000 { 15_000 } else { x }
}

/// Source timing gathered over the tokens of one utterance.
pub struct UtteranceTimingAccumulator {
    source_start_ms: Option<u64>,
    source_end_ms: Option<u64>,
    response_started_at: Option<Instant>,
}

/// The span an utterance's timestamps cover grows with each observation:
/// the earliest start and the latest end.
pub open spec fn widen_start(current: Option<u64>, start: u64) -> Option<u64> {
    match current {
        Some(c) => Some(if c <= start { c } else { start }),
        None => Some(start),
    }
}

pub open spec fn widen_end(current: Option<u64>, end: u64) -> Option<u64> {
    match current {
        Some(c) => Some(if c >= end { c } else { end }),
        None => Some(end),
    }
}

/// The timing an utterance finishes with: from the token timestamps when
/// both ends were seen (their span clamped to 0.5..15 s), else from the
/// wall-clock time since the first useful token (`elapsed_ms`), if any.
pub open spec fn finished_timing(start: Option<u64>, end: Option<u64>, elapsed_ms: Option<u64>) -> Option<SourceUtteranceTiming> {
    match (start, end) {
        (Some(s), Some(e)) => {
            let d = clamp_u64(if e >= s { (e - s) as u64 } else { 0 }, 500, 15_000);
            Some(SourceUtteranceTiming { source_speech_duration_ms: d, available_window_ms: d, timing_method: SourceTimingMethod::SonioxTokenTimestamps })
        },
        _ => match elapsed_ms {
            Some(m) => {
                let d = clamp_u64(m, 500, 15_000);
                Some(SourceUtteranceTiming { source_speech_duration_ms: d, available_window_ms: d, timing_method: SourceTimingMethod::ResponseWallClock })
            },
            None => None,
        },
    }
}

impl UtteranceTimingAccumulator {
    /// The earliest source timestamp seen in the utterance.
    pub closed spec fn span_start(&self) -> Option<u64> {
        self.source_start_ms
    }

    /// The latest source timestamp seen in the utterance.
    pub closed spec fn span_end(&self) -> Option<u64> {
        self.source_end_ms
    }

    /// Whether the first useful token of the utterance has been seen.
    pub closed spec fn started(&self) -> bool {
        self.response_started_at is Some
    }

    pub fn new() -> (a: Self)
        ensures
            a.span_start() is None,
            a.span_end() is None,
            !a.started(),
    {
        Self { source_start_ms: None, source_end_ms: None, response_started_at: None }
    }

    /// The earliest source timestamp seen in the utterance.
    pub fn source_start_ms(&self) -> (r: Option<u64>)
        ensures
            r == self.span_start(),
    {
        self.source_start_ms
    }

    /// Marks the first useful token of the utterance (the clock is read
    /// once, at the first).
    pub fn observe_useful_token(&mut self)
        ensures
            final(self).started(),
            final(self).span_start() == old(self).span_start(),
            final(self).span_end() == old(self).span_end(),
    {
        if self.response_started_at.is_none() {
            self.response_started_at = Some(instant_now());
        }
    }

    /// Widens the source span with one token's timestamps.
    pub fn observe_source_timing(&mut self, start_ms: u64, end_ms: u64)
        ensures
            final(self).span_start() == widen_start(old(self).span_start(), start_ms),
            final(self).span_end() == widen_end(old(self).span_end(), end_ms),
            final(self).started() == old(self).started(),
    {
        self.source_start_ms = Some(match self.source_start_ms {
            Some(c) => if c <= start_ms { c } else { start_ms },
            None => start_ms,
        });
        self.source_end_ms = Some(match self.source_end_ms {
            Some(c) => if c >= end_ms { c } else { end_ms },
            None => end_ms,
        });
    }

    /// The utterance's timing given the wall-clock time since its first
    /// useful token; the accumulator starts over.
    pub fn finish_with_elapsed(&mut self, elapsed_ms: Option<u64>) -> (t: Option<SourceUtteranceTiming>)
        ensures
            t == finished_timing(old(self).span_start(), old(self).span_end(), elapsed_ms),
            final(self).span_start() is None,
            final(self).span_end() is None,
            !final(self).started(),
    {
        let timing = match (self.source_start_ms, self.source_end_ms) {
            (Some(start), Some(end)) => {
                let span = if end >= start { end - start } else { 0 };
                Some(SourceUtteranceTiming::same_as_speech(clamp_ms(span), SourceTimingMethod::SonioxTokenTimestamps))
            },
            _ => match elapsed_ms {
                Some(m) => Some(SourceUtteranceTiming::same_as_speech(clamp_ms(m), SourceTimingMethod::ResponseWallClock)),
                None => None,
            },
        };
        self.source_start_ms = None;
        self.source_end_ms = None;
        self.response_started_at = None;
        timing
    }

    /// The utterance's timing, reading the clock for the wall-clock
    /// fallback; the accumulator starts over.
    pub fn finish(&mut self) -> (t: Option<SourceUtteranceTiming>)
        ensures
            (old(self).span_start() is Some && old(self).span_end() is Some) ==>
                t == finished_timing(old(self).span_start(), old(self).span_end(), None),
            !(old(self).span_start() is Some && old(self).span_end() is Some) && !old(self).started() ==> t is None,
            !(old(self).span_start() is Some && old(self).span_end() is Some) && old(self).started() ==>
                (t matches Some(x) && x.timing_method == SourceTimingMethod::ResponseWallClock
                    && 500 <= x.source_speech_duration_ms <= 15_000
                    && x.available_window_ms == x.source_speech_duration_ms),
            final(self).span_start() is None,
            final(self).span_end() is None,
            !final(self).started(),
    {
        let elapsed = match &self.response_started_at {
            Some(at) => {
                let ns = nanos_of(&elapsed_since(at));
                let ms = ns / 1_000_000;
                Some(if ms > u64::MAX as u128 { u64::MAX } else { ms as u64 })
            },
            None => None,
        };
        self.finish_with_elapsed(elapsed)
    }
}

impl Default for UtteranceTimingAccumulator {
    fn default() -> (a: Self)
        ensures
            a.span_start() is None,
            a.span_end() is None,
            !a.started(),
    {
        Self::new()
    }
}

/// Whether a token is a final source-language token whose timestamps count
/// towards the utterance's span.
pub open spec fn is_timed_source_token(t: SonioxToken) -> bool {
    (t.translation_status is None || status_is(t.translation_status, "none"@) || status_is(t.translation_status, "original"@))
        && t.is_final && token_timing(t) is Some
}

/// The transcript pieces `tokens` add: final text, interim tail, and
/// whether an end token was kept.
pub open spec fn accumulated(m: SonioxMode, tokens: Seq<SonioxToken>) -> (Seq<char>, Seq<char>, bool)
    decreases tokens.len(),
{
    if tokens.len() == 0 {
        (Seq::empty(), Seq::empty(), false)
    } else {
        let (f, i, e) = accumulated(m, tokens.drop_last());
        let t = tokens.last();
        if !mode_accepts(m, t) {
            (f, i, e)
        } else if t.text@ == "<end>"@ {
            (f, i, true)
        } else if t.is_final {
            (f + t.text@, i, e)
        } else {
            (f, i + t.text@, e)
        }
    }
}

/// Accumulating two runs of tokens one after the other gives the same
/// final text and endpoint as accumulating them together.
pub proof fn lemma_accumulated_concat(m: SonioxMode, a: Seq<SonioxToken>, b: Seq<SonioxToken>)
    ensures
        accumulated(m, a + b).0 == accumulated(m, a).0 + accumulated(m, b).0,
        accumulated(m, a + b).2 == (accumulated(m, a).2 || accumulated(m, b).2),
    decreases b.len(),
{
    if b.len() == 0 {
        assert(a + b =~= a);
        assert(accumulated(m, a).0 + Seq::<char>::empty() =~= accumulated(m, a).0);
    } else {
        assert((a + b).drop_last() =~= a + b.drop_last());
        assert((a + b).last() == b.last());
        lemma_accumulated_concat(m, a, b.drop_last());
        let t = b.last();
        if mode_accepts(m, t) && t.text@ != "<end>"@ && t.is_final {
            assert(accumulated(m, a).0 + (accumulated(m, b.drop_last()).0 + t.text@)
                =~= (accumulated(m, a).0 + accumulated(m, b.drop_last()).0) + t.text@);
        }
    }
}

/// The source span after observing `tokens`.
pub open spec fn span_after(start: Option<u64>, end: Option<u64>, tokens: Seq<SonioxToken>) -> (Option<u64>, Option<u64>)
    decreases tokens.len(),
{
    if tokens.len() == 0 {
        (start, end)
    } else {
        let (s, e) = span_after(start, end, tokens.drop_last());
        let t = tokens.last();
        if is_timed_source_token(t) {
            let (a, b) = token_timing(t).unwrap();
            (widen_start(s, a), widen_end(e, b))
        } else {
            (s, e)
        }
    }
}

/// Whether some token of `tokens` is useful: kept by the session or timed.
pub open spec fn any_useful(m: SonioxMode, tokens: Seq<SonioxToken>) -> bool {
    exists|k: int| 0 <= k < tokens.len() && (mode_accepts(m, tokens[k]) || token_timing(tokens[k]) is Some)
}

fn is_timed_source(t: &SonioxToken) -> (b: bool)
    ensures
        b == is_timed_source_token(*t),
{
    let status_ok = match &t.translation_status {
        None => true,
        Some(s) => str_eq(s.as_str(), "none") || str_eq(s.as_str(), "original"),
    };
    status_ok && t.is_final && t.timing_ms().is_some()
}

/// Folds one Soniox response into the utterance: kept final tokens extend
/// `final_text`, kept interim tokens form the returned tail, a kept end
/// token flags the endpoint, and final source tokens widen the timing span.
pub fn accumulate_tokens(
    mode: &SonioxMode,
    response: &SonioxResponse,
    final_text: &mut String,
    timing: &mut UtteranceTimingAccumulator,
) -> (r: (String, bool))
    ensures
        ({
            let (f, i, e) = accumulated(*mode, response.tokens@);
            let (s, en) = span_after(old(timing).span_start(), old(timing).span_end(), response.tokens@);
            &&& final(final_text)@ == old(final_text)@ + f
            &&& r.0@ == i
            &&& r.1 == e
            &&& final(timing).span_start() == s
            &&& final(timing).span_end() == en
            &&& final(timing).started() == (old(timing).started() || any_useful(*mode, response.tokens@))
        }),
{
    let mut interim_tail = String::new();
    let mut endpoint_hit = false;
    let ghost base = final_text@;
    let tokens = &response.tokens;
    let mut k: usize = 0;
    while k < tokens.len()
        invariant
            k <= tokens@.len(),
            tokens@ == response.tokens@,
            ({
                let (f, i, e) = accumulated(*mode, tokens@.subrange(0, k as int));
                let (s, en) = span_after(old(timing).span_start(), old(timing).span_end(), tokens@.subrange(0, k as int));
                &&& final_text@ == base + f
                &&& interim_tail@ == i
                &&& endpoint_hit == e
                &&& timing.span_start() == s
                &&& timing.span_end() == en
                &&& timing.started() == (old(timing).started() || any_useful(*mode, tokens@.subrange(0, k as int)))
            }),
            base == old(final_text)@,
        decreases tokens@.len() - k,
    {
        let token = &tokens[k];
        let ghost prefix = tokens@.subrange(0, k + 1);
        proof {
            assert(prefix.drop_last() =~= tokens@.subrange(0, k as int));
            assert(prefix.last() == tokens@[k as int]);
        }
        let accepted = mode.accepts(token);
        let ghost was_started = timing.started();
        if accepted || token.timing_ms().is_some() {
            timing.observe_useful_token();
        }
        proof {
            let old_p = tokens@.subrange(0, k as int);
            if any_useful(*mode, prefix) {
                let j = choose|j: int| 0 <= j < prefix.len() && (mode_accepts(*mode, prefix[j]) || token_timing(prefix[j]) is Some);
                if j < k {
                    assert(old_p[j] == prefix[j]);
                }
            }
            if any_useful(*mode, old_p) {
                let j = choose|j: int| 0 <= j < old_p.len() && (mode_accepts(*mode, old_p[j]) || token_timing(old_p[j]) is Some);
                assert(prefix[j] == old_p[j]);
            }
            if accepted || token_timing(*token) is Some {
                assert(prefix[k as int] == *token);
            }
        }
        if is_timed_source(token) {
            match token.timing_ms() {
                Some((start_ms, end_ms)) => timing.observe_source_timing(start_ms, end_ms),
                None => {},
            }
        }
        if accepted {
            if str_eq(token.text.as_str(), "<end>") {
                endpoint_hit = true;
            } else if token.is_final {
                push_str(final_text, token.text.as_str());
            } else {
                push_str(&mut interim_tail, token.text.as_str());
            }
        }
        k = k + 1;
    }
    assert(tokens@.subrange(0, tokens@.len() as int) =~= tokens@);
    (interim_tail, endpoint_hit)
}

/// The playback length of mono s16le PCM at the host rate, in milliseconds
/// (at least 1).
pub fn pcm_s16le_mono_duration_ms(bytes: usize) -> (ms: u64)
    ensures
        ms == ({
            let scaled = if bytes * 1000 <= u64::MAX { bytes * 1000 } else { u64::MAX as int };
            let d = scaled / (HOST_SAMPLE_RATE as int * 2);
            if d < 1 { 1 } else { d }
        }),
{
    let bytes_per_second = HOST_SAMPLE_RATE as u64 * 2;
    let b = bytes as u64;
    let scaled = if b <= u64::MAX / 1000 { b * 1000 } else { u64::MAX };
    let d = scaled / bytes_per_second;
    if d < 1 { 1 } else { d }
}

} // verus!
