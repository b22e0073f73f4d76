//! Text-to-speech decisions: which voice speaks, how long a synthesis may
//! take, how far a translation may run behind, and how live-commerce text is
//! shortened when the dubbed audio falls behind the host.

use std::time::Duration;
use vstd::prelude::*;

use crate::config::elevenlabs_voices_for;
use crate::lang::{lang_code, Lang};
use crate::messages::ServerMsg;
use crate::text::{contains_chars, contains_seq, chars_of, is_space, is_space_char, owned, push_str};
use crate::tts_text::{live_commerce_text_for_policy, text_for_policy};
use crate::time::{duration_from_millis, duration_nanos};

verus! {

/// The voice a session asked for.
#[derive(Debug, Clone, Copy, PartialEq, Eq, Structural)]
pub enum VoicePreset {
    Female,
    Male,
    Cloned,
}

/// Inputs to the voice-selection decision.
pub struct ResolveVoiceArgs<'a> {
    pub selected_voice_id: Option<&'a str>,
    pub enrollment_lang: Option<&'a Lang>,
    pub target_lang: &'a Lang,
    pub voice_preset: VoicePreset,
    pub force_default_voice: bool,
}

/// The voice to request and whether it is a cloned voice.
pub struct ResolvedVoice {
    pub voice_id: String,
    pub is_cloned: bool,
}

/// The library voice of `lang` for a preset: the male voice for `Male`,
/// the female voice otherwise.
pub open spec fn default_voice_id(lang: Lang, preset: VoicePreset) -> Seq<char> {
    if preset == VoicePreset::Male {
        elevenlabs_voices_for(lang_code(lang)).1
    } else {
        elevenlabs_voices_for(lang_code(lang)).0
    }
}

/// The voice decision: the kill-switch forces the female default; `Female`
/// and `Male` take the matching default; `Cloned` keeps the selected clone
/// whatever the languages, and falls back to the female default without one.
pub open spec fn resolved_voice(
    selected: Option<Seq<char>>,
    target: Lang,
    preset: VoicePreset,
    force_default: bool,
) -> (Seq<char>, bool) {
    if force_default {
        (default_voice_id(target, VoicePreset::Female), false)
    } else {
        match preset {
            VoicePreset::Female => (default_voice_id(target, VoicePreset::Female), false),
            VoicePreset::Male => (default_voice_id(target, VoicePreset::Male), false),
            VoicePreset::Cloned => match selected {
                Some(id) => (id, true),
                None => (default_voice_id(target, VoicePreset::Female), false),
            },
        }
    }
}

pub open spec fn selected_view(selected: Option<&str>) -> Option<Seq<char>> {
    match selected {
        Some(s) => Some(s@),
        None => None,
    }
}

/// The library voice of a language for a preset.
pub fn default_voice(target_lang: &Lang, preset: VoicePreset) -> (v: ResolvedVoice)
    ensures
        v.voice_id@ == default_voice_id(*target_lang, preset),
        !v.is_cloned,
{
    let voice_id = match preset {
        VoicePreset::Male => target_lang.voice_id_male(),
        _ => target_lang.voice_id_female(),
    };
    ResolvedVoice { voice_id: owned(voice_id), is_cloned: false }
}

/// Chooses the voice for one synthesis.
pub fn resolve_voice(args: ResolveVoiceArgs<'_>) -> (v: ResolvedVoice)
    ensures
        (v.voice_id@, v.is_cloned) == resolved_voice(
            selected_view(args.selected_voice_id),
            *args.target_lang,
            args.voice_preset,
            args.force_default_voice,
        ),
{
    if args.force_default_voice {
        return default_voice(args.target_lang, VoicePreset::Female);
    }
    match args.voice_preset {
        VoicePreset::Female => default_voice(args.target_lang, VoicePreset::Female),
        VoicePreset::Male => default_voice(args.target_lang, VoicePreset::Male),
        VoicePreset::Cloned => match args.selected_voice_id {
            Some(clone_id) => ResolvedVoice { voice_id: owned(clone_id), is_cloned: true },
            None => default_voice(args.target_lang, VoicePreset::Female),
        },
    }
}

pub const TTS_DEADLINE_FLOOR_MS: u64 = 5_000;
pub const TTS_DEADLINE_PER_CHAR_MS: u64 = 120;
pub const TTS_DEADLINE_CEILING_MS: u64 = 30_000;

/// The synthesis deadline for a text of `chars` characters: 5 s plus 120 ms
/// a character, at most 30 s.
pub open spec fn tts_deadline_ms(chars: nat) -> nat {
    let raw = TTS_DEADLINE_FLOOR_MS as nat + chars * (TTS_DEADLINE_PER_CHAR_MS as nat);
    if raw < TTS_DEADLINE_CEILING_MS { raw } else { TTS_DEADLINE_CEILING_MS as nat }
}

/// The synthesis deadline of an utterance, from its character count.
pub fn compute_tts_deadline(text: &str) -> (d: Duration)
    ensures
        duration_nanos(d) == tts_deadline_ms(text@.len()) * 1_000_000,
{
    let char_count = text.unicode_len() as u64;
    let ms = if char_count > 208 {
        TTS_DEADLINE_CEILING_MS
    } else {
        TTS_DEADLINE_FLOOR_MS + char_count * TTS_DEADLINE_PER_CHAR_MS
    };
    duration_from_millis(ms)
}

pub const TTS_EXPANSION_NORMAL_MILLI: u32 = 1_200;
pub const TTS_EXPANSION_CATCHUP_MILLI: u32 = 1_500;
pub const TTS_CONCISE_BACKLOG_MS: u64 = 5_000;
pub const TTS_HARD_RECOVERY_BACKLOG_MS: u64 = 15_000;

/// How hard the dubbing must catch up with the host.
#[derive(Debug, Clone, Copy, PartialEq, Eq, Structural)]
pub enum TtsExpansionPolicy {
    Normal,
    CatchUp,
    Concise,
    HardRecovery,
}

pub open spec fn policy_label(p: TtsExpansionPolicy) -> Seq<char> {
    match p {
        TtsExpansionPolicy::Normal => "normal"@,
        TtsExpansionPolicy::CatchUp => "catch_up"@,
        TtsExpansionPolicy::Concise => "concise"@,
        TtsExpansionPolicy::HardRecovery => "hard_recovery"@,
    }
}

impl TtsExpansionPolicy {
    /// The policy's name in logs and segment metadata.
    pub fn as_str(self) -> (s: &'static str)
        ensures
            s@ == policy_label(self),
    {
        match self {
            TtsExpansionPolicy::Normal => "normal",
            TtsExpansionPolicy::CatchUp => "catch_up",
            TtsExpansionPolicy::Concise => "concise",
            TtsExpansionPolicy::HardRecovery => "hard_recovery",
        }
    }
}

/// The policy for a measured expansion ratio (per mille of the source
/// duration) and a TTS backlog: a backlog of 15 s or more is hard recovery,
/// 5 s or more is concise; otherwise a ratio over 1.5 is concise, over 1.2
/// catch-up, and anything else (or no measurement) normal.
pub open spec fn expansion_policy(ratio_milli: Option<u32>, backlog_ms: u64) -> TtsExpansionPolicy {
    if backlog_ms >= TTS_HARD_RECOVERY_BACKLOG_MS {
        TtsExpansionPolicy::HardRecovery
    } else if backlog_ms >= TTS_CONCISE_BACKLOG_MS {
        TtsExpansionPolicy::Concise
    } else {
        match ratio_milli {
            None => TtsExpansionPolicy::Normal,
            Some(r) => if r > TTS_EXPANSION_CATCHUP_MILLI {
                TtsExpansionPolicy::Concise
            } else if r > TTS_EXPANSION_NORMAL_MILLI {
                TtsExpansionPolicy::CatchUp
            } else {
                TtsExpansionPolicy::Normal
            },
        }
    }
}

/// Classifies how far the dubbing runs behind.
pub fn classify_tts_expansion(expansion_ratio_milli: Option<u32>, backlog_ms: u64) -> (p: TtsExpansionPolicy)
    ensures
        p == expansion_policy(expansion_ratio_milli, backlog_ms),
{
    if backlog_ms >= TTS_HARD_RECOVERY_BACKLOG_MS {
        return TtsExpansionPolicy::HardRecovery;
    }
    if backlog_ms >= TTS_CONCISE_BACKLOG_MS {
        return TtsExpansionPolicy::Concise;
    }
    match expansion_ratio_milli {
        None => TtsExpansionPolicy::Normal,
        Some(ratio) => if ratio > TTS_EXPANSION_CATCHUP_MILLI {
            TtsExpansionPolicy::Concise
        } else if ratio > TTS_EXPANSION_NORMAL_MILLI {
            TtsExpansionPolicy::CatchUp
        } else {
            TtsExpansionPolicy::Normal
        },
    }
}

/// How many characters of `s` are not white space.
pub open spec fn count_non_space(s: Seq<char>) -> nat
    decreases s.len(),
{
    if s.len() == 0 {
        0
    } else {
        count_non_space(s.drop_last()) + if is_space(s.last()) { 0nat } else { 1nat }
    }
}

/// Characters a speaker of the language says per second: 8 for Japanese
/// and Chinese, 7 for Korean, 13 for the alphabetic languages.
pub open spec fn chars_per_second(lang: Lang) -> nat {
    match lang {
        Lang::Ja | Lang::Zh => 8,
        Lang::Ko => 7,
        Lang::En | Lang::Ru => 13,
    }
}

/// The estimated speaking time of `text`: its non-space characters at the
/// language's rate, between 1 s and 15 s (1 s for a blank text).
pub open spec fn estimated_source_ms(text: Seq<char>, lang: Lang) -> nat {
    let n = count_non_space(text);
    if n == 0 {
        1_000
    } else {
        let scaled = if n * 1_000 <= u64::MAX { n * 1_000 } else { u64::MAX as nat };
        let d = scaled / chars_per_second(lang);
        if d < 1_000 { 1_000 } else if d > 15_000 { 15_000 } else { d }
    }
}

/// Estimates how long the source speaker took to say `text`.
pub fn estimate_source_duration_ms(text: &str, lang: &Lang) -> (ms: u64)
    ensures
        ms == estimated_source_ms(text@, *lang),
{
    let n = text.unicode_len();
    let mut chars: u64 = 0;
    let mut i: usize = 0;
    while i < n
        invariant
            n == text@.len(),
            i <= n,
            chars == count_non_space(text@.subrange(0, i as int)),
            chars <= i,
        decreases n - i,
    {
        proof {
            assert(text@.subrange(0, i + 1).drop_last() =~= text@.subrange(0, i as int));
        }
        if !is_space_char(text.get_char(i)) {
            chars = chars + 1;
        }
        i = i + 1;
    }
    assert(text@.subrange(0, n as int) =~= text@);
    if chars == 0 {
        return 1_000;
    }
    let cps: u64 = match lang {
        Lang::Ja | Lang::Zh => 8,
        Lang::Ko => 7,
        Lang::En | Lang::Ru => 13,
    };
    let scaled = if chars <= u64::MAX / 1_000 { chars * 1_000 } else { u64::MAX };
    let d = scaled / cps;
    if d < 1_000 { 1_000 } else if d > 15_000 { 15_000 } else { d }
}

/// The synthesized duration per mille of the estimated source duration,
/// capped at `u32::MAX`; none without an estimate.
pub open spec fn expansion_ratio(tts_ms: u64, source_ms: u64) -> Option<u32> {
    if source_ms == 0 {
        None
    } else {
        let scaled = if tts_ms * 1_000 <= u64::MAX { tts_ms * 1_000 } else { u64::MAX as int };
        let r = scaled / (source_ms as int);
        Some(if r > u32::MAX { u32::MAX } else { r as u32 })
    }
}

/// How much longer the dubbed audio is than the source speech.
pub fn expansion_ratio_milli(tts_duration_ms: u64, estimated_source_duration_ms: u64) -> (r: Option<u32>)
    ensures
        r == expansion_ratio(tts_duration_ms, estimated_source_duration_ms),
{
    if estimated_source_duration_ms == 0 {
        return None;
    }
    let scaled = if tts_duration_ms <= u64::MAX / 1_000 { tts_duration_ms * 1_000 } else { u64::MAX };
    let d = scaled / estimated_source_duration_ms;
    Some(if d > u32::MAX as u64 { u32::MAX } else { d as u32 })
}

/// The longest text the policy lets the language speak.
pub open spec fn max_text_chars(lang: Lang, policy: TtsExpansionPolicy) -> nat {
    match lang {
        Lang::Ja | Lang::Zh => match policy {
            TtsExpansionPolicy::HardRecovery => 34,
            TtsExpansionPolicy::Concise => 48,
            _ => 90,
        },
        Lang::Ko => match policy {
            TtsExpansionPolicy::HardRecovery => 42,
            TtsExpansionPolicy::Concise => 58,
            _ => 110,
        },
        Lang::En | Lang::Ru => match policy {
            TtsExpansionPolicy::HardRecovery => 58,
            TtsExpansionPolicy::Concise => 78,
            _ => 130,
        },
    }
}

/// The character cap on the spoken text for a language and policy.
pub fn max_tts_text_chars(target_lang: &Lang, policy: TtsExpansionPolicy) -> (n: usize)
    ensures
        n == max_text_chars(*target_lang, policy),
{
    match target_lang {
        Lang::Ja | Lang::Zh => match policy {
            TtsExpansionPolicy::HardRecovery => 34,
            TtsExpansionPolicy::Concise => 48,
            _ => 90,
        },
        Lang::Ko => match policy {
            TtsExpansionPolicy::HardRecovery => 42,
            TtsExpansionPolicy::Concise => 58,
            _ => 110,
        },
        Lang::En | Lang::Ru => match policy {
            TtsExpansionPolicy::HardRecovery => 58,
            TtsExpansionPolicy::Concise => 78,
            _ => 130,
        },
    }
}

/// The kill-switch always wins: a forced default never speaks with a clone,
/// and speaks with the target language's female library voice.
pub proof fn lemma_forced_default_voice(selected: Option<Seq<char>>, target: Lang, preset: VoicePreset)
    ensures
        resolved_voice(selected, target, preset, true) == (default_voice_id(target, VoicePreset::Female), false),
{
}

/// The text synthesized for a backlog, and the policy it was chosen under:
/// under concise or hard-recovery pressure the live-commerce shortening of
/// the text, otherwise the text as it is.
pub open spec fn text_for_backlog(text: Seq<char>, lang: Lang, backlog_ms: u64) -> (Seq<char>, TtsExpansionPolicy) {
    let policy = expansion_policy(None, backlog_ms);
    if policy == TtsExpansionPolicy::Concise || policy == TtsExpansionPolicy::HardRecovery {
        (text_for_policy(text, lang, policy), policy)
    } else {
        (text, policy)
    }
}

/// Chooses the text to synthesize before any audio is measured.
pub fn tts_text_for_backlog(text: &str, target_lang: &Lang, backlog_ms: u64) -> (r: (String, TtsExpansionPolicy))
    ensures
        (r.0@, r.1) == text_for_backlog(text@, *target_lang, backlog_ms),
{
    let policy = classify_tts_expansion(None, backlog_ms);
    match policy {
        TtsExpansionPolicy::Concise | TtsExpansionPolicy::HardRecovery => {
            (live_commerce_text_for_policy(text, target_lang, policy), policy)
        },
        _ => (owned(text), policy),
    }
}

/// The ElevenLabs streaming endpoint for a voice.
pub open spec fn tts_url_spec(base_url: Seq<char>, voice_id: Seq<char>) -> Seq<char> {
    base_url + "/v1/text-to-speech/"@ + voice_id + "/stream?output_format=mp3_44100_128"@
}

/// The URL a synthesis request streams MP3 from.
pub fn tts_stream_url(base_url: &str, voice_id: &str) -> (url: String)
    ensures
        url@ == tts_url_spec(base_url@, voice_id@),
{
    let mut url = owned(base_url);
    push_str(&mut url, "/v1/text-to-speech/");
    push_str(&mut url, voice_id);
    push_str(&mut url, "/stream?output_format=mp3_44100_128");
    url
}

/// What one synthesis request produced.
pub enum TtsFetchResult {
    Audio(Vec<u8>),
    VoiceNotFound,
    NoAudio,
}

/// The outcome of a request from its HTTP status (none when the request
/// failed or timed out), the body of a failed response, and the audio
/// streamed: audio on a 2xx status with a non-empty stream; a missing voice
/// on a 404 whose body says `voice_not_found`; no audio otherwise.
pub open spec fn fetch_outcome_kind(status: Option<u16>, body: Seq<char>, audio_len: nat) -> int {
    match status {
        Some(code) => if 200 <= code <= 299 {
            if audio_len > 0 { 0 } else { 2 }
        } else if code == 404 && contains_seq(body, "voice_not_found"@) {
            1
        } else {
            2
        },
        None => 2,
    }
}

/// Classifies what a synthesis request produced.
pub fn tts_fetch_result(status: Option<u16>, body: &str, audio: Vec<u8>) -> (r: TtsFetchResult)
    ensures
        fetch_outcome_kind(status, body@, audio@.len()) == 0 ==> (r matches TtsFetchResult::Audio(a) && a@ == audio@),
        fetch_outcome_kind(status, body@, audio@.len()) == 1 ==> r is VoiceNotFound,
        fetch_outcome_kind(status, body@, audio@.len()) == 2 ==> r is NoAudio,
{
    match status {
        Some(code) => {
            if 200 <= code && code <= 299 {
                if audio.len() > 0 {
                    TtsFetchResult::Audio(audio)
                } else {
                    TtsFetchResult::NoAudio
                }
            } else if code == 404 && contains_chars(&chars_of(body), &chars_of("voice_not_found")) {
                TtsFetchResult::VoiceNotFound
            } else {
                TtsFetchResult::NoAudio
            }
        },
        None => TtsFetchResult::NoAudio,
    }
}

/// What the dispatch does after a request.
pub enum TtsFetchStep {
    Deliver(Vec<u8>),
    RetryWithDefaultVoice,
    Drop,
}

/// Audio is delivered; a cloned voice that the service no longer knows is
/// retried once with the female library voice; anything else drops the
/// utterance.
pub fn tts_fetch_step(result: TtsFetchResult, is_cloned: bool) -> (step: TtsFetchStep)
    ensures
        match result {
            TtsFetchResult::Audio(a) => step matches TtsFetchStep::Deliver(b) && b@ == a@,
            TtsFetchResult::VoiceNotFound => if is_cloned { step is RetryWithDefaultVoice } else { step is Drop },
            TtsFetchResult::NoAudio => step is Drop,
        },
{
    match result {
        TtsFetchResult::Audio(buf) => TtsFetchStep::Deliver(buf),
        TtsFetchResult::VoiceNotFound => if is_cloned { TtsFetchStep::RetryWithDefaultVoice } else { TtsFetchStep::Drop },
        TtsFetchResult::NoAudio => TtsFetchStep::Drop,
    }
}

/// The playback length of decoded TTS PCM (mono s16le at 44.1 kHz), in
/// milliseconds.
pub open spec fn pcm_duration_ms(pcm_len: nat) -> nat {
    let scaled = if pcm_len * 1_000 <= u64::MAX { pcm_len * 1_000 } else { u64::MAX as nat };
    scaled / 88_200
}

/// How long the decoded TTS audio plays.
pub fn tts_pcm_duration_ms(pcm_len: usize) -> (ms: u64)
    ensures
        ms == pcm_duration_ms(pcm_len as nat),
{
    let n = pcm_len as u64;
    let scaled = if n <= u64::MAX / 1_000 { n * 1_000 } else { u64::MAX };
    scaled / 88_200
}

/// The policy recorded with a synthesized segment, once its audio is
/// measured against the estimated source duration.
pub fn measured_tts_policy(pcm_len: usize, estimated_source_duration_ms: u64, initial_backlog_ms: u64) -> (p: TtsExpansionPolicy)
    ensures
        p == expansion_policy(
            expansion_ratio(pcm_duration_ms(pcm_len as nat) as u64, estimated_source_duration_ms),
            initial_backlog_ms,
        ),
{
    let tts_ms = tts_pcm_duration_ms(pcm_len);
    let ratio = expansion_ratio_milli(tts_ms, estimated_source_duration_ms);
    classify_tts_expansion(ratio, initial_backlog_ms)
}

/// What the host is told once a dispatch step is reached: after delivered
/// audio, while the live session is still there, that the utterance's TTS
/// ended (with its language and how long synthesis took) and then that
/// its video clip ended; nothing after a retry or a drop, or once the
/// session is gone.
pub fn host_tts_notifications(step: &TtsFetchStep, session_live: bool, lang: &str, utterance_id: u64, tts_ms: u64) -> (msgs: Vec<ServerMsg>)
    ensures
        (step is Deliver && session_live) ==> {
            &&& msgs@.len() == 2
            &&& msgs@[0] matches ServerMsg::TtsEnd { lang: l, utterance_id: u, tts_ms: t }
                && l@ == lang@ && u == utterance_id && t == tts_ms
            &&& msgs@[1] matches ServerMsg::VideoEnd { utterance_id: v } && v == utterance_id
        },
        !(step is Deliver && session_live) ==> msgs@.len() == 0,
{
    let mut msgs: Vec<ServerMsg> = Vec::new();
    if session_live {
        match step {
            TtsFetchStep::Deliver(_) => {
                msgs.push(ServerMsg::TtsEnd { lang: owned(lang), utterance_id, tts_ms });
                msgs.push(ServerMsg::VideoEnd { utterance_id });
            },
            _ => {},
        }
    }
    msgs
}

} // verus!
