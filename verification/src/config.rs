//! Fixed settings of the broadcast pipeline.

use vstd::prelude::*;

use crate::text::str_eq;

verus! {

pub const MSG_TAG_AUDIO: u8 = 0x01;
pub const MSG_TAG_VIDEO: u8 = 0x02;

pub const SAMPLE_RATE: u32 = 44100;
pub const CHANNELS: u16 = 1;
pub const BITS_PER_SAMPLE: u16 = 16;

pub const MAX_BODY_SIZE: usize = 20971520;

pub const DEFAULT_BROADCAST_DELAY_MS: u64 = 3000;
pub const DEFAULT_TTS_MODEL: &'static str = "eleven_turbo_v2_5";
pub const DEFAULT_VOICE_ID: &'static str = "21m00Tcm4TlvDq8ikWAM";
pub const DEFAULT_TTS_PROVIDER: &'static str = "elevenlabs";
pub const DASHSCOPE_TTS_MODEL_VC: &'static str = "qwen3-tts-vc-realtime-2026-01-15";

pub const TTS_DEADLINE_CAP_MS: u64 = 10_000;
pub const TTS_DEADLINE_MARGIN_MS: u64 = 500;
pub const TTS_DEADLINE_FLOOR_MS: u64 = 3_000;

pub const STT_RECONNECT_MAX: u32 = 5;
pub const STT_RECONNECT_DELAY_SECS: u64 = 1;

pub const SONIOX_MAX_ENDPOINT_DELAY_MS: u64 = 1500;

pub const TIER_SUBTITLES_ONLY: u8 = 1;

/// The ElevenLabs library voices (female, male) for a language code.
pub open spec fn elevenlabs_voices_for(lang: Seq<char>) -> (Seq<char>, Seq<char>) {
    if lang == "zh"@ {
        ("9lHjugDhwqoxA5MhX0az"@, "brChkoggsUHF1stW6omH"@)
    } else if lang == "ja"@ {
        ("xwDy9oDEtzWzFo6FqAI9"@, "LIisRj2veIKEBdr6KZ5y"@)
    } else if lang == "ko"@ {
        ("zgDzx5jLLCqEp6Fl7Kl7"@, "m3gJBS8OofDJfycyA2Ip"@)
    } else if lang == "ru"@ {
        ("gelrownZgbRhxH6LI78J"@, "85bJFRap3VIXOThFHxk3"@)
    } else {
        ("4CrZuIW9am7gYAxgo2Af"@, "JdwJ7jL68CWmQZuo7KgG"@)
    }
}

/// Per-language default voice for ElevenLabs (built-in/library voices).
/// Returns (female_voice_id, male_voice_id).
pub fn elevenlabs_default_voices(lang: &str) -> (r: (&'static str, &'static str))
    ensures
        (r.0@, r.1@) == elevenlabs_voices_for(lang@),
{
    if str_eq(lang, "zh") {
        ("9lHjugDhwqoxA5MhX0az", "brChkoggsUHF1stW6omH")
    } else if str_eq(lang, "ja") {
        ("xwDy9oDEtzWzFo6FqAI9", "LIisRj2veIKEBdr6KZ5y")
    } else if str_eq(lang, "ko") {
        ("zgDzx5jLLCqEp6Fl7Kl7", "m3gJBS8OofDJfycyA2Ip")
    } else if str_eq(lang, "ru") {
        ("gelrownZgbRhxH6LI78J", "85bJFRap3VIXOThFHxk3")
    } else {
        ("4CrZuIW9am7gYAxgo2Af", "JdwJ7jL68CWmQZuo7KgG")
    }
}

/// Per-language default voice for DashScope/Qwen3-TTS (preset voices): the
/// same pair for every language.
pub fn dashscope_default_voices(lang: &str) -> (r: (&'static str, &'static str))
    ensures
        r.0@ == "Cherry"@,
        r.1@ == "Ethan"@,
{
    ("Cherry", "Ethan")
}

} // verus!
