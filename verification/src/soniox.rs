//! The Soniox real-time speech service: session configuration and which
//! returned tokens a session keeps.

use vstd::prelude::*;

use crate::lang::{lang_code, Lang};
use crate::text::{join_seq, join_strings, owned, push_char, push_str, str_eq};

verus! {

pub const SONIOX_MODEL: &'static str = "stt-rt-preview";
pub const HOST_SAMPLE_RATE: u32 = 44_100;
pub const SONIOX_END_TOKEN: &'static str = "<end>";
pub const SONIOX_FIN_TOKEN: &'static str = "<fin>";

/// Whether a token marks the end of an utterance (`<end>` or `<fin>`).
pub open spec fn is_endpoint(text: Seq<char>) -> bool {
    text == "<end>"@ || text == "<fin>"@
}

pub fn is_soniox_endpoint_token(text: &str) -> (b: bool)
    ensures
        b == is_endpoint(text@),
{
    str_eq(text, SONIOX_END_TOKEN) || str_eq(text, SONIOX_FIN_TOKEN)
}

/// The configuration message that opens a Soniox session.
pub struct SonioxConfig<'a> {
    pub api_key: &'a str,
    pub model: &'a str,
    pub audio_format: &'a str,
    pub sample_rate: u32,
    pub num_channels: u32,
    pub language_hints: Vec<String>,
    pub enable_endpoint_detection: bool,
    pub max_endpoint_delay_ms: Option<u32>,
    pub context: Option<SonioxContext>,
    pub translation: Option<SonioxTranslation>,
}

pub struct SonioxContext {
    pub general: Vec<SonioxContextItem>,
}

pub struct SonioxContextItem {
    pub key: String,
    pub value: String,
}

pub struct SonioxTranslation {
    pub kind: &'static str,
    pub target_language: String,
}

/// One message from Soniox.
pub struct SonioxResponse {
    pub tokens: Vec<SonioxToken>,
    pub error_code: Option<String>,
    pub error_message: Option<String>,
}

pub struct SonioxToken {
    pub text: String,
    pub start_ms: Option<u64>,
    pub end_ms: Option<u64>,
    pub is_final: bool,
    pub translation_status: Option<String>,
}

/// A token's source timing, when it has both ends and they are in order.
pub open spec fn token_timing(t: SonioxToken) -> Option<(u64, u64)> {
    match (t.start_ms, t.end_ms) {
        (Some(s), Some(e)) => if e >= s { Some((s, e)) } else { None },
        _ => None,
    }
}

impl SonioxToken {
    pub fn timing_ms(&self) -> (r: Option<(u64, u64)>)
        ensures
            r == token_timing(*self),
    {
        match (self.start_ms, self.end_ms) {
            (Some(start), Some(end)) => if end >= start { Some((start, end)) } else { None },
            _ => None,
        }
    }
}

/// What a Soniox session produces: a transcript of the source language, or
/// a translation into a target language.
pub enum SonioxMode {
    Source { lang: Lang },
    Translate { source_lang: Lang, target_lang: Lang, terms: Vec<String> },
}

pub open spec fn mode_tag(m: SonioxMode) -> Seq<char> {
    match m {
        SonioxMode::Source { lang } => "src:"@ + lang_code(lang),
        SonioxMode::Translate { source_lang, target_lang, .. } => lang_code(source_lang).push('\u{2192}') + lang_code(target_lang),
    }
}

/// Whether a token's translation status is `translation`.
pub open spec fn status_is(status: Option<String>, s: Seq<char>) -> bool {
    match status {
        Some(x) => x@ == s,
        None => false,
    }
}

/// Whether a session in `m` keeps a token: endpoint tokens always, every
/// token for a transcript, only translated tokens for a translation.
pub open spec fn mode_accepts(m: SonioxMode, t: SonioxToken) -> bool {
    is_endpoint(t.text@) || match m {
        SonioxMode::Source { .. } => true,
        SonioxMode::Translate { .. } => status_is(t.translation_status, "translation"@),
    }
}

/// The instructions Soniox is given for live-commerce translation.
pub open spec fn instructions_text() -> Seq<char> {
    "Translate in natural spoken live-commerce style. Preserve the host's meaning, tone, prices, product names, stock counts, discounts, dates, and calls to action exactly. Do not summarize or omit details."@
}

/// The translation context items: the fixed domain, setting and
/// instructions, then the host's terms joined with ", " when there are any.
pub open spec fn context_items(terms: Seq<Seq<char>>) -> Seq<(Seq<char>, Seq<char>)> {
    let fixed = seq![
        ("domain"@, "live commerce"@),
        ("setting"@, "real-time sales livestream"@),
        ("instructions"@, instructions_text()),
    ];
    if terms.len() == 0 { fixed } else { fixed.push(("translation_terms"@, join_seq(terms, ", "@))) }
}

pub open spec fn item_views(items: Seq<SonioxContextItem>) -> Seq<(Seq<char>, Seq<char>)> {
    items.map_values(|i: SonioxContextItem| (i.key@, i.value@))
}

fn item(key: &str, value: &str) -> (i: SonioxContextItem)
    ensures
        i.key@ == key@,
        i.value@ == value@,
{
    SonioxContextItem { key: owned(key), value: owned(value) }
}

/// The live-commerce translation context for the host's terms.
pub fn live_commerce_translation_context(terms: &[String]) -> (c: SonioxContext)
    ensures
        item_views(c.general@) == context_items(terms@.map_values(|s: String| s@)),
{
    let mut general: Vec<SonioxContextItem> = Vec::new();
    general.push(item("domain", "live commerce"));
    general.push(item("setting", "real-time sales livestream"));
    general.push(item("instructions", "Translate in natural spoken live-commerce style. Preserve the host's meaning, tone, prices, product names, stock counts, discounts, dates, and calls to action exactly. Do not summarize or omit details."));
    if terms.len() > 0 {
        let joined = join_strings(terms, ", ");
        general.push(SonioxContextItem { key: owned("translation_terms"), value: joined });
    }
    assert(item_views(general@) =~= context_items(terms@.map_values(|s: String| s@)));
    SonioxContext { general }
}

impl SonioxMode {
    /// The session's tag in logs: `src:<lang>` or `<source>→<target>`.
    pub fn tag(&self) -> (t: String)
        ensures
            t@ == mode_tag(*self),
    {
        match self {
            SonioxMode::Source { lang } => {
                let mut t = owned("src:");
                let code = lang.to_string();
                push_str(&mut t, code.as_str());
                t
            },
            SonioxMode::Translate { source_lang, target_lang, .. } => {
                let mut t = source_lang.to_string();
                push_char(&mut t, '\u{2192}');
                let code = target_lang.to_string();
                push_str(&mut t, code.as_str());
                t
            },
        }
    }

    /// The target language code of a translation session.
    pub fn target_lang_string(&self) -> (r: Option<String>)
        ensures
            match *self {
                SonioxMode::Source { .. } => r is None,
                SonioxMode::Translate { target_lang, .. } => r matches Some(s) && s@ == lang_code(target_lang),
            },
    {
        match self {
            SonioxMode::Source { .. } => None,
            SonioxMode::Translate { target_lang, .. } => Some(target_lang.to_string()),
        }
    }

    /// The opening configuration of a session: the source language as the
    /// hint, endpoint detection at 500 ms, and for translation the one-way
    /// target and the live-commerce context.
    pub fn build_config<'a>(&self, api_key: &'a str) -> (c: SonioxConfig<'a>)
        ensures
            c.api_key == api_key,
            c.model@ == SONIOX_MODEL@,
            c.audio_format@ == "pcm_s16le"@,
            c.sample_rate == HOST_SAMPLE_RATE,
            c.num_channels == 1,
            c.enable_endpoint_detection,
            c.max_endpoint_delay_ms == Some(500u32),
            c.language_hints@.len() == 1,
            match *self {
                SonioxMode::Source { lang } => {
                    &&& c.language_hints@[0]@ == lang_code(lang)
                    &&& c.translation is None
                    &&& c.context is None
                },
                SonioxMode::Translate { source_lang, target_lang, terms } => {
                    &&& c.language_hints@[0]@ == lang_code(source_lang)
                    &&& c.translation matches Some(t) && t.kind@ == "one_way"@ && t.target_language@ == lang_code(target_lang)
                    &&& c.context matches Some(ctx) && item_views(ctx.general@) == context_items(terms@.map_values(|s: String| s@))
                },
            },
    {
        let (hint_lang, translation, context) = match self {
            SonioxMode::Source { lang } => (lang.to_string(), None, None),
            SonioxMode::Translate { source_lang, target_lang, terms } => (
                source_lang.to_string(),
                Some(SonioxTranslation { kind: "one_way", target_language: target_lang.to_string() }),
                Some(live_commerce_translation_context(terms.as_slice())),
            ),
        };
        let mut language_hints: Vec<String> = Vec::new();
        language_hints.push(hint_lang);
        SonioxConfig {
            api_key,
            model: SONIOX_MODEL,
            audio_format: "pcm_s16le",
            sample_rate: HOST_SAMPLE_RATE,
            num_channels: 1,
            language_hints,
            enable_endpoint_detection: true,
            max_endpoint_delay_ms: Some(500),
            context,
            translation,
        }
    }

    /// Whether the session keeps a token.
    pub fn accepts(&self, token: &SonioxToken) -> (b: bool)
        ensures
            b == mode_accepts(*self, *token),
    {
        if is_soniox_endpoint_token(token.text.as_str()) {
            return true;
        }
        match self {
            SonioxMode::Source { .. } => true,
            SonioxMode::Translate { .. } => match &token.translation_status {
                Some(s) => str_eq(s.as_str(), "translation"),
                None => false,
            },
        }
    }
}

} // verus!
