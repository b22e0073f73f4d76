//! Host-session setup decisions: the kill-switches of the pipeline
//! configuration, the publish URL of a destination, and how a destination's
//! language decides its role.

use vstd::prelude::*;

use crate::config::{DASHSCOPE_TTS_MODEL_VC, DEFAULT_TTS_MODEL};
use crate::lang::{lang_of_code, Lang};
use crate::text::{
    chars_of, owned, push_str, split_pieces, split_state, starts_with_seq, str_eq, string_of, trim_chars, trim_seq,
};

verus! {

/// The credentials and kill-switches one live session's pipeline runs with.
pub struct PipelineConfig {
    pub soniox_api_key: String,
    pub soniox_ws_url: String,
    pub elevenlabs_api_key: String,
    pub elevenlabs_base_url: String,
    pub force_default_voice: bool,
    pub force_rtmp_not_rtmps: bool,
}

/// The server-wide settings a pipeline configuration is taken from.
pub struct BroadcastState {
    pub soniox_api_key: String,
    pub soniox_ws_url: String,
    pub elevenlabs_api_key: String,
    pub elevenlabs_base_url: String,
    pub force_default_voice: bool,
    pub force_rtmp_not_rtmps: bool,
}

impl BroadcastState {
    /// Settings with no credentials and both kill-switches off.
    pub fn new() -> (s: Self)
        ensures
            s.soniox_api_key@.len() == 0,
            s.soniox_ws_url@.len() == 0,
            s.elevenlabs_api_key@.len() == 0,
            s.elevenlabs_base_url@.len() == 0,
            !s.force_default_voice,
            !s.force_rtmp_not_rtmps,
    {
        BroadcastState {
            soniox_api_key: String::new(),
            soniox_ws_url: String::new(),
            elevenlabs_api_key: String::new(),
            elevenlabs_base_url: String::new(),
            force_default_voice: false,
            force_rtmp_not_rtmps: false,
        }
    }
}

/// The pipeline configuration of a new live session: every field copied
/// from the server settings.
pub fn pipeline_config_from(state: &BroadcastState) -> (c: PipelineConfig)
    ensures
        c.soniox_api_key@ == state.soniox_api_key@,
        c.soniox_ws_url@ == state.soniox_ws_url@,
        c.elevenlabs_api_key@ == state.elevenlabs_api_key@,
        c.elevenlabs_base_url@ == state.elevenlabs_base_url@,
        c.force_default_voice == state.force_default_voice,
        c.force_rtmp_not_rtmps == state.force_rtmp_not_rtmps,
{
    PipelineConfig {
        soniox_api_key: owned(state.soniox_api_key.as_str()),
        soniox_ws_url: owned(state.soniox_ws_url.as_str()),
        elevenlabs_api_key: owned(state.elevenlabs_api_key.as_str()),
        elevenlabs_base_url: owned(state.elevenlabs_base_url.as_str()),
        force_default_voice: state.force_default_voice,
        force_rtmp_not_rtmps: state.force_rtmp_not_rtmps,
    }
}

/// The URL under the RTMP-not-RTMPS kill-switch: with the switch on, an
/// `rtmps://` URL becomes `rtmp://` with the same rest; anything else is
/// kept.
pub open spec fn downgraded_url(url: Seq<char>, force_rtmp: bool) -> Seq<char> {
    if force_rtmp && starts_with_seq(url, "rtmps://"@) {
        "rtmp://"@ + url.subrange(8, url.len() as int)
    } else {
        url
    }
}

/// Applies the RTMP-not-RTMPS kill-switch to a publish URL.
pub fn maybe_downgrade_rtmps(url: &str, force_rtmp: bool) -> (r: String)
    ensures
        r@ == downgraded_url(url@, force_rtmp),
{
    proof {
        reveal_strlit("rtmps://");
    }
    if force_rtmp {
        let n = url.unicode_len();
        if n >= 8 && str_eq(url.substring_char(0, 8), "rtmps://") {
            let mut r = owned("rtmp://");
            push_str(&mut r, url.substring_char(8, n));
            return r;
        }
        proof {
            if starts_with_seq(url@, "rtmps://"@) {
                assert(url@.subrange(0, 8) =~= "rtmps://"@);
            }
        }
    }
    owned(url)
}

/// The publish URL of a destination: the server URL when the stream key is
/// empty, else the server URL without trailing slashes, a slash, and the
/// key.
pub open spec fn destination_url_spec(rtmp_url: Seq<char>, stream_key: Seq<char>) -> Seq<char> {
    if stream_key.len() == 0 {
        rtmp_url
    } else {
        trim_trailing_slashes(rtmp_url) + "/"@ + stream_key
    }
}

/// `s` without trailing `/`.
pub open spec fn trim_trailing_slashes(s: Seq<char>) -> Seq<char>
    decreases s.len(),
{
    if s.len() > 0 && s.last() == '/' { trim_trailing_slashes(s.drop_last()) } else { s }
}

/// Joins a server URL and a stream key.
pub fn destination_url(rtmp_url: &str, stream_key: &str) -> (r: String)
    ensures
        r@ == destination_url_spec(rtmp_url@, stream_key@),
{
    if stream_key.unicode_len() == 0 {
        return owned(rtmp_url);
    }
    let mut end = rtmp_url.unicode_len();
    assert(rtmp_url@.subrange(0, end as int) =~= rtmp_url@);
    while end > 0 && rtmp_url.get_char(end - 1) == '/'
        invariant
            end <= rtmp_url@.len(),
            trim_trailing_slashes(rtmp_url@) == trim_trailing_slashes(rtmp_url@.subrange(0, end as int)),
        decreases end,
    {
        assert(rtmp_url@.subrange(0, end as int).drop_last() =~= rtmp_url@.subrange(0, end - 1));
        end = end - 1;
    }
    let mut r = owned(rtmp_url.substring_char(0, end));
    push_str(&mut r, "/");
    push_str(&mut r, stream_key);
    r
}

/// The destination language that asks for the host audio unchanged.
pub const PASS_LANG_CODE: &'static str = "pass";

/// The role of an output stream.
#[derive(Debug, Clone, Copy, PartialEq, Eq, Structural)]
pub struct StreamRole {
    pub is_source: bool,
    pub passthrough: bool,
}

/// A `pass` stream is a passthrough, and plays the source; a stream in the
/// source language plays the source; any other stream is dubbed.
pub open spec fn stream_role_spec(stream_lang: Seq<char>, source: Lang) -> StreamRole {
    let passthrough = stream_lang == "pass"@;
    let source_match = lang_of_code(stream_lang) == Some(source);
    StreamRole { is_source: passthrough || source_match, passthrough }
}

/// Decides a stream's role from its language.
pub fn resolve_stream_role(stream_lang: &str, source_lang: &Lang) -> (r: StreamRole)
    ensures
        r == stream_role_spec(stream_lang@, *source_lang),
{
    let passthrough = str_eq(stream_lang, PASS_LANG_CODE);
    let source_match = match Lang::from_str(stream_lang) {
        Some(l) => l == *source_lang,
        None => false,
    };
    StreamRole { is_source: passthrough || source_match, passthrough }
}

/// The languages a comma-separated list names, in order: each piece,
/// trimmed, that is a language code (others are skipped).
pub open spec fn langs_of_pieces(pieces: Seq<Seq<char>>) -> Seq<Lang>
    decreases pieces.len(),
{
    if pieces.len() == 0 {
        Seq::empty()
    } else {
        let prev = langs_of_pieces(pieces.drop_last());
        match lang_of_code(trim_seq(pieces.last())) {
            Some(l) => prev.push(l),
            None => prev,
        }
    }
}

/// Parses the `target_langs` query parameter of a host connection.
pub fn parse_target_langs(raw: &str) -> (langs: Vec<Lang>)
    ensures
        langs@ == langs_of_pieces(split_pieces(raw@, ',')),
{
    let v = chars_of(raw);
    let n = v.len();
    let mut langs: Vec<Lang> = Vec::new();
    let mut cur: Vec<char> = Vec::new();
    let mut i: usize = 0;
    while i < n
        invariant
            n == v@.len(),
            v@ == raw@,
            i <= n,
            cur@ == split_state(v@.subrange(0, i as int), ',').1,
            langs@ == langs_of_pieces(split_state(v@.subrange(0, i as int), ',').0),
        decreases n - i,
    {
        proof {
            assert(v@.subrange(0, i + 1).drop_last() =~= v@.subrange(0, i as int));
        }
        if v[i] == ',' {
            let ghost done = split_state(v@.subrange(0, i as int), ',').0;
            proof {
                assert(done.push(cur@).drop_last() =~= done);
            }
            let t = string_of(&trim_chars(&cur));
            match Lang::from_str(t.as_str()) {
                Some(l) => langs.push(l),
                None => {},
            }
            cur = Vec::new();
        } else {
            cur.push(v[i]);
        }
        i = i + 1;
    }
    let ghost done = split_state(v@.subrange(0, n as int), ',').0;
    proof {
        assert(v@.subrange(0, n as int) =~= v@);
        assert(done.push(cur@).drop_last() =~= done);
    }
    let t = string_of(&trim_chars(&cur));
    match Lang::from_str(t.as_str()) {
        Some(l) => langs.push(l),
        None => {},
    }
    langs
}

/// The TTS model a session runs: DashScope's voice-clone realtime model
/// for the `dashscope` provider; otherwise ElevenLabs Flash when `flash`
/// is asked for, else the default ElevenLabs model.
pub open spec fn tts_model_for(model: Seq<char>, provider: Seq<char>) -> Seq<char> {
    if provider == "dashscope"@ {
        DASHSCOPE_TTS_MODEL_VC@
    } else if model == "flash"@ {
        "eleven_flash_v2_5"@
    } else {
        DEFAULT_TTS_MODEL@
    }
}

/// Resolves the TTS model a host asked for against its provider.
pub fn resolve_tts_model(model: &str, provider: &str) -> (m: String)
    ensures
        m@ == tts_model_for(model@, provider@),
{
    if str_eq(provider, "dashscope") {
        owned(DASHSCOPE_TTS_MODEL_VC)
    } else if str_eq(model, "flash") {
        owned("eleven_flash_v2_5")
    } else {
        owned(DEFAULT_TTS_MODEL)
    }
}

/// The API key of a TTS provider: the DashScope key for `dashscope`, the
/// ElevenLabs key for anything else.
pub fn resolve_tts_api_key(provider: &str, tts_api_key: &str, dashscope_api_key: &str) -> (k: String)
    ensures
        k@ == if provider@ == "dashscope"@ { dashscope_api_key@ } else { tts_api_key@ },
{
    if str_eq(provider, "dashscope") {
        owned(dashscope_api_key)
    } else {
        owned(tts_api_key)
    }
}

/// A destination row to publish, when it has both a server URL and a
/// stream key: the publish URL (the key appended, the RTMP-not-RTMPS
/// kill-switch applied) and the stream's role.
pub fn plan_rtmp_destination(
    rtmp_url: Option<&str>,
    stream_key: Option<&str>,
    lang: &str,
    source_lang: &Lang,
    force_rtmp: bool,
) -> (r: Option<(String, StreamRole)>)
    ensures
        match (rtmp_url, stream_key) {
            (Some(u), Some(k)) => r matches Some((url, role)) && url@ == downgraded_url(destination_url_spec(u@, k@), force_rtmp)
                && role == stream_role_spec(lang@, *source_lang),
            _ => r is None,
        },
{
    match (rtmp_url, stream_key) {
        (Some(u), Some(k)) => {
            let full = destination_url(u, k);
            let url = maybe_downgrade_rtmps(full.as_str(), force_rtmp);
            Some((url, resolve_stream_role(lang, source_lang)))
        },
        _ => None,
    }
}

/// The language a started stream adds to the session's RTMP languages: its
/// own, unless it is a passthrough or not a language code.
pub fn rtmp_lang_of(lang: &str, role: StreamRole) -> (l: Option<Lang>)
    ensures
        l == if role.passthrough { None } else { lang_of_code(lang@) },
{
    if role.passthrough {
        None
    } else {
        Lang::from_str(lang)
    }
}

} // verus!
