//! The startup self-check of the media runtime: from the output of
//! `ffmpeg -version`, `-protocols`, `-filters`, `-encoders` and `fc-match`,
//! whether everything the broadcast needs is present.

use vstd::prelude::*;

use crate::ffmpeg_args::VideoEncoderKind;
use crate::text::{
    ascii_lower_chars, ascii_lower_seq, chars_of, contains_chars, contains_seq, ends_with_seq,
    occurs_at, occurs_at_exec, split_whitespace, string_of, strs, trim_chars, trim_seq, words,
};

verus! {

/// What the runtime offers, and whether that is enough.
#[derive(Debug, Clone)]
pub struct RuntimeSelfCheckReport {
    pub ffmpeg_version_first_line: String,
    pub ffmpeg_config_has_openssl: bool,
    pub protocols_has_rtmp: bool,
    pub protocols_has_rtmps: bool,
    pub filters_has_drawtext: bool,
    pub encoders_has_h264_nvenc: bool,
    pub font_match: String,
    pub font_resolves_cjk: bool,
    pub required_nvenc: bool,
    pub ok: bool,
}

/// The characters of `s` before its first line feed.
pub open spec fn before_newline(s: Seq<char>) -> Seq<char>
    decreases s.len(),
{
    if s.len() == 0 {
        s
    } else if s[0] == '\n' {
        Seq::empty()
    } else {
        seq![s[0]] + before_newline(s.drop_first())
    }
}

/// The first line of a command's output, trimmed.
pub open spec fn first_line(s: Seq<char>) -> Seq<char> {
    trim_seq(before_newline(s))
}

/// Whether the ASCII-lower-cased text contains `token`.
pub open spec fn has_token_spec(haystack: Seq<char>, token: Seq<char>) -> bool {
    contains_seq(ascii_lower_seq(haystack), token)
}

/// Whether a word names `token`: equal up to ASCII case, or ending with it.
pub open spec fn word_names(word: Seq<char>, token: Seq<char>) -> bool {
    ascii_lower_seq(word) == ascii_lower_seq(token) || ends_with_seq(word, token)
}

/// Whether some white-space separated word of the text names `token`.
pub open spec fn has_line_token_spec(haystack: Seq<char>, token: Seq<char>) -> bool {
    exists|k: int| 0 <= k < words(haystack).len() && word_names(words(haystack)[k], token)
}

/// Whether the `fc-match` answer is a CJK Noto font.
pub open spec fn font_is_cjk(font_match: Seq<char>) -> bool {
    has_token_spec(font_match, "noto"@) && has_token_spec(font_match, "cjk"@)
}

fn first_line_of(s: &str) -> (r: String)
    ensures
        r@ == first_line(s@),
{
    let v = chars_of(s);
    let n = v.len();
    let mut head: Vec<char> = Vec::new();
    let mut i: usize = 0;
    assert(v@.subrange(0, n as int) =~= v@);
    assert(head@ + before_newline(v@) =~= before_newline(v@));
    while i < n && v[i] != '\n'
        invariant
            n == v@.len(),
            i <= n,
            head@ == v@.subrange(0, i as int),
            forall|j: int| 0 <= j < i ==> v@[j] != '\n',
            before_newline(v@) == head@ + before_newline(v@.subrange(i as int, n as int)),
        decreases n - i,
    {
        proof {
            let rest = v@.subrange(i as int, n as int);
            assert(rest.drop_first() =~= v@.subrange(i + 1, n as int));
            assert(head@ + before_newline(rest) =~= head@.push(v@[i as int]) + before_newline(rest.drop_first()));
        }
        head.push(v[i]);
        i = i + 1;
    }
    proof {
        let rest = v@.subrange(i as int, n as int);
        assert(before_newline(rest) =~= Seq::<char>::empty());
        assert(head@ + Seq::<char>::empty() =~= head@);
        assert(v@.subrange(0, n as int) =~= v@);
    }
    string_of(&trim_chars(&head))
}

/// Whether the ASCII-lower-cased text contains `token`.
pub fn has_token(haystack: &str, token: &str) -> (b: bool)
    ensures
        b == has_token_spec(haystack@, token@),
{
    contains_chars(&ascii_lower_chars(&chars_of(haystack)), &chars_of(token))
}

fn ends_with_chars(word: &Vec<char>, suffix: &Vec<char>) -> (b: bool)
    ensures
        b == ends_with_seq(word@, suffix@),
{
    if suffix.len() <= word.len() {
        occurs_at_exec(word, suffix, word.len() - suffix.len())
    } else {
        false
    }
}

/// Whether some word of the text names `token`, up to ASCII case or as a
/// suffix.
pub fn has_line_token(haystack: &str, token: &str) -> (b: bool)
    ensures
        b == has_line_token_spec(haystack@, token@),
{
    let parts = split_whitespace(haystack);
    let t = chars_of(token);
    let t_lower = ascii_lower_chars(&t);
    let ghost ws = words(haystack@);
    let mut k: usize = 0;
    while k < parts.len()
        invariant
            k <= parts@.len(),
            strs(parts@) == ws,
            ws == words(haystack@),
            t@ == token@,
            t_lower@ == ascii_lower_seq(token@),
            forall|j: int| 0 <= j < k ==> !word_names(ws[j], token@),
        decreases parts@.len() - k,
    {
        let w = chars_of(parts[k].as_str());
        assert(ws[k as int] == parts@[k as int]@);
        let w_lower = ascii_lower_chars(&w);
        let same = w_lower.len() == t_lower.len() && occurs_at_exec(&w_lower, &t_lower, 0);
        proof {
            if w_lower@.len() == t_lower@.len() {
                assert(occurs_at(w_lower@, t_lower@, 0) <==> w_lower@ =~= t_lower@) by {
                    assert(w_lower@.subrange(0, t_lower@.len() as int) =~= w_lower@);
                }
            }
        }
        if same || ends_with_chars(&w, &t) {
            assert(word_names(ws[k as int], token@));
            return true;
        }
        k = k + 1;
    }
    false
}

/// The self-check report from the runtime's answers; it is `ok` when
/// OpenSSL, RTMP, RTMPS, drawtext and a CJK font are present, and NVENC
/// too when the NVENC encoder is configured.
pub fn build_report(
    video_encoder: VideoEncoderKind,
    version: &str,
    protocols: &str,
    filters: &str,
    encoders: &str,
    font_match: &str,
) -> (r: RuntimeSelfCheckReport)
    ensures
        r.ffmpeg_version_first_line@ == first_line(version@),
        r.ffmpeg_config_has_openssl == has_token_spec(version@, "openssl"@),
        r.protocols_has_rtmp == has_line_token_spec(protocols@, "rtmp"@),
        r.protocols_has_rtmps == has_line_token_spec(protocols@, "rtmps"@),
        r.filters_has_drawtext == has_line_token_spec(filters@, "drawtext"@),
        r.encoders_has_h264_nvenc == has_line_token_spec(encoders@, "h264_nvenc"@),
        r.font_match@ == first_line(font_match@),
        r.font_resolves_cjk == font_is_cjk(font_match@),
        r.required_nvenc == (video_encoder == VideoEncoderKind::Nvenc),
        r.ok == (r.ffmpeg_config_has_openssl && r.protocols_has_rtmp && r.protocols_has_rtmps
            && r.filters_has_drawtext && (!r.required_nvenc || r.encoders_has_h264_nvenc)
            && r.font_resolves_cjk),
{
    let required_nvenc = match video_encoder {
        VideoEncoderKind::Nvenc => true,
        VideoEncoderKind::X264 => false,
    };
    let ffmpeg_config_has_openssl = has_token(version, "openssl");
    let protocols_has_rtmp = has_line_token(protocols, "rtmp");
    let protocols_has_rtmps = has_line_token(protocols, "rtmps");
    let filters_has_drawtext = has_line_token(filters, "drawtext");
    let encoders_has_h264_nvenc = has_line_token(encoders, "h264_nvenc");
    let font_resolves_cjk = has_token(font_match, "noto") && has_token(font_match, "cjk");
    let ok = ffmpeg_config_has_openssl && protocols_has_rtmp && protocols_has_rtmps && filters_has_drawtext
        && (!required_nvenc || encoders_has_h264_nvenc) && font_resolves_cjk;
    RuntimeSelfCheckReport {
        ffmpeg_version_first_line: first_line_of(version),
        ffmpeg_config_has_openssl,
        protocols_has_rtmp,
        protocols_has_rtmps,
        filters_has_drawtext,
        encoders_has_h264_nvenc,
        font_match: first_line_of(font_match),
        font_resolves_cjk,
        required_nvenc,
        ok,
    }
}

} // verus!
