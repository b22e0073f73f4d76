//! The FFmpeg command line of one RTMP publish: wall-clock video input on
//! stdin, host/TTS audio from a FIFO, one re-encode, and one or many
//! publish targets.

use vstd::prelude::*;

use crate::ffmpeg_args::{
    codec_format, VideoEncoderKind, VideoInputCodec, VideoProfile, default_profile,
};
use crate::text::{
    chars_of, decimal, decimal_string, owned, push_char, push_decimal, push_str, starts_with_seq,
    occurs_at_exec, strs,
};

verus! {

/// The font FFmpeg draws text with when no other was found.
pub const DEFAULT_SUBTITLE_FONTFILE: &'static str = "/usr/share/fonts/opentype/noto/NotoSansCJK-Regular.ttc";

/// How text is rendered into the video: the font file, and whether a
/// debugging clock is burnt in.
pub struct RenderOptions<'a> {
    pub fontfile: &'a str,
    pub debug_video_clock: bool,
}

/// The escape of one character inside a drawtext option value.
pub open spec fn drawtext_escape_char(c: char) -> Seq<char> {
    if c == '\\' { seq!['\\', '\\'] }
    else if c == ':' { seq!['\\', ':'] }
    else if c == '\'' { seq!['\\', '\''] }
    else if c == ',' { seq!['\\', ','] }
    else { seq![c] }
}

/// A value escaped for a drawtext option, as four successive `replace`
/// calls (backslash, colon, quote, comma) produce it.
pub open spec fn drawtext_escape(s: Seq<char>) -> Seq<char>
    decreases s.len(),
{
    if s.len() == 0 { s } else { drawtext_escape(s.drop_last()) + drawtext_escape_char(s.last()) }
}

/// The escape of one character of a tee slave URL.
pub open spec fn tee_escape_char(c: char) -> Seq<char> {
    if c == '\\' { seq!['\\', '\\'] } else if c == '|' { seq!['\\', '|'] } else { seq![c] }
}

/// A URL escaped for the tee muxer (backslashes, then pipes).
pub open spec fn tee_escape(s: Seq<char>) -> Seq<char>
    decreases s.len(),
{
    if s.len() == 0 { s } else { tee_escape(s.drop_last()) + tee_escape_char(s.last()) }
}

/// Escapes a drawtext option value.
pub fn escape_drawtext_value(value: &str) -> (r: String)
    ensures
        r@ == drawtext_escape(value@),
{
    let v = chars_of(value);
    let mut out = String::new();
    let mut i: usize = 0;
    while i < v.len()
        invariant
            i <= v@.len(),
            v@ == value@,
            out@ == drawtext_escape(v@.subrange(0, i as int)),
        decreases v@.len() - i,
    {
        let c = v[i];
        if c == '\\' || c == ':' || c == '\'' || c == ',' {
            push_char(&mut out, '\\');
        }
        push_char(&mut out, c);
        proof {
            let s = v@.subrange(0, i + 1);
            assert(s.drop_last() =~= v@.subrange(0, i as int));
            assert(drawtext_escape(s) == drawtext_escape(s.drop_last()) + drawtext_escape_char(c));
            assert(out@ =~= drawtext_escape(s));
        }
        i = i + 1;
    }
    assert(v@.subrange(0, v@.len() as int) =~= v@);
    out
}

/// Escapes a URL for the tee muxer.
pub fn escape_tee_url(url: &str) -> (r: String)
    ensures
        r@ == tee_escape(url@),
{
    let v = chars_of(url);
    let mut out = String::new();
    let mut i: usize = 0;
    while i < v.len()
        invariant
            i <= v@.len(),
            v@ == url@,
            out@ == tee_escape(v@.subrange(0, i as int)),
        decreases v@.len() - i,
    {
        let c = v[i];
        if c == '\\' || c == '|' {
            push_char(&mut out, '\\');
        }
        push_char(&mut out, c);
        proof {
            let s = v@.subrange(0, i + 1);
            assert(s.drop_last() =~= v@.subrange(0, i as int));
            assert(out@ =~= tee_escape(s));
        }
        i = i + 1;
    }
    assert(v@.subrange(0, v@.len() as int) =~= v@);
    out
}

/// The burnt-in debugging clock filter.
pub open spec fn debug_clock_filter_spec(fontfile: Seq<char>) -> Seq<char> {
    "drawtext=text='BRIVVA %{pts\\:hms}':fontfile="@ + drawtext_escape(fontfile)
        + ":reload=0:x=24:y=24:fontcolor=white:fontsize=34:box=1:boxcolor=black@0.65:boxborderw=12"@
}

/// The subtitle filter that redraws the text file on every reload.
pub open spec fn subtitle_filter_spec(textfile: Seq<char>, fontfile: Seq<char>) -> Seq<char> {
    ",drawtext=textfile="@ + drawtext_escape(textfile) + ":fontfile="@ + drawtext_escape(fontfile)
        + ":reload=1:x=(w-text_w)/2:y=h-(text_h*3):fontcolor=white:fontsize=44:box=1:boxcolor=black@0.55:boxborderw=18"@
}

/// The scale (and, for the portrait canvas, pad) part of the filter.
pub open spec fn scale_filter_spec(p: VideoProfile) -> Seq<char> {
    if p.pad_to_canvas {
        "fps="@ + decimal(p.output_fps as nat) + ",scale="@ + decimal(p.max_width as nat) + ":"@
            + decimal(p.max_height as nat) + ":force_original_aspect_ratio=decrease,pad="@
            + decimal(p.max_width as nat) + ":"@ + decimal(p.max_height as nat)
            + ":(ow-iw)/2:(oh-ih)/2:black"@
    } else {
        "fps="@ + decimal(p.output_fps as nat) + ",scale='min("@ + decimal(p.max_width as nat)
            + ",iw)':'min("@ + decimal(p.max_height as nat)
            + ",ih)':force_original_aspect_ratio=decrease"@
    }
}

/// The whole `-vf` filter graph.
pub open spec fn video_filter_spec(
    p: VideoProfile,
    subtitle: Option<Seq<char>>,
    fontfile: Seq<char>,
    debug_clock: bool,
) -> Seq<char> {
    let base = scale_filter_spec(p);
    let with_clock = if debug_clock { base.push(',') + debug_clock_filter_spec(fontfile) } else { base };
    match subtitle {
        Some(t) => with_clock + subtitle_filter_spec(t, fontfile),
        None => with_clock,
    }
}

/// The encoder-specific part of the video encoding options.
pub open spec fn encoder_name_args(e: VideoEncoderKind) -> Seq<Seq<char>> {
    match e {
        VideoEncoderKind::X264 => seq![
            "libx264"@, "-preset"@, "ultrafast"@, "-tune"@, "zerolatency"@, "-profile:v"@,
            "main"@, "-bf"@, "0"@, "-sc_threshold"@, "0"@,
        ],
        VideoEncoderKind::Nvenc => seq![
            "h264_nvenc"@, "-preset"@, "p1"@, "-tune"@, "ll"@, "-rc"@, "cbr"@, "-profile:v"@,
            "high"@, "-bf"@, "0"@,
        ],
    }
}

/// The video encoding options.
pub open spec fn encoder_args_spec(e: VideoEncoderKind, p: VideoProfile) -> Seq<Seq<char>> {
    seq!["-c:v"@] + encoder_name_args(e) + seq![
        "-r"@, decimal(p.output_fps as nat),
        "-g"@, decimal(p.keyframe_interval_frames as nat),
        "-keyint_min"@, decimal(p.keyframe_interval_frames as nat),
        "-b:v"@, decimal(p.bitrate_kbps as nat) + "k"@,
        "-maxrate"@, decimal(p.maxrate_kbps as nat) + "k"@,
        "-bufsize"@, decimal(p.bufsize_kbps as nat) + "k"@,
        "-pix_fmt"@, "yuv420p"@,
    ]
}

/// The inputs: wall-clock video on stdin and 44.1 kHz mono s16le audio from
/// the FIFO.
pub open spec fn input_args_spec(audio_fifo: Seq<char>, codec: VideoInputCodec) -> Seq<Seq<char>> {
    seq![
        "-y"@, "-loglevel"@, "warning"@, "-progress"@, "pipe:2"@, "-stats_period"@, "1"@,
        "-fflags"@, "+genpts+nobuffer"@, "-thread_queue_size"@, "1024"@, "-f"@,
        codec_format(codec), "-use_wallclock_as_timestamps"@, "1"@, "-i"@, "pipe:0"@,
        "-thread_queue_size"@, "1024"@, "-f"@, "s16le"@, "-ar"@, "44100"@, "-ac"@, "1"@,
        "-i"@, audio_fifo,
    ]
}

/// The audio encoding and low-latency muxing options.
pub open spec fn audio_mux_args_spec() -> Seq<Seq<char>> {
    seq![
        "-c:a"@, "aac"@, "-ac:a"@, "2"@, "-b:a"@, "128k"@, "-muxdelay"@, "0"@, "-muxpreload"@,
        "0"@, "-flush_packets"@, "1"@,
    ]
}

/// Whether a URL uses the RTMP family of schemes.
pub open spec fn is_rtmp_url(u: Seq<char>) -> bool {
    starts_with_seq(u, "rtmp://"@) || starts_with_seq(u, "rtmps://"@)
}

/// The tee slave spec of one URL.
pub open spec fn tee_slave(u: Seq<char>) -> Seq<char> {
    "[f=flv:flvflags=no_duration_filesize:onfail=ignore]"@ + tee_escape(u)
}

/// The tee slaves of `urls`, joined with `|`.
pub open spec fn tee_slaves(urls: Seq<Seq<char>>) -> Seq<char>
    decreases urls.len(),
{
    if urls.len() == 0 {
        Seq::empty()
    } else if urls.len() == 1 {
        tee_slave(urls[0])
    } else {
        tee_slaves(urls.drop_last()).push('|') + tee_slave(urls.last())
    }
}

/// The publish target: one FLV output for a single URL (live mode for RTMP
/// URLs), or one tee output with a slave per URL.
pub open spec fn publish_args_spec(urls: Seq<Seq<char>>) -> Seq<Seq<char>> {
    if urls.len() <= 1 {
        let first = if urls.len() == 1 { urls[0] } else { Seq::<char>::empty() };
        let live = if urls.len() == 1 && is_rtmp_url(urls[0]) {
            seq!["-rtmp_live"@, "live"@]
        } else {
            Seq::empty()
        };
        live + seq!["-flvflags"@, "no_duration_filesize"@, "-f"@, "flv"@, first]
    } else {
        seq!["-f"@, "tee"@, tee_slaves(urls)]
    }
}

/// The full FFmpeg argument list.
pub open spec fn ffmpeg_args_spec(
    audio_fifo: Seq<char>,
    subtitle: Option<Seq<char>>,
    urls: Seq<Seq<char>>,
    p: VideoProfile,
    e: VideoEncoderKind,
    codec: VideoInputCodec,
    fontfile: Seq<char>,
    debug_clock: bool,
) -> Seq<Seq<char>> {
    input_args_spec(audio_fifo, codec)
        + seq!["-map"@, "0:v"@, "-map"@, "1:a"@, "-vf"@, video_filter_spec(p, subtitle, fontfile, debug_clock)]
        + encoder_args_spec(e, p) + audio_mux_args_spec() + publish_args_spec(urls)
}

proof fn lemma_decimal_last_digit(n: nat)
    ensures
        decimal(n).len() >= 1,
        '0' <= decimal(n).last() <= '9',
    decreases n,
{
    if n >= 10 {
        lemma_decimal_last_digit(n / 10);
    }
}

/// The output frame rate flag carries the profile's output rate: in the
/// encoding options, every `-r` is followed by the output rate (and one
/// is); the whole command line has such a `-r`; and the `fps=` filter the
/// frames pass through runs at that same rate.
pub proof fn lemma_output_rate_flag(
    e: VideoEncoderKind,
    p: VideoProfile,
    audio_fifo: Seq<char>,
    subtitle: Option<Seq<char>>,
    urls: Seq<Seq<char>>,
    codec: VideoInputCodec,
    fontfile: Seq<char>,
    debug_clock: bool,
)
    ensures
        ({
            let a = encoder_args_spec(e, p);
            &&& forall|i: int| 0 <= i < a.len() - 1 && #[trigger] a[i] == "-r"@ ==> a[i + 1] == decimal(p.output_fps as nat)
            &&& exists|i: int| 0 <= i < a.len() - 1 && #[trigger] a[i] == "-r"@ && a[i + 1] == decimal(p.output_fps as nat)
        }),
        ({
            let args = ffmpeg_args_spec(audio_fifo, subtitle, urls, p, e, codec, fontfile, debug_clock);
            exists|i: int| 0 <= i < args.len() - 1 && #[trigger] args[i] == "-r"@ && args[i + 1] == decimal(p.output_fps as nat)
        }),
        video_filter_spec(p, subtitle, fontfile, debug_clock).subrange(0, 4 + decimal(p.output_fps as nat).len() as int)
            == "fps="@ + decimal(p.output_fps as nat),
{
    reveal_strlit("-b:v");
    reveal_strlit("-bf");
    reveal_strlit("-bufsize");
    reveal_strlit("-c:v");
    reveal_strlit("-g");
    reveal_strlit("-keyint_min");
    reveal_strlit("-maxrate");
    reveal_strlit("-pix_fmt");
    reveal_strlit("-preset");
    reveal_strlit("-profile:v");
    reveal_strlit("-r");
    reveal_strlit("-rc");
    reveal_strlit("-sc_threshold");
    reveal_strlit("-tune");
    reveal_strlit("0");
    reveal_strlit("cbr");
    reveal_strlit("h264_nvenc");
    reveal_strlit("high");
    reveal_strlit("k");
    reveal_strlit("libx264");
    reveal_strlit("ll");
    reveal_strlit("main");
    reveal_strlit("p1");
    reveal_strlit("ultrafast");
    reveal_strlit("yuv420p");
    reveal_strlit("fps=");
    assert("-r"@.len() == 2);
    assert("-r"@[1] == 'r');
    assert("-g"@ != "-r"@);
    assert("-preset"@ != "-r"@);
    reveal_strlit("zerolatency");
    let a = encoder_args_spec(e, p);
    let d = decimal(p.output_fps as nat);
    lemma_decimal_last_digit(p.output_fps as nat);
    lemma_decimal_last_digit(p.keyframe_interval_frames as nat);
    lemma_decimal_last_digit(p.bitrate_kbps as nat);
    lemma_decimal_last_digit(p.maxrate_kbps as nat);
    lemma_decimal_last_digit(p.bufsize_kbps as nat);
    let names = encoder_name_args(e);
    let tail = seq![
        "-r"@, d,
        "-g"@, decimal(p.keyframe_interval_frames as nat),
        "-keyint_min"@, decimal(p.keyframe_interval_frames as nat),
        "-b:v"@, decimal(p.bitrate_kbps as nat) + "k"@,
        "-maxrate"@, decimal(p.maxrate_kbps as nat) + "k"@,
        "-bufsize"@, decimal(p.bufsize_kbps as nat) + "k"@,
        "-pix_fmt"@, "yuv420p"@,
    ];
    assert(a == seq!["-c:v"@] + names + tail);
    assert(names.len() == 11);
    assert(a.len() == 26);
    assert(a[12] == "-r"@ && a[13] == d);
    assert forall|k: int| 0 <= k < 11 implies #[trigger] names[k] != "-r"@ by {
        match e {
            VideoEncoderKind::X264 => {
                if k == 0 {
                    assert(names[k] == "libx264"@);
                } else if k == 1 {
                    assert(names[k] == "-preset"@);
                } else if k == 2 {
                    assert(names[k] == "ultrafast"@);
                } else if k == 3 {
                    assert(names[k] == "-tune"@);
                } else if k == 4 {
                    assert(names[k] == "zerolatency"@);
                } else if k == 5 {
                    assert(names[k] == "-profile:v"@);
                } else if k == 6 {
                    assert(names[k] == "main"@);
                } else if k == 7 {
                    assert(names[k] == "-bf"@);
                } else if k == 8 {
                    assert(names[k] == "0"@);
                } else if k == 9 {
                    assert(names[k] == "-sc_threshold"@);
                } else if k == 10 {
                    assert(names[k] == "0"@);
                }
            },
            VideoEncoderKind::Nvenc => {
                if k == 0 {
                    assert(names[k] == "h264_nvenc"@);
                } else if k == 1 {
                    assert(names[k] == "-preset"@);
                } else if k == 2 {
                    assert(names[k] == "p1"@);
                } else if k == 3 {
                    assert(names[k] == "-tune"@);
                } else if k == 4 {
                    assert(names[k] == "ll"@);
                } else if k == 5 {
                    assert(names[k] == "-rc"@);
                } else if k == 6 {
                    assert(names[k] == "cbr"@);
                } else if k == 7 {
                    assert(names[k] == "-profile:v"@);
                } else if k == 8 {
                    assert(names[k] == "high"@);
                } else if k == 9 {
                    assert(names[k] == "-bf"@);
                } else if k == 10 {
                    assert(names[k] == "0"@);
                }
            },
        }
    }
    assert forall|k: int| 1 <= k < 13 implies #[trigger] tail[k] != "-r"@ by {
        if k == 1 || k == 3 || k == 5 {
            assert(tail[k].last() != "-r"@.last());
        } else if k == 7 || k == 9 || k == 11 {
            assert(tail[k].last() == 'k');
        }
    }
    assert forall|i: int| 0 <= i < a.len() - 1 && #[trigger] a[i] == "-r"@ implies a[i + 1] == d by {
        if i == 0 {
            assert(a[0] == "-c:v"@);
        } else if i < 12 {
            assert(a[i] == names[i - 1]);
        } else if i > 12 {
            assert(a[i] == tail[i - 12]);
        }
    }
    let args = ffmpeg_args_spec(audio_fifo, subtitle, urls, p, e, codec, fontfile, debug_clock);
    let pre = input_args_spec(audio_fifo, codec)
        + seq!["-map"@, "0:v"@, "-map"@, "1:a"@, "-vf"@, video_filter_spec(p, subtitle, fontfile, debug_clock)];
    assert(args == pre + a + audio_mux_args_spec() + publish_args_spec(urls));
    let j: int = pre.len() as int + 12;
    assert(args[j] == a[12]);
    assert(args[j + 1] == a[13]);
    let f = video_filter_spec(p, subtitle, fontfile, debug_clock);
    let base = scale_filter_spec(p);
    let head = "fps="@ + d;
    assert(head.len() == 4 + d.len());
    assert forall|k: int| 0 <= k < head.len() implies #[trigger] base[k] == head[k] by {}
    assert forall|k: int| 0 <= k < head.len() implies #[trigger] f[k] == base[k] by {}
    assert(base.subrange(0, 4 + d.len() as int) =~= "fps="@ + d);
    assert(f.subrange(0, 4 + d.len() as int) =~= base.subrange(0, 4 + d.len() as int));
}

fn push_arg(v: &mut Vec<String>, s: String)
    ensures
        strs(final(v)@) == strs(old(v)@).push(s@),
{
    v.push(s);
    assert(strs(v@) =~= strs(old(v)@).push(s@));
}

fn push_lit(v: &mut Vec<String>, s: &str)
    ensures
        strs(final(v)@) == strs(old(v)@).push(s@),
{
    push_arg(v, owned(s));
}

fn with_k(n: u32) -> (s: String)
    ensures
        s@ == decimal(n as nat) + "k"@,
{
    let mut s = decimal_string(n as u64);
    push_str(&mut s, "k");
    s
}

/// The `-vf` filter graph for a profile, optional subtitle file and render
/// options.
pub fn video_filter(profile: VideoProfile, subtitle_textfile: Option<&str>, render: &RenderOptions) -> (f: String)
    ensures
        f@ == video_filter_spec(
            profile,
            match subtitle_textfile { Some(t) => Some(t@), None => None },
            render.fontfile@,
            render.debug_video_clock,
        ),
{
    let mut f = String::new();
    if profile.pad_to_canvas {
        push_str(&mut f, "fps=");
        push_decimal(&mut f, profile.output_fps as u64);
        push_str(&mut f, ",scale=");
        push_decimal(&mut f, profile.max_width as u64);
        push_str(&mut f, ":");
        push_decimal(&mut f, profile.max_height as u64);
        push_str(&mut f, ":force_original_aspect_ratio=decrease,pad=");
        push_decimal(&mut f, profile.max_width as u64);
        push_str(&mut f, ":");
        push_decimal(&mut f, profile.max_height as u64);
        push_str(&mut f, ":(ow-iw)/2:(oh-ih)/2:black");
    } else {
        push_str(&mut f, "fps=");
        push_decimal(&mut f, profile.output_fps as u64);
        push_str(&mut f, ",scale='min(");
        push_decimal(&mut f, profile.max_width as u64);
        push_str(&mut f, ",iw)':'min(");
        push_decimal(&mut f, profile.max_height as u64);
        push_str(&mut f, ",ih)':force_original_aspect_ratio=decrease");
    }
    assert(f@ =~= scale_filter_spec(profile));
    if render.debug_video_clock {
        push_char(&mut f, ',');
        push_str(&mut f, "drawtext=text='BRIVVA %{pts\\:hms}':fontfile=");
        let font = escape_drawtext_value(render.fontfile);
        push_str(&mut f, font.as_str());
        push_str(&mut f, ":reload=0:x=24:y=24:fontcolor=white:fontsize=34:box=1:boxcolor=black@0.65:boxborderw=12");
        assert(f@ =~= scale_filter_spec(profile).push(',') + debug_clock_filter_spec(render.fontfile@));
    }
    if let Some(textfile) = subtitle_textfile {
        let ghost before = f@;
        push_str(&mut f, ",drawtext=textfile=");
        let t = escape_drawtext_value(textfile);
        push_str(&mut f, t.as_str());
        push_str(&mut f, ":fontfile=");
        let font = escape_drawtext_value(render.fontfile);
        push_str(&mut f, font.as_str());
        push_str(&mut f, ":reload=1:x=(w-text_w)/2:y=h-(text_h*3):fontcolor=white:fontsize=44:box=1:boxcolor=black@0.55:boxborderw=18");
        assert(f@ =~= before + subtitle_filter_spec(textfile@, render.fontfile@));
    }
    f
}

/// The video encoding options for an encoder and profile.
pub fn video_encoder_args(encoder: VideoEncoderKind, profile: VideoProfile) -> (args: Vec<String>)
    ensures
        strs(args@) == encoder_args_spec(encoder, profile),
{
    let mut args: Vec<String> = Vec::new();
    push_lit(&mut args, "-c:v");
    match encoder {
        VideoEncoderKind::X264 => {
            push_lit(&mut args, "libx264");
            push_lit(&mut args, "-preset");
            push_lit(&mut args, "ultrafast");
            push_lit(&mut args, "-tune");
            push_lit(&mut args, "zerolatency");
            push_lit(&mut args, "-profile:v");
            push_lit(&mut args, "main");
            push_lit(&mut args, "-bf");
            push_lit(&mut args, "0");
            push_lit(&mut args, "-sc_threshold");
            push_lit(&mut args, "0");
        },
        VideoEncoderKind::Nvenc => {
            push_lit(&mut args, "h264_nvenc");
            push_lit(&mut args, "-preset");
            push_lit(&mut args, "p1");
            push_lit(&mut args, "-tune");
            push_lit(&mut args, "ll");
            push_lit(&mut args, "-rc");
            push_lit(&mut args, "cbr");
            push_lit(&mut args, "-profile:v");
            push_lit(&mut args, "high");
            push_lit(&mut args, "-bf");
            push_lit(&mut args, "0");
        },
    }
    assert(strs(args@) =~= seq!["-c:v"@] + encoder_name_args(encoder));
    push_lit(&mut args, "-r");
    push_arg(&mut args, decimal_string(profile.output_fps as u64));
    push_lit(&mut args, "-g");
    push_arg(&mut args, decimal_string(profile.keyframe_interval_frames as u64));
    push_lit(&mut args, "-keyint_min");
    push_arg(&mut args, decimal_string(profile.keyframe_interval_frames as u64));
    push_lit(&mut args, "-b:v");
    push_arg(&mut args, with_k(profile.bitrate_kbps));
    push_lit(&mut args, "-maxrate");
    push_arg(&mut args, with_k(profile.maxrate_kbps));
    push_lit(&mut args, "-bufsize");
    push_arg(&mut args, with_k(profile.bufsize_kbps));
    push_lit(&mut args, "-pix_fmt");
    push_lit(&mut args, "yuv420p");
    assert(strs(args@) =~= encoder_args_spec(encoder, profile));
    args
}

fn is_rtmp_url_exec(url: &str) -> (b: bool)
    ensures
        b == is_rtmp_url(url@),
{
    let v = chars_of(url);
    let a = chars_of("rtmp://");
    let b = chars_of("rtmps://");
    occurs_at_exec(&v, &a, 0) || occurs_at_exec(&v, &b, 0)
}

/// Appends the publish target for `rtmp_urls`.
pub fn append_publish_target(ffmpeg_args: &mut Vec<String>, rtmp_urls: &[String])
    ensures
        strs(final(ffmpeg_args)@) == strs(old(ffmpeg_args)@) + publish_args_spec(strs(rtmp_urls@)),
{
    let ghost urls = strs(rtmp_urls@);
    if rtmp_urls.len() <= 1 {
        if rtmp_urls.len() == 1 && is_rtmp_url_exec(rtmp_urls[0].as_str()) {
            push_lit(ffmpeg_args, "-rtmp_live");
            push_lit(ffmpeg_args, "live");
        }
        push_lit(ffmpeg_args, "-flvflags");
        push_lit(ffmpeg_args, "no_duration_filesize");
        push_lit(ffmpeg_args, "-f");
        push_lit(ffmpeg_args, "flv");
        if rtmp_urls.len() == 1 {
            push_arg(ffmpeg_args, rtmp_urls[0].clone());
        } else {
            push_arg(ffmpeg_args, String::new());
        }
        assert(strs(ffmpeg_args@) =~= strs(old(ffmpeg_args)@) + publish_args_spec(urls));
        return;
    }
    push_lit(ffmpeg_args, "-f");
    push_lit(ffmpeg_args, "tee");
    let mut joined = String::new();
    let mut i: usize = 0;
    while i < rtmp_urls.len()
        invariant
            i <= rtmp_urls@.len(),
            urls == strs(rtmp_urls@),
            joined@ == tee_slaves(urls.subrange(0, i as int)),
        decreases rtmp_urls@.len() - i,
    {
        if i > 0 {
            push_char(&mut joined, '|');
        }
        push_str(&mut joined, "[f=flv:flvflags=no_duration_filesize:onfail=ignore]");
        let esc = escape_tee_url(rtmp_urls[i].as_str());
        push_str(&mut joined, esc.as_str());
        proof {
            let s = urls.subrange(0, i + 1);
            assert(s.drop_last() =~= urls.subrange(0, i as int));
            assert(s.last() == rtmp_urls@[i as int]@);
            if i == 0 {
                assert(joined@ =~= tee_slave(s[0]));
            } else {
                assert(joined@ =~= tee_slaves(s.drop_last()).push('|') + tee_slave(s.last()));
            }
        }
        i = i + 1;
    }
    assert(urls.subrange(0, rtmp_urls@.len() as int) =~= urls);
    push_arg(ffmpeg_args, joined);
    assert(strs(ffmpeg_args@) =~= strs(old(ffmpeg_args)@) + publish_args_spec(urls));
}

fn push_input_args(v: &mut Vec<String>, audio_fifo: &str, input_codec: VideoInputCodec)
    ensures
        strs(final(v)@) == strs(old(v)@) + input_args_spec(audio_fifo@, input_codec),
{
    push_lit(v, "-y");
    push_lit(v, "-loglevel");
    push_lit(v, "warning");
    push_lit(v, "-progress");
    push_lit(v, "pipe:2");
    push_lit(v, "-stats_period");
    push_lit(v, "1");
    push_lit(v, "-fflags");
    push_lit(v, "+genpts+nobuffer");
    push_lit(v, "-thread_queue_size");
    push_lit(v, "1024");
    push_lit(v, "-f");
    push_lit(v, input_codec.ffmpeg_format());
    push_lit(v, "-use_wallclock_as_timestamps");
    push_lit(v, "1");
    push_lit(v, "-i");
    push_lit(v, "pipe:0");
    push_lit(v, "-thread_queue_size");
    push_lit(v, "1024");
    push_lit(v, "-f");
    push_lit(v, "s16le");
    push_lit(v, "-ar");
    push_lit(v, "44100");
    push_lit(v, "-ac");
    push_lit(v, "1");
    push_lit(v, "-i");
    push_lit(v, audio_fifo);
    assert(strs(v@) =~= strs(old(v)@) + input_args_spec(audio_fifo@, input_codec));
}

fn push_audio_mux_args(v: &mut Vec<String>)
    ensures
        strs(final(v)@) == strs(old(v)@) + audio_mux_args_spec(),
{
    push_lit(v, "-c:a");
    push_lit(v, "aac");
    push_lit(v, "-ac:a");
    push_lit(v, "2");
    push_lit(v, "-b:a");
    push_lit(v, "128k");
    push_lit(v, "-muxdelay");
    push_lit(v, "0");
    push_lit(v, "-muxpreload");
    push_lit(v, "0");
    push_lit(v, "-flush_packets");
    push_lit(v, "1");
    assert(strs(v@) =~= strs(old(v)@) + audio_mux_args_spec());
}

/// The FFmpeg argument list with explicit render options.
pub fn build_ffmpeg_args_with_render(
    audio_fifo: &str,
    subtitle_textfile: Option<&str>,
    rtmp_urls: &[String],
    profile: VideoProfile,
    encoder: VideoEncoderKind,
    input_codec: VideoInputCodec,
    render: &RenderOptions,
) -> (args: Vec<String>)
    ensures
        strs(args@) == ffmpeg_args_spec(
            audio_fifo@,
            match subtitle_textfile { Some(t) => Some(t@), None => None },
            strs(rtmp_urls@),
            profile,
            encoder,
            input_codec,
            render.fontfile@,
            render.debug_video_clock,
        ),
{
    let mut args: Vec<String> = Vec::new();
    push_input_args(&mut args, audio_fifo, input_codec);
    push_lit(&mut args, "-map");
    push_lit(&mut args, "0:v");
    push_lit(&mut args, "-map");
    push_lit(&mut args, "1:a");
    push_lit(&mut args, "-vf");
    push_arg(&mut args, video_filter(profile, subtitle_textfile, render));
    let ghost head = strs(args@);
    let enc = video_encoder_args(encoder, profile);
    let mut i: usize = 0;
    while i < enc.len()
        invariant
            i <= enc@.len(),
            strs(args@) == head + strs(enc@).subrange(0, i as int),
        decreases enc@.len() - i,
    {
        push_arg(&mut args, enc[i].clone());
        proof {
            assert(strs(enc@).subrange(0, i + 1) =~= strs(enc@).subrange(0, i as int).push(enc@[i as int]@));
            assert(strs(args@) =~= head + strs(enc@).subrange(0, i + 1));
        }
        i = i + 1;
    }
    assert(strs(enc@).subrange(0, enc@.len() as int) =~= strs(enc@));
    push_audio_mux_args(&mut args);
    append_publish_target(&mut args, rtmp_urls);
    args
}

/// The FFmpeg argument list, rendering text with the default font and no
/// debugging clock.
pub fn build_ffmpeg_args_with_profile_and_encoder(
    audio_fifo: &str,
    subtitle_textfile: Option<&str>,
    rtmp_urls: &[String],
    profile: VideoProfile,
    encoder: VideoEncoderKind,
    input_codec: VideoInputCodec,
) -> (args: Vec<String>)
    ensures
        strs(args@) == ffmpeg_args_spec(
            audio_fifo@,
            match subtitle_textfile { Some(t) => Some(t@), None => None },
            strs(rtmp_urls@),
            profile,
            encoder,
            input_codec,
            DEFAULT_SUBTITLE_FONTFILE@,
            false,
        ),
{
    let render = RenderOptions { fontfile: DEFAULT_SUBTITLE_FONTFILE, debug_video_clock: false };
    build_ffmpeg_args_with_render(audio_fifo, subtitle_textfile, rtmp_urls, profile, encoder, input_codec, &render)
}

/// The FFmpeg argument list, rendering text with the default font and no
/// debugging clock.
pub fn build_ffmpeg_args_with_profile(
    audio_fifo: &str,
    subtitle_textfile: Option<&str>,
    rtmp_urls: &[String],
    profile: VideoProfile,
    encoder: VideoEncoderKind,
    input_codec: VideoInputCodec,
) -> (args: Vec<String>)
    ensures
        strs(args@) == ffmpeg_args_spec(
            audio_fifo@,
            match subtitle_textfile { Some(t) => Some(t@), None => None },
            strs(rtmp_urls@),
            profile,
            encoder,
            input_codec,
            DEFAULT_SUBTITLE_FONTFILE@,
            false,
        ),
{
    build_ffmpeg_args_with_profile_and_encoder(audio_fifo, subtitle_textfile, rtmp_urls, profile, encoder, input_codec)
}

/// The FFmpeg argument list for one RTMP URL with the default profile,
/// libx264 and H.264 input.
pub fn build_ffmpeg_args(audio_fifo: &str, rtmp_url: &str) -> (args: Vec<String>)
    ensures
        strs(args@) == ffmpeg_args_spec(
            audio_fifo@,
            None,
            seq![rtmp_url@],
            default_profile(),
            VideoEncoderKind::X264,
            VideoInputCodec::H264AnnexB,
            DEFAULT_SUBTITLE_FONTFILE@,
            false,
        ),
{
    let mut urls: Vec<String> = Vec::new();
    urls.push(owned(rtmp_url));
    assert(strs(urls@) =~= seq![rtmp_url@]);
    build_ffmpeg_args_with_profile(
        audio_fifo,
        None,
        urls.as_slice(),
        VideoProfile::default(),
        VideoEncoderKind::X264,
        VideoInputCodec::H264AnnexB,
    )
}

/// The last argument is always the publish destination: the single URL for
/// one destination, the tee slave list for several.
pub proof fn lemma_args_end_with_destination(
    audio_fifo: Seq<char>,
    subtitle: Option<Seq<char>>,
    urls: Seq<Seq<char>>,
    p: VideoProfile,
    e: VideoEncoderKind,
    codec: VideoInputCodec,
    fontfile: Seq<char>,
    debug_clock: bool,
)
    requires
        urls.len() >= 1,
    ensures
        ({
            let a = ffmpeg_args_spec(audio_fifo, subtitle, urls, p, e, codec, fontfile, debug_clock);
            &&& urls.len() == 1 ==> a.last() == urls[0] && a[a.len() - 2] == "flv"@ && a[a.len() - 3] == "-f"@
            &&& urls.len() > 1 ==> a.last() == tee_slaves(urls) && a[a.len() - 2] == "tee"@
        }),
{
}

} // verus!
