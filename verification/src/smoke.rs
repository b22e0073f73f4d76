//! The command line of the MP4 fan-out smoke run: which file to loop, where
//! to publish it, and the video caps and capture profile to use.

use vstd::prelude::*;

use crate::ffmpeg_args::{encoder_of_wire, VideoEncoderKind};
use crate::rtmp::RtmpDestination;
use crate::session::{destination_url, trim_trailing_slashes};
use crate::text::{owned, parse_u32, parse_u64, parse_unsigned, push_str, str_eq, strs};

verus! {

pub const DEFAULT_YOUTUBE_RTMP_URL: &'static str = "rtmp://a.rtmp.youtube.com/live2";
pub const DEFAULT_YOUTUBE_KEY_ENV: &'static str = "STREAM_KEY_YOUTUBE";
pub const DEFAULT_SMOKE_DURATION_SECS: u64 = 180;

/// The usage line of the smoke run.
pub open spec fn usage_text() -> Seq<char> {
    "Usage: cargo run -p server-rs --bin mp4_fanout_smoke -- --mp4 file.mp4 (--youtube | --rtmp full-url) [--duration 180] [--encoder x264|nvenc] [--max-width 1920 --max-height 1080 --max-fps 60]"@
}

pub fn usage() -> (s: String)
    ensures
        s@ == usage_text(),
{
    owned("Usage: cargo run -p server-rs --bin mp4_fanout_smoke -- --mp4 file.mp4 (--youtube | --rtmp full-url) [--duration 180] [--encoder x264|nvenc] [--max-width 1920 --max-height 1080 --max-fps 60]")
}

/// The environment as name/value pairs.
pub open spec fn env_view(env: Seq<(String, String)>) -> Seq<(Seq<char>, Seq<char>)> {
    env.map_values(|p: (String, String)| (p.0@, p.1@))
}

/// The value of the first variable called `name`.
pub open spec fn env_lookup(env: Seq<(Seq<char>, Seq<char>)>, name: Seq<char>) -> Option<Seq<char>>
    decreases env.len(),
{
    if env.len() == 0 {
        None
    } else if env[0].0 == name {
        Some(env[0].1)
    } else {
        env_lookup(env.drop_first(), name)
    }
}

/// Looks a variable up in an environment snapshot.
pub fn env_var<'a>(env: &'a [(String, String)], name: &str) -> (r: Option<&'a String>)
    ensures
        match r {
            Some(v) => env_lookup(env_view(env@), name@) == Some(v@),
            None => env_lookup(env_view(env@), name@) is None,
        },
{
    let ghost ev = env_view(env@);
    let mut i: usize = 0;
    assert(ev.subrange(0, ev.len() as int) =~= ev);
    while i < env.len()
        invariant
            i <= env@.len(),
            ev == env_view(env@),
            env_lookup(ev, name@) == env_lookup(ev.subrange(i as int, ev.len() as int), name@),
        decreases env@.len() - i,
    {
        let ghost rest = ev.subrange(i as int, ev.len() as int);
        proof {
            assert(rest.drop_first() =~= ev.subrange(i + 1, ev.len() as int));
            assert(rest[0] == (env@[i as int].0@, env@[i as int].1@));
        }
        if str_eq(env[i].0.as_str(), name) {
            return Some(&env[i].1);
        }
        i = i + 1;
    }
    None
}

/// A `u32` setting from the environment: its value when it parses, else
/// the default.
pub open spec fn env_u32_spec(env: Seq<(Seq<char>, Seq<char>)>, key: Seq<char>, default: u32) -> u32 {
    match env_lookup(env, key) {
        Some(v) => match parse_unsigned(v, u32::MAX as nat) {
            Some(n) => n as u32,
            None => default,
        },
        None => default,
    }
}

/// Reads a `u32` setting from an environment snapshot.
pub fn env_u32(env: &[(String, String)], key: &str, default: u32) -> (n: u32)
    ensures
        n == env_u32_spec(env_view(env@), key@, default),
{
    match env_var(env, key) {
        Some(v) => match parse_u32(v.as_str()) {
            Some(n) => n,
            None => default,
        },
        None => default,
    }
}

/// The options read so far.
pub struct SmokeParse {
    pub mp4: Option<Seq<char>>,
    pub rtmp: Seq<(Seq<char>, Seq<char>)>,
    pub duration_secs: u64,
    pub encoder: VideoEncoderKind,
    pub max_width: u32,
    pub max_height: u32,
    pub max_fps: u32,
    pub capture_width: u32,
    pub capture_height: u32,
    pub capture_fps: u32,
    pub subtitle: Option<Seq<char>>,
    pub youtube_url: Seq<char>,
    pub youtube_key_env: Seq<char>,
}

/// The options before any argument: the video caps from the environment
/// (1920x1080 at 30 fps by default), the capture profile equal to them, a
/// 180 s run with x264, and the YouTube ingest from the environment.
pub open spec fn initial_parse(env: Seq<(Seq<char>, Seq<char>)>) -> SmokeParse {
    let w = env_u32_spec(env, "BRIVVA_VIDEO_MAX_WIDTH"@, 1920);
    let h = env_u32_spec(env, "BRIVVA_VIDEO_MAX_HEIGHT"@, 1080);
    let f = env_u32_spec(env, "BRIVVA_VIDEO_MAX_FPS"@, 30);
    SmokeParse {
        mp4: None,
        rtmp: Seq::empty(),
        duration_secs: DEFAULT_SMOKE_DURATION_SECS,
        encoder: VideoEncoderKind::X264,
        max_width: w,
        max_height: h,
        max_fps: f,
        capture_width: w,
        capture_height: h,
        capture_fps: f,
        subtitle: None,
        youtube_url: match env_lookup(env, "YOUTUBE_RTMP_URL"@) {
            Some(u) => u,
            None => DEFAULT_YOUTUBE_RTMP_URL@,
        },
        youtube_key_env: DEFAULT_YOUTUBE_KEY_ENV@,
    }
}

/// The options after reading `args` from position `i`, or the error that
/// stops the reading.
pub open spec fn parse_from(
    st: SmokeParse,
    args: Seq<Seq<char>>,
    i: nat,
    env: Seq<(Seq<char>, Seq<char>)>,
) -> Result<SmokeParse, Seq<char>>
    decreases args.len() - i,
{
    if i >= args.len() {
        Ok(st)
    } else {
        let a = args[i as int];
        let has_value = i + 1 < args.len();
        let v = args[i as int + 1];
        let missing = "missing value for "@ + a;
        if a == "--youtube"@ {
            match env_lookup(env, st.youtube_key_env) {
                Some(key) => parse_from(
                    SmokeParse {
                        rtmp: st.rtmp.push(("youtube"@, trim_trailing_slashes(st.youtube_url) + "/"@ + key)),
                        ..st
                    },
                    args,
                    i + 1,
                    env,
                ),
                None => Err(st.youtube_key_env + " env var missing"@),
            }
        } else if a == "--help"@ || a == "-h"@ {
            Err(usage_text())
        } else if !(a == "--mp4"@ || a == "--rtmp"@ || a == "--youtube-url"@ || a == "--youtube-key-env"@
            || a == "--duration"@ || a == "--encoder"@ || a == "--max-width"@ || a == "--max-height"@
            || a == "--max-fps"@ || a == "--capture-width"@ || a == "--capture-height"@
            || a == "--capture-fps"@ || a == "--subtitle"@) {
            Err("unknown arg: "@ + a + "\n"@ + usage_text())
        } else if !has_value {
            Err(missing)
        } else if a == "--mp4"@ {
            parse_from(SmokeParse { mp4: Some(v), ..st }, args, i + 2, env)
        } else if a == "--rtmp"@ {
            parse_from(SmokeParse { rtmp: st.rtmp.push(("rtmp"@, v)), ..st }, args, i + 2, env)
        } else if a == "--youtube-url"@ {
            parse_from(SmokeParse { youtube_url: v, ..st }, args, i + 2, env)
        } else if a == "--youtube-key-env"@ {
            parse_from(SmokeParse { youtube_key_env: v, ..st }, args, i + 2, env)
        } else if a == "--encoder"@ {
            parse_from(SmokeParse { encoder: encoder_of_wire(v), ..st }, args, i + 2, env)
        } else if a == "--subtitle"@ {
            parse_from(SmokeParse { subtitle: Some(v), ..st }, args, i + 2, env)
        } else if a == "--duration"@ {
            match parse_unsigned(v, u64::MAX as nat) {
                Some(n) => parse_from(SmokeParse { duration_secs: n as u64, ..st }, args, i + 2, env),
                None => Err("bad --duration"@),
            }
        } else {
            match parse_unsigned(v, u32::MAX as nat) {
                Some(n) => {
                    let n = n as u32;
                    let next = if a == "--max-width"@ {
                        SmokeParse { max_width: n, ..st }
                    } else if a == "--max-height"@ {
                        SmokeParse { max_height: n, ..st }
                    } else if a == "--max-fps"@ {
                        SmokeParse { max_fps: n, ..st }
                    } else if a == "--capture-width"@ {
                        SmokeParse { capture_width: n, ..st }
                    } else if a == "--capture-height"@ {
                        SmokeParse { capture_height: n, ..st }
                    } else {
                        SmokeParse { capture_fps: n, ..st }
                    };
                    parse_from(next, args, i + 2, env)
                },
                None => Err("bad "@ + a),
            }
        }
    }
}

/// The options of a whole command line: at least one destination and an
/// MP4 file are required.
pub open spec fn smoke_result(args: Seq<Seq<char>>, env: Seq<(Seq<char>, Seq<char>)>) -> Result<SmokeParse, Seq<char>> {
    match parse_from(initial_parse(env), args, 0, env) {
        Err(e) => Err(e),
        Ok(st) => if st.rtmp.len() == 0 {
            Err("provide --youtube or at least one --rtmp <full-url>"@)
        } else if st.mp4 is None {
            Err("--mp4 <path> required"@)
        } else {
            Ok(st)
        },
    }
}

/// The options of a smoke run.
pub struct SmokeArgs {
    pub mp4: String,
    pub rtmp: Vec<RtmpDestination>,
    pub duration_secs: u64,
    pub encoder: VideoEncoderKind,
    pub max_width: u32,
    pub max_height: u32,
    pub max_fps: u32,
    pub capture_width: u32,
    pub capture_height: u32,
    pub capture_fps: u32,
    pub subtitle: Option<String>,
}

/// The destinations as platform/URL pairs.
pub open spec fn dest_views(v: Seq<RtmpDestination>) -> Seq<(Seq<char>, Seq<char>)> {
    v.map_values(|d: RtmpDestination| (d.platform@, d.url@))
}

pub open spec fn opt_view(o: Option<String>) -> Option<Seq<char>> {
    match o {
        Some(s) => Some(s@),
        None => None,
    }
}

struct SmokeState {
    mp4: Option<String>,
    rtmp: Vec<RtmpDestination>,
    duration_secs: u64,
    encoder: VideoEncoderKind,
    max_width: u32,
    max_height: u32,
    max_fps: u32,
    capture_width: u32,
    capture_height: u32,
    capture_fps: u32,
    subtitle: Option<String>,
    youtube_url: String,
    youtube_key_env: String,
}

impl SmokeState {
    spec fn model(&self) -> SmokeParse {
        SmokeParse {
            mp4: opt_view(self.mp4),
            rtmp: dest_views(self.rtmp@),
            duration_secs: self.duration_secs,
            encoder: self.encoder,
            max_width: self.max_width,
            max_height: self.max_height,
            max_fps: self.max_fps,
            capture_width: self.capture_width,
            capture_height: self.capture_height,
            capture_fps: self.capture_fps,
            subtitle: opt_view(self.subtitle),
            youtube_url: self.youtube_url@,
            youtube_key_env: self.youtube_key_env@,
        }
    }
}

fn push_destination(v: &mut Vec<RtmpDestination>, platform: &str, url: &str)
    ensures
        dest_views(final(v)@) == dest_views(old(v)@).push((platform@, url@)),
{
    let d = RtmpDestination::new(platform, url);
    v.push(d);
    assert(dest_views(v@) =~= dest_views(old(v)@).push((platform@, url@)));
}

fn missing_value(arg: &str) -> (s: String)
    ensures
        s@ == "missing value for "@ + arg@,
{
    let mut s = owned("missing value for ");
    push_str(&mut s, arg);
    s
}

/// Reads the smoke run's command line (without the program name) against
/// an environment snapshot.
pub fn parse_smoke_args(args: &[String], env: &[(String, String)]) -> (r: Result<SmokeArgs, String>)
    ensures
        match r {
            Ok(a) => smoke_result(strs(args@), env_view(env@)) matches Ok(st) && ({
                &&& st.mp4 == Some(a.mp4@)
                &&& st.rtmp == dest_views(a.rtmp@)
                &&& st.duration_secs == a.duration_secs
                &&& st.encoder == a.encoder
                &&& st.max_width == a.max_width
                &&& st.max_height == a.max_height
                &&& st.max_fps == a.max_fps
                &&& st.capture_width == a.capture_width
                &&& st.capture_height == a.capture_height
                &&& st.capture_fps == a.capture_fps
                &&& st.subtitle == opt_view(a.subtitle)
            }),
            Err(e) => smoke_result(strs(args@), env_view(env@)) == Err::<SmokeParse, Seq<char>>(e@),
        },
{
    let ghost argv = strs(args@);
    let ghost ev = env_view(env@);
    let max_width = env_u32(env, "BRIVVA_VIDEO_MAX_WIDTH", 1920);
    let max_height = env_u32(env, "BRIVVA_VIDEO_MAX_HEIGHT", 1080);
    let max_fps = env_u32(env, "BRIVVA_VIDEO_MAX_FPS", 30);
    let youtube_url = match env_var(env, "YOUTUBE_RTMP_URL") {
        Some(u) => owned(u.as_str()),
        None => owned(DEFAULT_YOUTUBE_RTMP_URL),
    };
    let mut st = SmokeState {
        mp4: None,
        rtmp: Vec::new(),
        duration_secs: DEFAULT_SMOKE_DURATION_SECS,
        encoder: VideoEncoderKind::X264,
        max_width,
        max_height,
        max_fps,
        capture_width: max_width,
        capture_height: max_height,
        capture_fps: max_fps,
        subtitle: None,
        youtube_url,
        youtube_key_env: owned(DEFAULT_YOUTUBE_KEY_ENV),
    };
    proof {
        assert(dest_views(st.rtmp@) =~= Seq::<(Seq<char>, Seq<char>)>::empty());
        assert(st.model() == initial_parse(ev));
    }
    let n = args.len();
    let mut i: usize = 0;
    while i < n
        invariant
            n == args@.len(),
            argv == strs(args@),
            ev == env_view(env@),
            i <= n,
            parse_from(initial_parse(ev), argv, 0, ev) == parse_from(st.model(), argv, i as nat, ev),
        decreases n - i,
    {
        let a = args[i].as_str();
        let has_value = i + 1 < n;
        proof {
            assert(argv[i as int] == a@);
            if has_value {
                assert(argv[i + 1] == args@[i + 1]@);
            }
        }
        if str_eq(a, "--youtube") {
            match env_var(env, st.youtube_key_env.as_str()) {
                Some(key) => {
                    let url = destination_url_with_key(st.youtube_url.as_str(), key.as_str());
                    push_destination(&mut st.rtmp, "youtube", url.as_str());
                    i = i + 1;
                },
                None => {
                    let mut e = owned(st.youtube_key_env.as_str());
                    push_str(&mut e, " env var missing");
                    return Err(e);
                },
            }
        } else if str_eq(a, "--help") || str_eq(a, "-h") {
            return Err(usage());
        } else if !(str_eq(a, "--mp4") || str_eq(a, "--rtmp") || str_eq(a, "--youtube-url")
            || str_eq(a, "--youtube-key-env") || str_eq(a, "--duration") || str_eq(a, "--encoder")
            || str_eq(a, "--max-width") || str_eq(a, "--max-height") || str_eq(a, "--max-fps")
            || str_eq(a, "--capture-width") || str_eq(a, "--capture-height")
            || str_eq(a, "--capture-fps") || str_eq(a, "--subtitle")) {
            let mut e = owned("unknown arg: ");
            push_str(&mut e, a);
            push_str(&mut e, "\n");
            push_str(&mut e, usage().as_str());
            return Err(e);
        } else if !has_value {
            return Err(missing_value(a));
        } else {
            let v = args[i + 1].as_str();
            if str_eq(a, "--mp4") {
                st.mp4 = Some(owned(v));
            } else if str_eq(a, "--rtmp") {
                push_destination(&mut st.rtmp, "rtmp", v);
            } else if str_eq(a, "--youtube-url") {
                st.youtube_url = owned(v);
            } else if str_eq(a, "--youtube-key-env") {
                st.youtube_key_env = owned(v);
            } else if str_eq(a, "--encoder") {
                st.encoder = VideoEncoderKind::from_wire(v);
            } else if str_eq(a, "--subtitle") {
                st.subtitle = Some(owned(v));
            } else if str_eq(a, "--duration") {
                match parse_u64(v) {
                    Some(d) => { st.duration_secs = d; },
                    None => { return Err(owned("bad --duration")); },
                }
            } else {
                match parse_u32(v) {
                    Some(x) => {
                        if str_eq(a, "--max-width") {
                            st.max_width = x;
                        } else if str_eq(a, "--max-height") {
                            st.max_height = x;
                        } else if str_eq(a, "--max-fps") {
                            st.max_fps = x;
                        } else if str_eq(a, "--capture-width") {
                            st.capture_width = x;
                        } else if str_eq(a, "--capture-height") {
                            st.capture_height = x;
                        } else {
                            st.capture_fps = x;
                        }
                    },
                    None => {
                        let mut e = owned("bad ");
                        push_str(&mut e, a);
                        return Err(e);
                    },
                }
            }
            i = i + 2;
        }
    }
    if st.rtmp.len() == 0 {
        return Err(owned("provide --youtube or at least one --rtmp <full-url>"));
    }
    match st.mp4 {
        None => Err(owned("--mp4 <path> required")),
        Some(mp4) => Ok(SmokeArgs {
            mp4,
            rtmp: st.rtmp,
            duration_secs: st.duration_secs,
            encoder: st.encoder,
            max_width: st.max_width,
            max_height: st.max_height,
            max_fps: st.max_fps,
            capture_width: st.capture_width,
            capture_height: st.capture_height,
            capture_fps: st.capture_fps,
            subtitle: st.subtitle,
        }),
    }
}

/// The server URL without trailing slashes, a slash, and the key.
fn destination_url_with_key(url: &str, key: &str) -> (r: String)
    ensures
        r@ == trim_trailing_slashes(url@) + "/"@ + key@,
{
    let mut end = url.unicode_len();
    assert(url@.subrange(0, end as int) =~= url@);
    while end > 0 && url.get_char(end - 1) == '/'
        invariant
            end <= url@.len(),
            trim_trailing_slashes(url@) == trim_trailing_slashes(url@.subrange(0, end as int)),
        decreases end,
    {
        assert(url@.subrange(0, end as int).drop_last() =~= url@.subrange(0, end - 1));
        end = end - 1;
    }
    let mut r = owned(url.substring_char(0, end));
    push_str(&mut r, "/");
    push_str(&mut r, key);
    r
}

} // verus!
