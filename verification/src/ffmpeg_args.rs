//! Video profiles and the FFmpeg command line that re-encodes the host's
//! WebRTC video and publishes it to RTMP destinations.

use vstd::prelude::*;

use crate::text::{ascii_lower_chars, ascii_lower_seq, chars_of, str_eq, string_of, trim_chars, trim_seq};

verus! {

/// The elementary stream format of the host video arriving on stdin.
#[derive(Debug, Clone, Copy, PartialEq, Eq, Structural)]
pub enum VideoInputCodec {
    H264AnnexB,
    Vp8Ivf,
}

/// The video encoder FFmpeg runs.
#[derive(Debug, Clone, Copy, PartialEq, Eq, Structural)]
pub enum VideoEncoderKind {
    X264,
    Nvenc,
}

/// The encoder a wire setting names: `nvenc` or `h264_nvenc` (any ASCII
/// case, surrounding white space ignored) is NVENC, anything else x264.
pub open spec fn encoder_of_wire(value: Seq<char>) -> VideoEncoderKind {
    let v = ascii_lower_seq(trim_seq(value));
    if v == "nvenc"@ || v == "h264_nvenc"@ { VideoEncoderKind::Nvenc } else { VideoEncoderKind::X264 }
}

pub open spec fn encoder_codec_name(e: VideoEncoderKind) -> Seq<char> {
    match e {
        VideoEncoderKind::X264 => "libx264"@,
        VideoEncoderKind::Nvenc => "h264_nvenc"@,
    }
}

impl VideoEncoderKind {
    /// The encoder a configuration value names.
    pub fn from_wire(value: &str) -> (e: Self)
        ensures
            e == encoder_of_wire(value@),
    {
        let v = ascii_lower_chars(&trim_chars(&chars_of(value)));
        let s = string_of(&v);
        if str_eq(s.as_str(), "nvenc") || str_eq(s.as_str(), "h264_nvenc") {
            VideoEncoderKind::Nvenc
        } else {
            VideoEncoderKind::X264
        }
    }

    /// The FFmpeg codec the encoder runs.
    pub fn codec_name(self) -> (s: &'static str)
        ensures
            s@ == encoder_codec_name(self),
    {
        match self {
            VideoEncoderKind::X264 => "libx264",
            VideoEncoderKind::Nvenc => "h264_nvenc",
        }
    }
}

pub open spec fn codec_format(c: VideoInputCodec) -> Seq<char> {
    match c {
        VideoInputCodec::H264AnnexB => "h264"@,
        VideoInputCodec::Vp8Ivf => "ivf"@,
    }
}

pub open spec fn codec_label(c: VideoInputCodec) -> Seq<char> {
    match c {
        VideoInputCodec::H264AnnexB => "h264_annexb"@,
        VideoInputCodec::Vp8Ivf => "vp8_ivf"@,
    }
}

impl VideoInputCodec {
    /// The FFmpeg demuxer name for this input.
    pub fn ffmpeg_format(self) -> (s: &'static str)
        ensures
            s@ == codec_format(self),
    {
        match self {
            Self::H264AnnexB => "h264",
            Self::Vp8Ivf => "ivf",
        }
    }

    /// The name of this input in logs.
    pub fn log_label(self) -> (s: &'static str)
        ensures
            s@ == codec_label(self),
    {
        match self {
            Self::H264AnnexB => "h264_annexb",
            Self::Vp8Ivf => "vp8_ivf",
        }
    }
}

#[derive(Debug, Clone, Copy, PartialEq, Eq, Structural)]
pub struct VideoProfile {
    pub input_fps: u32,
    pub output_fps: u32,
    pub max_width: u32,
    pub max_height: u32,
    pub bitrate_kbps: u32,
    pub maxrate_kbps: u32,
    pub bufsize_kbps: u32,
    pub keyframe_interval_frames: u32,
    pub pad_to_canvas: bool,
}

#[derive(Debug, Clone, Copy, PartialEq, Eq, Structural)]
pub struct VideoProfileCaps {
    pub max_width: u32,
    pub max_height: u32,
    pub max_fps: u32,
}

pub const BACKEND_MAX_WIDTH: u32 = 1920;
pub const BACKEND_MAX_HEIGHT: u32 = 1080;

/// `x` clamped into `[lo, hi]` (`lo <= hi`).
pub open spec fn clamp_u32(x: u32, lo: u32, hi: u32) -> u32 {
    if x < lo { lo } else if x > hi { hi } else { x }
}

pub open spec fn min_u32(a: u32, b: u32) -> u32 {
    if a <= b { a } else { b }
}

pub fn clamp(x: u32, lo: u32, hi: u32) -> (r: u32)
    requires
        lo <= hi,
    ensures
        r == clamp_u32(x, lo, hi),
{
    if x < lo { lo } else if x > hi { hi } else { x }
}

pub fn min(a: u32, b: u32) -> (r: u32)
    ensures
        r == min_u32(a, b),
{
    if a <= b { a } else { b }
}

pub open spec fn default_caps() -> VideoProfileCaps {
    VideoProfileCaps { max_width: 1920, max_height: 1080, max_fps: 30 }
}

pub open spec fn default_profile() -> VideoProfile {
    VideoProfile {
        input_fps: 30,
        output_fps: 30,
        max_width: 1920,
        max_height: 1080,
        bitrate_kbps: 6_000,
        maxrate_kbps: 9_000,
        bufsize_kbps: 18_000,
        keyframe_interval_frames: 60,
        pad_to_canvas: false,
    }
}

impl Default for VideoProfileCaps {
    fn default() -> (c: Self)
        ensures
            c == default_caps(),
    {
        Self { max_width: 1920, max_height: 1080, max_fps: 30 }
    }
}

impl Default for VideoProfile {
    fn default() -> (p: Self)
        ensures
            p == default_profile(),
    {
        Self {
            input_fps: 30,
            output_fps: 30,
            max_width: 1920,
            max_height: 1080,
            bitrate_kbps: 6_000,
            maxrate_kbps: 9_000,
            bufsize_kbps: 18_000,
            keyframe_interval_frames: 60,
            pad_to_canvas: false,
        }
    }
}

impl VideoProfileCaps {
    /// Runtime caps, each clamped to what the backend supports.
    pub fn new(max_width: u32, max_height: u32, max_fps: u32) -> (c: Self)
        ensures
            c.max_width == clamp_u32(max_width, 640, BACKEND_MAX_WIDTH),
            c.max_height == clamp_u32(max_height, 360, BACKEND_MAX_HEIGHT),
            c.max_fps == clamp_u32(max_fps, 15, 120),
    {
        Self {
            max_width: clamp(max_width, 640, BACKEND_MAX_WIDTH),
            max_height: clamp(max_height, 360, BACKEND_MAX_HEIGHT),
            max_fps: clamp(max_fps, 15, 120),
        }
    }
}

/// Whether a capture size is in the 4K class: 3840 wide and at least
/// 3840x1600 pixels (the product saturating at the top of `u32`).
pub open spec fn is_4k(width: u32, height: u32) -> bool {
    width >= 3840 && (width * height >= 3840 * 1600)
}

/// The video bitrate for an output size and frame rate.
pub open spec fn bitrate_spec(width: u32, height: u32, fps: u32) -> u32 {
    if is_4k(width, height) && fps > 60 {
        35_000
    } else if is_4k(width, height) {
        24_000
    } else if width >= 1920 && height >= 1080 && fps > 60 {
        12_000
    } else if width >= 1920 && height >= 1080 {
        6_000
    } else if fps > 60 {
        6_000
    } else {
        3_500
    }
}

/// The profile for a capture of `width` x `height` at `fps`, under `caps`.
pub open spec fn profile_from_capture(width: u32, height: u32, fps: u32, caps: VideoProfileCaps) -> VideoProfile {
    let input_fps = clamp_u32(fps, 15, 120);
    let output_fps = min_u32(input_fps, caps.max_fps);
    let max_width = if is_4k(width, height) {
        min_u32(3840, caps.max_width)
    } else if width >= 1920 && height >= 1080 {
        min_u32(1920, caps.max_width)
    } else {
        min_u32(1280, caps.max_width)
    };
    let max_height = if is_4k(width, height) {
        min_u32(2160, caps.max_height)
    } else if width >= 1920 && height >= 1080 {
        min_u32(1080, caps.max_height)
    } else {
        min_u32(720, caps.max_height)
    };
    let bitrate = bitrate_spec(max_width, max_height, output_fps);
    VideoProfile {
        input_fps,
        output_fps,
        max_width,
        max_height,
        bitrate_kbps: bitrate,
        maxrate_kbps: (bitrate + bitrate / 2) as u32,
        bufsize_kbps: (bitrate * 3) as u32,
        keyframe_interval_frames: (output_fps * 2) as u32,
        pad_to_canvas: false,
    }
}

/// The portrait 720x1280 profile for mobile viewing, keeping the input
/// rate and at most 30 fps out.
pub open spec fn mobile_portrait_of(p: VideoProfile) -> VideoProfile {
    let output_fps = min_u32(p.output_fps, 30);
    VideoProfile {
        input_fps: p.input_fps,
        output_fps,
        max_width: 720,
        max_height: 1280,
        bitrate_kbps: 2_500,
        maxrate_kbps: 2_800,
        bufsize_kbps: 5_000,
        keyframe_interval_frames: (output_fps * 2) as u32,
        pad_to_canvas: true,
    }
}

/// Output layout settings that keep the source aspect instead of the mobile
/// portrait canvas (after trimming and ASCII lower-casing).
pub open spec fn is_source_layout(layout: Seq<char>) -> bool {
    let v = ascii_lower_seq(trim_seq(layout));
    v == "source"@ || v == "source_aspect"@ || v == "landscape"@ || v == "desktop"@
}

/// Whether the mobile portrait output is on for a layout setting (`None`:
/// unset, which means mobile portrait).
pub open spec fn mobile_portrait_enabled(layout: Option<Seq<char>>) -> bool {
    match layout {
        Some(l) => !is_source_layout(l),
        None => true,
    }
}

/// The profile a destination gets under a layout setting (`None`: unset).
pub open spec fn profile_for_layout(p: VideoProfile, layout: Option<Seq<char>>) -> VideoProfile {
    if mobile_portrait_enabled(layout) { mobile_portrait_of(p) } else { p }
}

/// The layout settings `source`, `source_aspect`, `landscape` and
/// `desktop`, in any ASCII case and with surrounding white space, keep the
/// capture profile as it is; any other setting, and no setting, gives the
/// mobile portrait canvas: 720x1280, padded, 2500k, at most 30 fps.
pub proof fn lemma_layout_choice(p: VideoProfile, layout: Seq<char>)
    ensures
        ({
            let v = ascii_lower_seq(trim_seq(layout));
            &&& (v == "source"@ || v == "source_aspect"@ || v == "landscape"@ || v == "desktop"@)
                ==> profile_for_layout(p, Some(layout)) == p
            &&& !(v == "source"@ || v == "source_aspect"@ || v == "landscape"@ || v == "desktop"@)
                ==> profile_for_layout(p, Some(layout)) == mobile_portrait_of(p)
        }),
        profile_for_layout(p, None) == mobile_portrait_of(p),
        mobile_portrait_of(p).max_width == 720,
        mobile_portrait_of(p).max_height == 1280,
        mobile_portrait_of(p).pad_to_canvas,
        mobile_portrait_of(p).bitrate_kbps == 2_500,
        mobile_portrait_of(p).output_fps <= 30,
        mobile_portrait_of(p).output_fps <= p.output_fps,
{
}

fn mul_sat(a: u32, b: u32) -> (r: u32)
    ensures
        r as int == if a * b <= u32::MAX { a * b } else { u32::MAX as int },
{
    assert((a as u64) * (b as u64) <= (u32::MAX as u64) * (u32::MAX as u64)) by (nonlinear_arith);
    let p = a as u64 * b as u64;
    if p <= u32::MAX as u64 { p as u32 } else { u32::MAX }
}

/// Whether a capture size is in the 4K class.
pub fn is_4k_class(width: u32, height: u32) -> (b: bool)
    ensures
        b == is_4k(width, height),
{
    width >= 3840 && mul_sat(width, height) >= 3840 * 1600
}

/// The video bitrate for an output size and frame rate.
pub fn bitrate_for(width: u32, height: u32, fps: u32) -> (r: u32)
    ensures
        r == bitrate_spec(width, height, fps),
{
    let k4 = is_4k_class(width, height);
    if k4 && fps > 60 {
        35_000
    } else if k4 {
        24_000
    } else if width >= 1920 && height >= 1080 && fps > 60 {
        12_000
    } else if width >= 1920 && height >= 1080 {
        6_000
    } else if fps > 60 {
        6_000
    } else {
        3_500
    }
}

/// Whether a layout setting asks to keep the source aspect.
pub fn source_layout_requested(layout: &str) -> (b: bool)
    ensures
        b == is_source_layout(layout@),
{
    let v = ascii_lower_chars(&trim_chars(&chars_of(layout)));
    let s = string_of(&v);
    let t = s.as_str();
    str_eq(t, "source") || str_eq(t, "source_aspect") || str_eq(t, "landscape") || str_eq(t, "desktop")
}

impl VideoProfile {
    /// The profile for a capture, under the default caps.
    pub fn from_capture(width: u32, height: u32, fps: u32) -> (p: Self)
        ensures
            p == profile_from_capture(width, height, fps, default_caps()),
    {
        Self::from_capture_with_caps(width, height, fps, VideoProfileCaps::default())
    }

    /// The profile for a capture under runtime caps: the output stays at
    /// the capture tier and never exceeds the caps.
    pub fn from_capture_with_caps(width: u32, height: u32, fps: u32, caps: VideoProfileCaps) -> (p: Self)
        ensures
            p == profile_from_capture(width, height, fps, caps),
    {
        let input_fps = clamp(fps, 15, 120);
        let output_fps = min(input_fps, caps.max_fps);
        let k4 = is_4k_class(width, height);
        let (max_width, max_height) = if k4 {
            (min(3840, caps.max_width), min(2160, caps.max_height))
        } else if width >= 1920 && height >= 1080 {
            (min(1920, caps.max_width), min(1080, caps.max_height))
        } else {
            (min(1280, caps.max_width), min(720, caps.max_height))
        };
        let bitrate_kbps = bitrate_for(max_width, max_height, output_fps);
        Self {
            input_fps,
            output_fps,
            max_width,
            max_height,
            bitrate_kbps,
            maxrate_kbps: bitrate_kbps + bitrate_kbps / 2,
            bufsize_kbps: bitrate_kbps * 3,
            keyframe_interval_frames: output_fps * 2,
            pad_to_canvas: false,
        }
    }

    /// The profile for a destination platform under the default output
    /// layout, which is the mobile portrait canvas.
    pub fn for_destination_platform(self, platform: &str) -> (p: Self)
        ensures
            p == mobile_portrait_of(self),
    {
        self.for_destination_platform_with_layout(platform, None)
    }

    /// The profile for a destination platform under an output layout
    /// setting (`None` when unset).
    pub fn for_destination_platform_with_layout(self, _platform: &str, layout: Option<&str>) -> (p: Self)
        ensures
            p == if mobile_portrait_enabled(match layout { Some(l) => Some(l@), None => None }) {
                mobile_portrait_of(self)
            } else {
                self
            },
    {
        let enabled = match layout {
            Some(l) => !source_layout_requested(l),
            None => true,
        };
        if !enabled {
            return self;
        }
        self.as_mobile_portrait_output()
    }

    fn as_mobile_portrait_output(self) -> (p: Self)
        ensures
            p == mobile_portrait_of(self),
    {
        let output_fps = min(self.output_fps, 30);
        Self {
            input_fps: self.input_fps,
            output_fps,
            max_width: 720,
            max_height: 1280,
            bitrate_kbps: 2_500,
            maxrate_kbps: 2_800,
            bufsize_kbps: 5_000,
            keyframe_interval_frames: output_fps * 2,
            pad_to_canvas: true,
        }
    }
}

/// Profiles never exceed their caps: the output rate stays within the caps'
/// rate and the clamped capture rate, and the frame size within the caps.
pub proof fn lemma_profile_within_caps(width: u32, height: u32, fps: u32, caps: VideoProfileCaps)
    ensures
        ({
            let p = profile_from_capture(width, height, fps, caps);
            &&& p.output_fps <= caps.max_fps
            &&& p.output_fps <= p.input_fps
            &&& 15 <= p.input_fps <= 120
            &&& p.max_width <= caps.max_width
            &&& p.max_height <= caps.max_height
            &&& p.keyframe_interval_frames == 2 * p.output_fps
            &&& !p.pad_to_canvas
        }),
{
}

} // verus!
