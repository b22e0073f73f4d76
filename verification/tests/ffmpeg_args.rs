use brivva::ffmpeg_args::{VideoEncoderKind, VideoInputCodec, VideoProfile, VideoProfileCaps};
use brivva::ffmpeg_cmd::{
    build_ffmpeg_args, build_ffmpeg_args_with_profile, build_ffmpeg_args_with_profile_and_encoder,
    build_ffmpeg_args_with_render, escape_drawtext_value, escape_tee_url, RenderOptions,
};
use brivva::ffmpeg_log::{parse_tee_slave_muxer_index, redact_rtmp_secrets};

#[test]
fn build_ffmpeg_args_reencodes_webrtc_h264_with_stable_clock() {
    let args = build_ffmpeg_args("/tmp/fifo_src", "rtmp://x/y");
    let joined = args.join(" ");
    assert!(joined.ends_with("rtmp://x/y"));
    assert!(joined.contains("-progress pipe:2 -stats_period 1"));
    assert!(joined.contains("-f h264"));
    assert!(joined.contains("-use_wallclock_as_timestamps 1 -i pipe:0"));
    assert!(joined.contains(
        "-vf fps=30,scale='min(1920,iw)':'min(1080,ih)':force_original_aspect_ratio=decrease"
    ));
    assert!(joined.contains("-c:v libx264"));
    assert!(joined.contains("-preset ultrafast"));
    assert!(joined.contains("-tune zerolatency"));
    assert!(joined.contains("-bf 0"));
    assert!(joined.contains("-b:v 6000k -maxrate 9000k -bufsize 18000k"));
    assert!(joined.contains("-g 60"));
    assert!(!joined.contains("-c:v copy"));
    assert!(!joined.contains("image2pipe"));
    assert!(!joined.contains("mjpeg"));
    assert!(!joined.contains("udp"));
    assert!(!joined.contains("rtp"));
}

#[test]
fn build_ffmpeg_args_always_passes_f_flv_for_rtmp_family_publish() {
    let args = build_ffmpeg_args("/tmp/fifo", "rtmp://localhost/live");
    let idx = args.iter().rposition(|s| s == "-f").expect("-f present");
    assert_eq!(args[idx + 1], "flv");
}

#[test]
fn build_ffmpeg_args_passes_44100_mono_s16le_for_audio_fifo_input() {
    let args = build_ffmpeg_args("/tmp/fifo", "rtmp://x");
    let ar_idx = args.iter().position(|s| s == "-ar").unwrap();
    assert_eq!(args[ar_idx + 1], "44100");
    let ac_idx = args.iter().position(|s| s == "-ac").unwrap();
    assert_eq!(args[ac_idx + 1], "1");
}

#[test]
fn build_ffmpeg_args_raises_input_thread_queues() {
    let args = build_ffmpeg_args("/tmp/fifo", "rtmp://x");
    let queue_flags = args.iter().filter(|s| s.as_str() == "-thread_queue_size").count();
    assert_eq!(queue_flags, 2, "one queue per input");
    for (i, arg) in args.iter().enumerate() {
        if arg == "-thread_queue_size" {
            assert_eq!(args[i + 1], "1024");
        }
    }
}

#[test]
fn build_ffmpeg_args_keeps_audio_encoding_for_rtmp() {
    let args = build_ffmpeg_args("/tmp/fifo", "rtmp://x");
    let b_a_idx = args.iter().position(|s| s == "-b:a").unwrap();
    assert_eq!(args[b_a_idx + 1], "128k");
}

#[test]
fn build_ffmpeg_args_uses_low_latency_flv_muxing() {
    let args = build_ffmpeg_args("/tmp/fifo", "rtmp://x");
    let joined = args.join(" ");
    assert!(joined.contains("-muxdelay 0"));
    assert!(joined.contains("-muxpreload 0"));
    assert!(joined.contains("-flush_packets 1"));
    assert!(joined.contains("-rtmp_live live"));
    assert!(joined.contains("-flvflags no_duration_filesize"));
}

#[test]
fn video_profile_keeps_launch_rtmp_output_at_1080p30() {
    let profile = VideoProfile::from_capture(3840, 2160, 60);
    assert_eq!(profile.input_fps, 60);
    assert_eq!(profile.output_fps, 30);
    assert_eq!(profile.max_width, 1920);
    assert_eq!(profile.max_height, 1080);
    assert_eq!(profile.bitrate_kbps, 6_000);
}

#[test]
fn video_profile_uses_720p30_for_720p_capture() {
    let profile = VideoProfile::from_capture(1280, 720, 15);
    assert_eq!(profile.input_fps, 15);
    assert_eq!(profile.output_fps, 15);
    assert_eq!(profile.max_width, 1280);
    assert_eq!(profile.max_height, 720);
    assert_eq!(profile.bitrate_kbps, 3_500);
}

#[test]
fn video_profile_caps_4k_capture_to_1080p_backend_ceiling() {
    let profile = VideoProfile::from_capture_with_caps(3840, 2160, 120, VideoProfileCaps::new(3840, 2160, 120));
    assert_eq!(profile.input_fps, 120);
    assert_eq!(profile.output_fps, 120);
    assert_eq!(profile.max_width, 1920);
    assert_eq!(profile.max_height, 1080);
    assert_eq!(profile.bitrate_kbps, 12_000);
}

#[test]
fn video_profile_caps_wide_4k_capture_to_1080p_backend_ceiling() {
    let profile = VideoProfile::from_capture_with_caps(3840, 1920, 30, VideoProfileCaps::new(3840, 2160, 30));
    assert_eq!(profile.input_fps, 30);
    assert_eq!(profile.output_fps, 30);
    assert_eq!(profile.max_width, 1920);
    assert_eq!(profile.max_height, 1080);
    assert_eq!(profile.bitrate_kbps, 6_000);
}

#[test]
fn video_profile_caps_high_capture_to_runtime_tier() {
    let profile = VideoProfile::from_capture_with_caps(3840, 2160, 120, VideoProfileCaps::new(1920, 1080, 60));
    assert_eq!(profile.input_fps, 120);
    assert_eq!(profile.output_fps, 60);
    assert_eq!(profile.max_width, 1920);
    assert_eq!(profile.max_height, 1080);
    assert_eq!(profile.bitrate_kbps, 6_000);
}

#[test]
fn video_profile_for_rtmp_platforms_defaults_to_mobile_portrait() {
    let profile = VideoProfile::from_capture_with_caps(1920, 1080, 60, VideoProfileCaps::new(1920, 1080, 60))
        .for_destination_platform("youtube-ja");

    assert_eq!(profile.input_fps, 60);
    assert_eq!(profile.output_fps, 30);
    assert_eq!(profile.max_width, 720);
    assert_eq!(profile.max_height, 1280);
    assert_eq!(profile.bitrate_kbps, 2_500);
    assert_eq!(profile.maxrate_kbps, 2_800);
    assert_eq!(profile.keyframe_interval_frames, 60);
    assert!(profile.pad_to_canvas);
}

#[test]
fn build_ffmpeg_args_for_mobile_rtmp_pads_to_portrait_canvas() {
    let profile = VideoProfile::default().for_destination_platform("youtube-ja");
    let args = build_ffmpeg_args_with_profile(
        "/tmp/fifo",
        None,
        &["rtmp://youtube/live/key".to_string()],
        profile,
        VideoEncoderKind::Nvenc,
        VideoInputCodec::H264AnnexB,
    );
    let joined = args.join(" ");

    assert!(joined.contains("-vf fps=30,scale=720:1280:force_original_aspect_ratio=decrease,pad=720:1280:(ow-iw)/2:(oh-ih)/2:black"));
    assert!(joined.contains("-g 60 -keyint_min 60"));
    assert!(joined.contains("-b:v 2500k -maxrate 2800k -bufsize 5000k"));
}

#[test]
fn build_ffmpeg_args_can_accept_vp8_ivf_input() {
    let args = build_ffmpeg_args_with_profile(
        "/tmp/fifo",
        None,
        &["rtmp://x/y".to_string()],
        VideoProfile::default(),
        VideoEncoderKind::X264,
        VideoInputCodec::Vp8Ivf,
    );
    let joined = args.join(" ");
    assert!(joined.contains("-f ivf"));
    assert!(joined.contains("-use_wallclock_as_timestamps 1 -i pipe:0"));
    assert!(joined.contains("-c:v libx264"));
}

#[test]
fn build_ffmpeg_args_uses_wallclock_input_for_reencode_profile() {
    let args = build_ffmpeg_args_with_profile(
        "/tmp/fifo",
        None,
        &["rtmp://x/y".to_string()],
        VideoProfile::from_capture(3840, 2160, 60),
        VideoEncoderKind::X264,
        VideoInputCodec::H264AnnexB,
    );
    let joined = args.join(" ");
    assert!(joined.contains("-use_wallclock_as_timestamps 1 -i pipe:0"));
    assert!(joined.contains(
        "-vf fps=30,scale='min(1920,iw)':'min(1080,ih)':force_original_aspect_ratio=decrease"
    ));
    assert!(joined.contains("-c:v libx264"));
    assert!(joined.contains("-b:v 6000k -maxrate 9000k -bufsize 18000k"));
    assert!(!joined.contains("-c:v copy"));
}

#[test]
fn build_ffmpeg_args_can_use_nvenc_for_gpu_launch_path() {
    let args = build_ffmpeg_args_with_profile_and_encoder(
        "/tmp/fifo",
        None,
        &["rtmp://x/y".to_string()],
        VideoProfile::default(),
        VideoEncoderKind::Nvenc,
        VideoInputCodec::H264AnnexB,
    );
    let joined = args.join(" ");
    assert!(joined.contains("-c:v h264_nvenc"));
    assert!(joined.contains("-preset p1"));
    assert!(joined.contains("-tune ll"));
    assert!(joined.contains("-rc cbr"));
    assert!(joined.contains("-profile:v high"));
    assert!(joined.contains("-b:v 6000k -maxrate 9000k -bufsize 18000k"));
    assert!(!joined.contains("-c:v libx264"));
}

#[test]
fn build_ffmpeg_args_can_burn_subtitles_from_reloadable_textfile() {
    let args = build_ffmpeg_args_with_profile(
        "/tmp/fifo",
        Some("/tmp/brivva_subtitle_stream-1.txt"),
        &["rtmp://x/y".to_string()],
        VideoProfile::default(),
        VideoEncoderKind::X264,
        VideoInputCodec::H264AnnexB,
    );
    let joined = args.join(" ");
    assert!(joined.contains("drawtext=textfile=/tmp/brivva_subtitle_stream-1.txt"));
    assert!(joined.contains(":fontfile="));
    assert!(joined.contains(":reload=1"));
    assert!(joined.contains("box=1"));
}

#[test]
fn build_ffmpeg_args_can_publish_one_encode_to_multiple_rtmp_urls() {
    let args = build_ffmpeg_args_with_profile(
        "/tmp/fifo",
        None,
        &["rtmp://a/live/key-a".to_string(), "rtmp://b/live/key-b".to_string()],
        VideoProfile::default(),
        VideoEncoderKind::X264,
        VideoInputCodec::H264AnnexB,
    );
    let joined = args.join(" ");
    assert!(joined.contains("-f tee"));
    assert!(joined.contains("[f=flv:flvflags=no_duration_filesize:onfail=ignore]rtmp://a/live/key-a"));
    assert!(joined.contains("|[f=flv:flvflags=no_duration_filesize:onfail=ignore]rtmp://b/live/key-b"));
    assert!(!joined.contains("-f flv rtmp://a/live/key-a"));
}

#[test]
fn parse_tee_slave_muxer_index_extracts_failed_destination_index() {
    assert_eq!(parse_tee_slave_muxer_index("[tee @ 0x1] Slave muxer #1 failed: Broken pipe"), Some(1));
    assert_eq!(parse_tee_slave_muxer_index("ordinary ffmpeg stderr"), None);
}

#[test]
fn redact_rtmp_secrets_hides_last_path_segment() {
    let line = "Output #0 to 'rtmps://a.rtmps.youtube.com/live2/secret-key-123':";
    let redacted = redact_rtmp_secrets(line);

    assert_eq!(redacted, "Output #0 to 'rtmps://a.rtmps.youtube.com/live2/<redacted>':");
    assert!(!redacted.contains("secret-key-123"));
}

#[test]
fn redact_rtmp_secrets_handles_multiple_urls() {
    let line = "rtmp://one/app/key1 -> rtmps://two/live/key2";

    assert_eq!(redact_rtmp_secrets(line), "rtmp://one/app/<redacted> -> rtmps://two/live/<redacted>");
}

#[test]
fn tee_slave_index_needs_digits_and_takes_the_first_marker() {
    assert_eq!(parse_tee_slave_muxer_index("Slave muxer # failed"), None);
    assert_eq!(parse_tee_slave_muxer_index("Slave muxer #12 and Slave muxer #3"), Some(12));
    assert_eq!(parse_tee_slave_muxer_index("Slave muxer #99999999999999999999999"), None);
}

#[test]
fn redact_leaves_text_without_rtmp_urls_alone() {
    assert_eq!(redact_rtmp_secrets("no urls here"), "no urls here");
    assert_eq!(redact_rtmp_secrets("http://x/y/z"), "http://x/y/z");
}

#[test]
fn escapes_for_drawtext_and_tee() {
    assert_eq!(escape_drawtext_value("a:b,c'd\\e"), "a\\:b\\,c\\'d\\\\e");
    assert_eq!(escape_tee_url("rtmp://x/a|b\\c"), "rtmp://x/a\\|b\\\\c");
}

#[test]
fn render_options_choose_font_and_debug_clock() {
    let render = RenderOptions { fontfile: "/fonts/x.ttf", debug_video_clock: true };
    let args = build_ffmpeg_args_with_render(
        "/tmp/fifo",
        Some("/tmp/sub.txt"),
        &["rtmp://x/y".to_string()],
        VideoProfile::default(),
        VideoEncoderKind::X264,
        VideoInputCodec::H264AnnexB,
        &render,
    );
    let joined = args.join(" ");
    assert!(joined.contains("fontfile=/fonts/x.ttf"));
    assert!(joined.contains("drawtext=text='BRIVVA %{pts\\:hms}'"));
}

#[test]
fn single_non_rtmp_target_skips_rtmp_live_flag() {
    let args = build_ffmpeg_args("/tmp/fifo", "srt://host:9999");
    assert!(!args.iter().any(|a| a == "-rtmp_live"));
    assert_eq!(args.last().unwrap(), "srt://host:9999");
}

#[test]
fn encoder_wire_names_pick_nvenc_only_when_asked() {
    assert_eq!(VideoEncoderKind::from_wire("nvenc"), VideoEncoderKind::Nvenc);
    assert_eq!(VideoEncoderKind::from_wire(" NVENC "), VideoEncoderKind::Nvenc);
    assert_eq!(VideoEncoderKind::from_wire("x264"), VideoEncoderKind::X264);
    assert_eq!(VideoEncoderKind::Nvenc.codec_name(), "h264_nvenc");
}

#[test]
fn input_codec_labels() {
    assert_eq!(VideoInputCodec::H264AnnexB.ffmpeg_format(), "h264");
    assert_eq!(VideoInputCodec::Vp8Ivf.ffmpeg_format(), "ivf");
}

#[test]
fn redacting_twice_changes_nothing_and_plain_text_is_left_alone() {
    let line = "to 'rtmp://a.example/live/key1' and rtmps://b.example/app/verylongsecretkey2 done";
    let once = redact_rtmp_secrets(line);
    assert_eq!(once, "to 'rtmp://a.example/live/<redacted>' and rtmps://b.example/app/<redacted> done");
    assert_eq!(redact_rtmp_secrets(&once), once);
    let plain = "frame=  100 fps= 30 rtmp server is up";
    assert_eq!(redact_rtmp_secrets(plain), plain);
}
