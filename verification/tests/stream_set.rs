use brivva::rtmp::{
    now_unix_ms, RtmpDestination, StreamBuffers, TtsSegment, HOST_AUDIO_CAP_BYTES, HOST_VIDEO_H264_CAP_CHUNKS,
    MAX_FFMPEG_RESTARTS, TTS_QUEUE_CAP_BYTES,
};
use brivva::ffmpeg_args::{VideoEncoderKind, VideoInputCodec, VideoProfile, VideoProfileCaps};
use brivva::stream_set::{StreamEntry, StreamSet, VideoSettings};

fn entry(id: &str, lang: &str, is_source: bool, passthrough: bool) -> StreamEntry {
    StreamEntry {
        id: id.to_string(),
        lang: lang.to_string(),
        rtmp_urls: vec!["rtmp://fake".to_string()],
        destinations: vec![RtmpDestination::new("youtube", "rtmp://fake")],
        destination_platform: "youtube".to_string(),
        delay_ms: 1000,
        is_source,
        passthrough,
        output_id: None,
        output_controls_enabled: false,
        video_input_codec: VideoInputCodec::H264AnnexB,
        restart_count: 0,
        stop: false,
        last_write_ms: now_unix_ms(),
        buffers: StreamBuffers::new(),
    }
}

#[test]
fn detect_crashed_on_empty_manager_returns_empty_vec() {
    let mut m = StreamSet::new();
    let crashed = m.detect_crashed(&[]);
    assert!(crashed.is_empty());
}

#[test]
fn detect_crashed_picks_up_exited_child_and_emits_restart_snapshot() {
    let mut m = StreamSet::new();
    m.streams.push(entry("fake", "ja", false, false));

    let crashed = m.detect_crashed(&[true]);
    assert_eq!(crashed.len(), 1, "exited child should register as crashed");
    assert_eq!(crashed[0].id, "fake");
    assert_eq!(crashed[0].lang, "ja");
    assert!(m.streams.iter().all(|s| s.id != "fake"));
}

#[test]
fn detect_crashed_skips_streams_with_stop_flag_set() {
    let mut m = StreamSet::new();
    let mut stream = entry("stopped", "ja", true, false);
    stream.stop = true;
    m.streams.push(stream);

    let crashed = m.detect_crashed(&[true]);
    assert!(crashed.is_empty());
    assert!(m.streams.iter().any(|s| s.id == "stopped"));
}

#[test]
fn detect_crashed_abandons_stream_after_max_restart_attempts() {
    let mut m = StreamSet::new();
    let mut stream = entry("hot", "ja", false, false);
    stream.restart_count = MAX_FFMPEG_RESTARTS;
    m.streams.push(stream);

    let crashed = m.detect_crashed(&[true]);
    assert!(crashed.is_empty(), "exhausted streams must not re-enter restart loop");
    assert!(m.streams[0].stop);
}

#[test]
fn crashed_stream_snapshot_preserves_passthrough_across_restart() {
    let mut m = StreamSet::new();
    m.streams.push(entry("p", "en", true, true));

    let crashed = m.detect_crashed(&[true]);
    assert_eq!(crashed.len(), 1);
    assert_eq!(crashed[0].id, "p");
    assert!(crashed[0].is_source, "is_source preserved");
    assert!(crashed[0].passthrough, "passthrough preserved across restart");
}

#[test]
fn detect_crashed_keeps_running_streams_and_queued_media() {
    let mut m = StreamSet::new();
    let mut a = entry("a", "ja", false, false);
    a.buffers.tts.push_back(TtsSegment::new(1, 0, "ja".to_string(), "hi".to_string(), vec![1u8; 10]));
    a.restart_count = 1;
    m.streams.push(a);
    m.streams.push(entry("b", "ko", false, false));
    m.streams.push(entry("c", "zh", false, false));

    let crashed = m.detect_crashed(&[true, false, false]);
    assert_eq!(crashed.len(), 1);
    assert!(crashed[0].stop);
    assert_eq!(crashed[0].restart_count, 1);
    assert_eq!(crashed[0].buffers.tts.len(), 1);
    assert_eq!(crashed[0].buffers.tts[0].pcm.len(), 10);
    let ids: Vec<&str> = m.streams.iter().map(|s| s.id.as_str()).collect();
    assert_eq!(ids, vec!["b", "c"]);
    assert!(m.streams.iter().all(|s| !s.stop));
}

#[test]
fn kill_idle_streams_on_empty_manager_does_nothing() {
    let m = StreamSet::new();
    assert!(m.idle_streams(now_unix_ms()).is_empty());
    assert!(m.streams.is_empty());
}

#[test]
fn kill_idle_streams_observes_idle_and_invokes_kill_branch() {
    let mut m = StreamSet::new();
    let mut stream = entry("idle", "ja", false, false);
    stream.last_write_ms = 1;
    m.streams.push(stream);
    let now = now_unix_ms();
    let idle = m.idle_streams(now);
    assert_eq!(idle, vec![0]);
    m.record_kill(0, now);
    assert_eq!(m.streams[0].last_write_ms, now);
    assert!(m.streams.iter().any(|s| s.id == "idle"));
    assert!(m.idle_streams(now).is_empty());
}

#[test]
fn kill_idle_streams_skips_streams_with_zero_last_write() {
    let mut m = StreamSet::new();
    let mut stream = entry("unseeded", "ja", false, false);
    stream.last_write_ms = 0;
    m.streams.push(stream);
    assert!(m.idle_streams(now_unix_ms()).is_empty());
    assert_eq!(m.streams[0].last_write_ms, 0);
}

#[test]
fn kill_idle_streams_skips_streams_with_stop_flag_set() {
    let mut m = StreamSet::new();
    let mut stream = entry("stopped", "ja", false, false);
    stream.last_write_ms = 1;
    stream.stop = true;
    m.streams.push(stream);
    assert!(m.idle_streams(now_unix_ms()).is_empty());
    assert_eq!(m.streams[0].last_write_ms, 1);
}

#[test]
fn tts_backlog_is_the_longest_queue_of_the_language() {
    let mut m = StreamSet::new();
    let mut a = entry("a", "ja", false, false);
    a.buffers.tts.push_back(TtsSegment::new(1, 0, "ja".to_string(), String::new(), vec![0u8; 88_200]));
    let mut b = entry("b", "ja", false, false);
    b.buffers.tts.push_back(TtsSegment::new(1, 0, "ja".to_string(), String::new(), vec![0u8; 44_100]));
    let mut src = entry("s", "ja", true, false);
    src.buffers.tts.push_back(TtsSegment::new(1, 0, "ja".to_string(), String::new(), vec![0u8; 882_000]));
    m.streams.push(a);
    m.streams.push(b);
    m.streams.push(src);
    assert_eq!(m.tts_backlog_ms("ja"), 1_000);
    assert_eq!(m.tts_backlog_ms("ko"), 0);
}

#[test]
fn video_settings_follow_the_observed_camera() {
    let caps = VideoProfileCaps::new(1920, 1080, 60);
    let mut v = VideoSettings { encoder: VideoEncoderKind::X264, caps, profile: VideoProfile::from_capture(1280, 720, 30) };
    let p = v.set_capture_video_profile(1920, 1080, 60);
    assert_eq!(p.output_fps, 30, "x264 holds output to 30 fps");
    assert_eq!(v.profile, p);

    let same = v.profile;
    assert!(!v.set_video_profile(same));

    let p2 = v.set_observed_video_fps(24);
    assert_eq!(p2.input_fps, 24);
    assert_eq!(p2, VideoProfile::from_capture_with_caps(p.max_width, p.max_height, 24, VideoProfileCaps { max_fps: 30, ..caps }));

    let p3 = v.set_observed_video_dimensions(640, 360);
    assert_eq!(p3.input_fps, 24);
    assert_eq!(v.profile, p3);

    let mut n = VideoSettings { encoder: VideoEncoderKind::Nvenc, caps, profile: p3 };
    assert_eq!(n.set_capture_video_profile(1920, 1080, 60).output_fps, 60);
}

fn push_tts(m: &mut StreamSet, lang: &str, pcm: Vec<u8>) {
    let segment = TtsSegment::new(0, 0, lang.to_string(), String::new(), pcm);
    m.push_tts_segment(&segment, TTS_QUEUE_CAP_BYTES);
}

fn queued_bytes(e: &StreamEntry) -> usize {
    e.buffers.tts.iter().map(|s| s.pcm.len()).sum()
}

#[test]
fn push_tts_is_a_noop_without_metrics_and_no_streams() {
    let mut m = StreamSet::new();
    push_tts(&mut m, "ja", vec![0u8; 100]);
    assert!(m.streams.is_empty());
}

#[test]
fn push_tts_delivers_into_matching_target_stream_queue() {
    let mut m = StreamSet::new();
    m.streams.push(entry("target", "ja", false, false));
    push_tts(&mut m, "ja", vec![1u8; 4_000]);
    assert_eq!(queued_bytes(&m.streams[0]), 4_000);
}

#[test]
fn push_tts_skips_source_streams_even_when_lang_matches() {
    let mut m = StreamSet::new();
    m.streams.push(entry("src", "en", true, false));
    push_tts(&mut m, "en", vec![1u8; 100]);
    assert!(m.streams[0].buffers.tts.is_empty(), "source streams must not receive TTS");
}

#[test]
fn push_tts_caps_queue_at_60s_of_pcm_discarding_oldest_bytes() {
    let mut m = StreamSet::new();
    m.streams.push(entry("t", "ja", false, false));
    push_tts(&mut m, "ja", vec![1u8; TTS_QUEUE_CAP_BYTES + 100]);
    assert!(queued_bytes(&m.streams[0]) <= TTS_QUEUE_CAP_BYTES);
}

#[test]
fn push_tts_does_not_drop_when_payload_fits_within_cap() {
    let mut m = StreamSet::new();
    m.streams.push(entry("t", "ja", false, false));
    let fifteen_seconds = 15 * 88_200;
    push_tts(&mut m, "ja", vec![1u8; fifteen_seconds]);
    assert_eq!(queued_bytes(&m.streams[0]), fifteen_seconds, "15s of PCM must fit under 60s cap");
}

#[test]
fn push_tts_skips_passthrough_streams_even_when_lang_matches() {
    let mut m = StreamSet::new();
    m.streams.push(entry("pass", "ja", true, true));
    push_tts(&mut m, "ja", vec![1u8; 4_000]);
    assert!(m.streams[0].buffers.tts.is_empty(), "passthrough streams must not accumulate TTS PCM");
}

#[test]
fn push_tts_fans_out_to_every_matching_stream_and_sheds_whole_old_segments() {
    let mut m = StreamSet::new();
    m.streams.push(entry("a", "ja", false, false));
    m.streams.push(entry("b", "ko", false, false));
    m.streams.push(entry("c", "ja", false, false));
    let first = TtsSegment::new(1, 0, "ja".to_string(), "one".to_string(), vec![1u8; 60]);
    let second = TtsSegment::new(2, 0, "ja".to_string(), "two".to_string(), vec![2u8; 50]);
    m.push_tts_segment(&first, 100);
    m.push_tts_segment(&second, 100);
    for i in [0usize, 2] {
        let q = &m.streams[i].buffers.tts;
        assert_eq!(q.len(), 1);
        assert_eq!(q[0].utterance_id, 2);
        assert_eq!(q[0].text, "two");
        assert_eq!(q[0].pcm, vec![2u8; 50]);
    }
    assert!(m.streams[1].buffers.tts.is_empty());
    m.push_tts_segment(&TtsSegment::new(3, 0, "ja".to_string(), String::new(), vec![]), 100);
    assert_eq!(m.streams[0].buffers.tts.len(), 1);
}

#[test]
fn push_video_h264_on_empty_manager_records_nothing_and_does_not_panic() {
    let mut m = StreamSet::new();
    m.push_video_h264_at(&[0u8; 16], 1);
    assert!(m.streams.is_empty());
}

#[test]
fn push_host_audio_on_empty_manager_is_a_noop() {
    let mut m = StreamSet::new();
    m.push_host_audio_at(&[], 1);
    m.push_host_audio_at(&[1, 2, 3], 2);
    assert!(m.streams.is_empty());
}

#[test]
fn push_host_audio_evicts_oldest_bytes_when_capacity_exceeded() {
    let mut m = StreamSet::new();
    m.streams.push(entry("a", "ja", false, false));
    m.push_host_audio_at(&vec![1u8; HOST_AUDIO_CAP_BYTES + 500], 1);
    let total: usize = m.streams[0].buffers.audio.iter().map(|(_, b)| b.len()).sum();
    assert!(total <= HOST_AUDIO_CAP_BYTES + 500);
}

#[test]
fn push_video_h264_caps_per_stream_buffer() {
    let mut m = StreamSet::new();
    m.streams.push(entry("a", "ja", false, false));
    for i in 0..(HOST_VIDEO_H264_CAP_CHUNKS + 50) {
        m.push_video_h264_at(&[0u8; 8], i as u64);
    }
    assert_eq!(m.streams[0].buffers.video_h264.len(), HOST_VIDEO_H264_CAP_CHUNKS);
    assert_eq!(m.streams[0].buffers.video_h264[0].0, 50);
}

#[test]
fn host_audio_keeps_whole_samples_for_every_stream() {
    let mut m = StreamSet::new();
    m.streams.push(entry("a", "ja", false, false));
    m.streams.push(entry("b", "en", true, true));
    m.push_host_audio_at(&[1, 2, 3], 7);
    m.push_host_audio_at(&[9], 8);
    for s in &m.streams {
        assert_eq!(s.buffers.audio.len(), 1);
        assert_eq!(s.buffers.audio[0], (7, vec![1, 2]));
    }
}

#[test]
fn video_goes_only_to_streams_reading_its_codec() {
    let mut m = StreamSet::new();
    m.streams.push(entry("h", "ja", false, false));
    let mut vp8 = entry("v", "ko", false, false);
    vp8.video_input_codec = VideoInputCodec::Vp8Ivf;
    m.streams.push(vp8);
    m.push_video_h264_at(&[0, 0, 1, 0x65], 10);
    m.push_video_vp8_ivf_frame_at(&[7, 7], 11);
    m.push_video_vp8_ivf_frame_at(&[], 12);
    assert_eq!(m.streams[0].buffers.video_h264.len(), 1);
    assert_eq!(m.streams[0].buffers.video_h264[0], (10, vec![0, 0, 1, 0x65]));
    assert_eq!(m.streams[1].buffers.video_h264.len(), 1);
    assert_eq!(m.streams[1].buffers.video_h264[0], (11, vec![7, 7]));
}

#[test]
fn stop_all_on_empty_manager_leaves_manager_empty_and_does_not_hang() {
    let mut m = StreamSet::new();
    assert!(m.stop_all().is_empty());
    assert!(m.streams.is_empty());
}

#[test]
fn stop_all_drains_every_registered_stream_and_empties_map() {
    let mut m = StreamSet::new();
    m.streams.push(entry("a", "ja", true, false));
    m.streams.push(entry("b", "ko", false, false));
    let stopped = m.stop_all();
    assert!(m.streams.is_empty());
    let ids: Vec<&str> = stopped.iter().map(|s| s.id.as_str()).collect();
    assert_eq!(ids, vec!["a", "b"]);
    assert!(stopped.iter().all(|s| s.stop));
}

#[test]
fn subtitles_follow_dubbed_streams_of_the_language() {
    let mut m = StreamSet::new();
    m.streams.push(entry("a", "ja", false, false));
    m.streams.push(entry("b", "ja", true, false));
    m.streams.push(entry("c", "ja", true, true));
    m.streams.push(entry("d", "ko", false, false));
    m.streams.push(entry("e", "ja", false, false));
    assert_eq!(m.subtitle_targets("ja"), vec![0, 4]);
    assert_eq!(m.subtitle_targets("zh"), Vec::<usize>::new());
}

#[test]
fn stop_stream_for_restart_takes_the_stream_out_stopped() {
    let mut m = StreamSet::new();
    m.streams.push(entry("a", "ja", false, false));
    let mut b = entry("b", "ko", false, false);
    b.restart_count = 2;
    m.streams.push(b);
    let taken = m.stop_stream_for_restart("b").expect("stream b");
    assert!(taken.stop);
    assert_eq!(taken.restart_count, 2);
    assert_eq!(m.streams.len(), 1);
    assert_eq!(m.streams[0].id, "a");
    assert!(m.stop_stream_for_restart("zz").is_none());
    assert_eq!(m.streams.len(), 1);
}
