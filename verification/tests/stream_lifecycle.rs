use brivva::ffmpeg_args::VideoInputCodec;
use brivva::messages::ServerMsg;
use brivva::output_health::{
    crash_events, idle_event, output_health_event, restart_result_event, restarting_event, start_result_event,
    starting_event, stopped_event, OutputDegradationLabel, OutputHealthEvent, OutputHealthState,
};
use brivva::rtmp::{unix_ms_of, RtmpDestination, StreamBuffers, MAX_FFMPEG_RESTARTS};
use brivva::stream_set::{StreamEntry, StreamSet};
use brivva::tts::{host_tts_notifications, TtsFetchStep};

fn started(id: &str, output_id: Option<&str>, reporting: bool) -> StreamEntry {
    StreamSet::started_entry(
        id.to_string(),
        "ja".to_string(),
        vec!["rtmp://example/live/key".to_string()],
        vec![RtmpDestination::new("youtube", "rtmp://example/live/key")],
        "youtube".to_string(),
        1000,
        false,
        false,
        output_id.map(|s| s.to_string()),
        reporting,
        VideoInputCodec::H264AnnexB,
        StreamBuffers::new(),
    )
}

fn assert_event(
    ev: &OutputHealthEvent,
    state: OutputHealthState,
    count: u32,
    degradation: Option<OutputDegradationLabel>,
    message: Option<&str>,
) {
    assert_eq!(ev.output_id, "out-1");
    assert_eq!(ev.stream_id, "s1");
    assert_eq!(ev.lang, "ja");
    assert_eq!(ev.destination_platform, "youtube");
    assert_eq!(ev.state, state);
    assert_eq!(ev.restart_count, count);
    assert_eq!(ev.degradation, degradation);
    assert_eq!(ev.message.as_deref(), message);
}

#[test]
fn started_entry_has_no_restarts_and_no_writes() {
    let e = started("s1", Some("out-1"), true);
    assert_eq!(e.id, "s1");
    assert_eq!(e.restart_count, 0);
    assert!(!e.stop);
    assert_eq!(e.last_write_ms, 0);
    assert_eq!(e.delay_ms, 1000);
    assert_eq!(e.output_id.as_deref(), Some("out-1"));
    assert!(e.output_controls_enabled);
}

#[test]
fn restarted_entry_counts_one_more_restart_and_keeps_buffers() {
    let mut e = started("s1", None, false);
    e.stop = true;
    e.last_write_ms = 1234;
    e.restart_count = 1;
    e.buffers.audio.push_back((5, vec![1, 2]));
    let r = StreamSet::restarted_entry(e, VideoInputCodec::Vp8Ivf);
    assert_eq!(r.restart_count, 2);
    assert!(!r.stop);
    assert_eq!(r.last_write_ms, 0);
    assert_eq!(r.video_input_codec, VideoInputCodec::Vp8Ivf);
    assert_eq!(r.buffers.audio.len(), 1);
    assert_eq!(r.id, "s1");
}

#[test]
fn insert_started_replaces_a_stream_with_the_same_id() {
    let mut m = StreamSet::new();
    m.insert_started(started("a", None, false));
    m.insert_started(started("b", None, false));
    let mut again = started("a", None, false);
    again.delay_ms = 7;
    m.insert_started(again);
    let ids: Vec<&str> = m.streams.iter().map(|s| s.id.as_str()).collect();
    assert_eq!(ids, vec!["b", "a"]);
    assert_eq!(m.streams[1].delay_ms, 7);
}

#[test]
fn a_stream_that_keeps_crashing_is_given_up_at_its_fourth_crash() {
    let mut m = StreamSet::new();
    m.insert_started(started("s1", None, false));
    for round in 0..MAX_FFMPEG_RESTARTS {
        let mut crashed = m.detect_crashed(&[true]);
        assert_eq!(crashed.len(), 1, "crash {} is restarted", round + 1);
        assert!(m.streams.is_empty());
        let e = crashed.remove(0);
        assert_eq!(e.restart_count, round);
        m.insert_started(StreamSet::restarted_entry(e, VideoInputCodec::H264AnnexB));
        assert_eq!(m.streams[0].restart_count, round + 1);
    }
    let crashed = m.detect_crashed(&[true]);
    assert!(crashed.is_empty(), "the fourth crash is not restarted");
    assert_eq!(m.streams.len(), 1);
    assert!(m.streams[0].stop);
    assert_eq!(m.streams[0].restart_count, MAX_FFMPEG_RESTARTS);
}

#[test]
fn health_events_need_reporting_on_and_an_output_id() {
    assert!(starting_event(&started("s1", Some("out-1"), false)).is_none());
    assert!(starting_event(&started("s1", None, true)).is_none());
    assert!(output_health_event(true, &None, "s1", "ja", "youtube", OutputHealthState::Stopped, 0, None, None).is_none());
    let ev = output_health_event(
        true,
        &Some("out-1".to_string()),
        "s1",
        "ja",
        "youtube",
        OutputHealthState::Stopped,
        2,
        None,
        None,
    )
    .unwrap();
    assert_event(&ev, OutputHealthState::Stopped, 2, None, None);
}

#[test]
fn start_reports_starting_then_publishing_or_failed() {
    let e = started("s1", Some("out-1"), true);
    assert_event(&starting_event(&e).unwrap(), OutputHealthState::Starting, 0, None, None);
    assert_event(&start_result_event(&e, &Ok(())).unwrap(), OutputHealthState::Publishing, 0, None, None);
    let failed = start_result_event(&e, &Err("mkfifo failed: boom".to_string())).unwrap();
    assert_event(
        &failed,
        OutputHealthState::Failed,
        0,
        Some(OutputDegradationLabel::RtmpPublishError),
        Some("mkfifo failed: boom"),
    );
}

#[test]
fn crash_reports_degraded_and_failed_once_restarts_are_used_up() {
    let mut e = started("s1", Some("out-1"), true);
    e.restart_count = 1;
    let evs = crash_events(&e, Some(9), -1);
    assert_eq!(evs.len(), 1);
    assert_event(
        &evs[0],
        OutputHealthState::Degraded,
        1,
        Some(OutputDegradationLabel::FfmpegCrash),
        Some("ffmpeg signal=9 exit_code=-1"),
    );

    e.restart_count = MAX_FFMPEG_RESTARTS;
    let evs = crash_events(&e, None, 1);
    assert_eq!(evs.len(), 2);
    assert_event(&evs[0], OutputHealthState::Degraded, 3, Some(OutputDegradationLabel::FfmpegCrash), Some("ffmpeg exit_code=1"));
    assert_event(
        &evs[1],
        OutputHealthState::Failed,
        3,
        Some(OutputDegradationLabel::RestartLimitReached),
        Some("max ffmpeg restart attempts reached"),
    );

    e.stop = true;
    assert!(crash_events(&e, None, 0).is_empty());
}

#[test]
fn restart_reports_restarting_then_publishing_with_the_new_count() {
    let mut e = started("s1", Some("out-1"), true);
    e.restart_count = 2;
    assert_event(&restarting_event(&e).unwrap(), OutputHealthState::Restarting, 2, Some(OutputDegradationLabel::FfmpegCrash), None);
    assert_event(&restart_result_event(&e, &Ok(())).unwrap(), OutputHealthState::Publishing, 3, None, None);
    let failed = restart_result_event(&e, &Err("FFmpeg spawn failed: x".to_string())).unwrap();
    assert_event(
        &failed,
        OutputHealthState::Failed,
        2,
        Some(OutputDegradationLabel::RtmpPublishError),
        Some("FFmpeg spawn failed: x"),
    );
}

#[test]
fn idle_kill_reports_how_long_the_stream_was_silent() {
    let mut e = started("s1", Some("out-1"), true);
    e.last_write_ms = 1_000;
    let ev = idle_event(&e, 31_000).unwrap();
    assert_event(
        &ev,
        OutputHealthState::Degraded,
        0,
        Some(OutputDegradationLabel::IdleNoWrites),
        Some("idle_ms=30000 threshold_ms=25000"),
    );
}

#[test]
fn stop_reports_stopped_with_the_restart_count() {
    let mut e = started("s1", Some("out-1"), true);
    e.restart_count = 1;
    assert_event(&stopped_event(&e).unwrap(), OutputHealthState::Stopped, 1, None, None);
}

#[test]
fn host_is_told_tts_and_video_ended_after_delivered_audio() {
    let msgs = host_tts_notifications(&TtsFetchStep::Deliver(vec![1, 2]), true, "ja", 42, 350);
    assert_eq!(msgs.len(), 2);
    match &msgs[0] {
        ServerMsg::TtsEnd { lang, utterance_id, tts_ms } => {
            assert_eq!(lang, "ja");
            assert_eq!(*utterance_id, 42);
            assert_eq!(*tts_ms, 350);
        },
        other => panic!("unexpected {:?}", other),
    }
    match &msgs[1] {
        ServerMsg::VideoEnd { utterance_id } => assert_eq!(*utterance_id, 42),
        other => panic!("unexpected {:?}", other),
    }
    assert!(host_tts_notifications(&TtsFetchStep::Drop, true, "ja", 42, 350).is_empty());
    assert!(host_tts_notifications(&TtsFetchStep::RetryWithDefaultVoice, true, "ja", 42, 350).is_empty());
    assert!(host_tts_notifications(&TtsFetchStep::Deliver(vec![1]), false, "ja", 42, 350).is_empty());
}

#[test]
fn unix_ms_of_converts_nanoseconds_since_the_epoch() {
    assert_eq!(unix_ms_of(None), 0);
    assert_eq!(unix_ms_of(Some(1_500_000_000)), 1_500);
    assert_eq!(unix_ms_of(Some(1_700_000_000_123_456_789)), 1_700_000_000_123);
}

#[test]
fn dropped_frames_report_carries_total_and_delta() {
    let e = started("s1", Some("out-1"), true);
    let ev = brivva::output_health::dropped_frames_event(&e, 120, 20).unwrap();
    assert_event(
        &ev,
        OutputHealthState::Degraded,
        0,
        Some(OutputDegradationLabel::DroppedFrames),
        Some("total_drop_frames=120 delta_drop_frames=20"),
    );
}

#[test]
fn a_failed_spawn_leaves_the_set_unchanged() {
    let mut m = StreamSet::new();
    m.after_spawn(started("a", None, false), &Ok(()));
    m.after_spawn(started("b", None, false), &Err("FFmpeg spawn failed: x".to_string()));
    let ids: Vec<&str> = m.streams.iter().map(|s| s.id.as_str()).collect();
    assert_eq!(ids, vec!["a"]);
}

#[test]
fn a_restart_counts_only_when_the_spawn_succeeds() {
    let mut m = StreamSet::new();
    m.after_spawn(started("a", None, false), &Ok(()));
    let mut crashed = m.detect_crashed(&[true]);
    let e = crashed.remove(0);
    let mut failed_set = StreamSet::new();
    failed_set.after_restart_spawn(e, VideoInputCodec::H264AnnexB, &Err("boom".to_string()));
    assert!(failed_set.streams.is_empty());

    m.after_spawn(started("a", None, false), &Ok(()));
    let mut crashed = m.detect_crashed(&[true]);
    m.after_restart_spawn(crashed.remove(0), VideoInputCodec::H264AnnexB, &Ok(()));
    assert_eq!(m.streams.len(), 1);
    assert_eq!(m.streams[0].restart_count, 1);
    assert!(!m.streams[0].stop);
}
