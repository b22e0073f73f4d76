//! The output-health events a broadcast reports about its streams: which
//! state a stream is reported in, with which restart count, degradation
//! label and message, at each step of its life (start, crash, silence,
//! restart, stop). Only streams with health reporting on and an output id
//! report anything.

use vstd::prelude::*;

use crate::rtmp::{
    crash_detail, crash_detail_spec, idle_ms, idle_ms_spec, push_signed, signed_decimal, IDLE_RESTART_THRESHOLD_MS,
    MAX_FFMPEG_RESTARTS,
};
use crate::stream_set::StreamEntry;
use crate::text::{decimal, owned, push_decimal, push_str};

verus! {

/// The state an output is reported in.
#[derive(Debug, Clone, Copy, PartialEq, Eq, Structural)]
pub enum OutputHealthState {
    Starting,
    Publishing,
    Restarting,
    Degraded,
    Failed,
    Stopped,
}

/// Why an output is degraded or failed.
#[derive(Debug, Clone, Copy, PartialEq, Eq, Structural)]
pub enum OutputDegradationLabel {
    FfmpegCrash,
    RestartLimitReached,
    IdleNoWrites,
    RtmpPublishError,
    SlowEncode,
    DroppedFrames,
}

/// One output-health report.
pub struct OutputHealthEvent {
    pub output_id: String,
    pub stream_id: String,
    pub lang: String,
    pub destination_platform: String,
    pub state: OutputHealthState,
    pub restart_count: u32,
    pub degradation: Option<OutputDegradationLabel>,
    pub message: Option<String>,
}

/// A report as values: output id, stream id, language, platform, state,
/// restart count, degradation label and message.
pub type EventView = (
    Seq<char>,
    Seq<char>,
    Seq<char>,
    Seq<char>,
    OutputHealthState,
    u32,
    Option<OutputDegradationLabel>,
    Option<Seq<char>>,
);

/// An optional string as an optional character sequence.
pub open spec fn opt_str(m: Option<String>) -> Option<Seq<char>> {
    match m {
        Some(s) => Some(s@),
        None => None,
    }
}

pub open spec fn event_view(ev: OutputHealthEvent) -> EventView {
    (ev.output_id@, ev.stream_id@, ev.lang@, ev.destination_platform@, ev.state, ev.restart_count, ev.degradation, opt_str(ev.message))
}

pub open spec fn opt_event_view(ev: Option<OutputHealthEvent>) -> Option<EventView> {
    match ev {
        Some(e) => Some(event_view(e)),
        None => None,
    }
}

/// The reports of a list, as values.
pub open spec fn events_view(evs: Seq<OutputHealthEvent>) -> Seq<EventView> {
    evs.map_values(|e: OutputHealthEvent| event_view(e))
}

/// The report made, if any: none when reporting is off or the stream has
/// no output id.
pub open spec fn health_event_spec(
    enabled: bool,
    output_id: Option<Seq<char>>,
    stream_id: Seq<char>,
    lang: Seq<char>,
    destination_platform: Seq<char>,
    state: OutputHealthState,
    restart_count: u32,
    degradation: Option<OutputDegradationLabel>,
    message: Option<Seq<char>>,
) -> Option<EventView> {
    if !enabled {
        None
    } else {
        match output_id {
            Some(o) => Some((o, stream_id, lang, destination_platform, state, restart_count, degradation, message)),
            None => None,
        }
    }
}

/// The report a stream makes in a given state, if it reports at all.
pub open spec fn stream_event(
    e: StreamEntry,
    state: OutputHealthState,
    restart_count: u32,
    degradation: Option<OutputDegradationLabel>,
    message: Option<Seq<char>>,
) -> Option<EventView> {
    health_event_spec(
        e.output_controls_enabled,
        opt_str(e.output_id),
        e.id@,
        e.lang@,
        e.destination_platform@,
        state,
        restart_count,
        degradation,
        message,
    )
}

/// An optional report as a list of at most one.
pub open spec fn opt_seq(ev: Option<EventView>) -> Seq<EventView> {
    match ev {
        Some(v) => seq![v],
        None => Seq::empty(),
    }
}

/// Builds the report of an output, or none when reporting is off for it or
/// it has no output id.
pub fn output_health_event(
    enabled: bool,
    output_id: &Option<String>,
    stream_id: &str,
    lang: &str,
    destination_platform: &str,
    state: OutputHealthState,
    restart_count: u32,
    degradation: Option<OutputDegradationLabel>,
    message: Option<String>,
) -> (r: Option<OutputHealthEvent>)
    ensures
        opt_event_view(r) == health_event_spec(
            enabled,
            opt_str(*output_id),
            stream_id@,
            lang@,
            destination_platform@,
            state,
            restart_count,
            degradation,
            opt_str(message),
        ),
{
    if !enabled {
        return None;
    }
    match output_id {
        Some(o) => Some(
            OutputHealthEvent {
                output_id: owned(o.as_str()),
                stream_id: owned(stream_id),
                lang: owned(lang),
                destination_platform: owned(destination_platform),
                state,
                restart_count,
                degradation,
                message,
            },
        ),
        None => None,
    }
}

fn entry_event(
    e: &StreamEntry,
    state: OutputHealthState,
    restart_count: u32,
    degradation: Option<OutputDegradationLabel>,
    message: Option<String>,
) -> (r: Option<OutputHealthEvent>)
    ensures
        opt_event_view(r) == stream_event(*e, state, restart_count, degradation, opt_str(message)),
{
    output_health_event(
        e.output_controls_enabled,
        &e.output_id,
        e.id.as_str(),
        e.lang.as_str(),
        e.destination_platform.as_str(),
        state,
        restart_count,
        degradation,
        message,
    )
}

/// Reported before a stream's first FFmpeg child is spawned.
pub fn starting_event(e: &StreamEntry) -> (r: Option<OutputHealthEvent>)
    ensures
        opt_event_view(r) == stream_event(*e, OutputHealthState::Starting, 0, None, None),
{
    entry_event(e, OutputHealthState::Starting, 0, None, None)
}

/// Reported once the first spawn of a stream is done: publishing, or
/// failed with the spawn error.
pub fn start_result_event(e: &StreamEntry, spawned: &Result<(), String>) -> (r: Option<OutputHealthEvent>)
    ensures
        opt_event_view(r) == match spawned {
            Ok(_) => stream_event(*e, OutputHealthState::Publishing, 0, None, None),
            Err(m) => stream_event(
                *e,
                OutputHealthState::Failed,
                0,
                Some(OutputDegradationLabel::RtmpPublishError),
                Some(m@),
            ),
        },
{
    match spawned {
        Ok(_) => entry_event(e, OutputHealthState::Publishing, 0, None, None),
        Err(m) => entry_event(
            e,
            OutputHealthState::Failed,
            0,
            Some(OutputDegradationLabel::RtmpPublishError),
            Some(owned(m.as_str())),
        ),
    }
}

/// Reported before a crashed stream's child is spawned again, with the
/// restarts it had so far.
pub fn restarting_event(crashed: &StreamEntry) -> (r: Option<OutputHealthEvent>)
    ensures
        opt_event_view(r) == stream_event(
            *crashed,
            OutputHealthState::Restarting,
            crashed.restart_count,
            Some(OutputDegradationLabel::FfmpegCrash),
            None,
        ),
{
    entry_event(crashed, OutputHealthState::Restarting, crashed.restart_count, Some(OutputDegradationLabel::FfmpegCrash), None)
}

/// Reported once a restart spawn is done: publishing with one more restart
/// counted, or failed with the spawn error and the count unchanged.
pub fn restart_result_event(crashed: &StreamEntry, spawned: &Result<(), String>) -> (r: Option<OutputHealthEvent>)
    requires
        crashed.restart_count < u32::MAX,
    ensures
        opt_event_view(r) == match spawned {
            Ok(_) => stream_event(*crashed, OutputHealthState::Publishing, (crashed.restart_count + 1) as u32, None, None),
            Err(m) => stream_event(
                *crashed,
                OutputHealthState::Failed,
                crashed.restart_count,
                Some(OutputDegradationLabel::RtmpPublishError),
                Some(m@),
            ),
        },
{
    match spawned {
        Ok(_) => entry_event(crashed, OutputHealthState::Publishing, crashed.restart_count + 1, None, None),
        Err(m) => entry_event(
            crashed,
            OutputHealthState::Failed,
            crashed.restart_count,
            Some(OutputDegradationLabel::RtmpPublishError),
            Some(owned(m.as_str())),
        ),
    }
}

/// The reports on a child's exit (killed by `signal`, or ending with
/// `code`): none for a stopping stream; else degraded by the crash, and
/// failed as well once the stream has used up its restarts.
pub open spec fn crash_events_spec(e: StreamEntry, signal: Option<i32>, code: i32) -> Seq<EventView> {
    if e.stop {
        Seq::empty()
    } else {
        let degraded = opt_seq(
            stream_event(
                e,
                OutputHealthState::Degraded,
                e.restart_count,
                Some(OutputDegradationLabel::FfmpegCrash),
                Some(crash_detail_spec(signal, code)),
            ),
        );
        if e.restart_count >= MAX_FFMPEG_RESTARTS {
            degraded + opt_seq(
                stream_event(
                    e,
                    OutputHealthState::Failed,
                    e.restart_count,
                    Some(OutputDegradationLabel::RestartLimitReached),
                    Some("max ffmpeg restart attempts reached"@),
                ),
            )
        } else {
            degraded
        }
    }
}

fn push_event(evs: &mut Vec<OutputHealthEvent>, ev: Option<OutputHealthEvent>)
    ensures
        events_view(final(evs)@) == events_view(old(evs)@) + opt_seq(opt_event_view(ev)),
{
    match ev {
        Some(v) => {
            evs.push(v);
            assert(events_view(evs@) =~= events_view(old(evs)@) + opt_seq(opt_event_view(Some(v))));
        },
        None => {
            assert(events_view(evs@) =~= events_view(old(evs)@) + opt_seq(opt_event_view(ev)));
        },
    }
}

/// The reports on the exit of a stream's child.
pub fn crash_events(e: &StreamEntry, signal: Option<i32>, code: i32) -> (evs: Vec<OutputHealthEvent>)
    ensures
        events_view(evs@) == crash_events_spec(*e, signal, code),
{
    let mut evs: Vec<OutputHealthEvent> = Vec::new();
    if e.stop {
        assert(events_view(evs@) =~= Seq::<EventView>::empty());
        return evs;
    }
    assert(events_view(evs@) =~= Seq::<EventView>::empty());
    let degraded = entry_event(
        e,
        OutputHealthState::Degraded,
        e.restart_count,
        Some(OutputDegradationLabel::FfmpegCrash),
        Some(crash_detail(signal, code)),
    );
    push_event(&mut evs, degraded);
    assert(Seq::<EventView>::empty() + opt_seq(opt_event_view(degraded)) =~= opt_seq(opt_event_view(degraded)));
    if e.restart_count >= MAX_FFMPEG_RESTARTS {
        let failed = entry_event(
            e,
            OutputHealthState::Failed,
            e.restart_count,
            Some(OutputDegradationLabel::RestartLimitReached),
            Some(owned("max ffmpeg restart attempts reached")),
        );
        push_event(&mut evs, failed);
    }
    evs
}

/// The message of a silence kill.
pub open spec fn idle_message_spec(last_write_ms: i64, now_ms: i64) -> Seq<char> {
    "idle_ms="@ + signed_decimal(idle_ms_spec(last_write_ms, now_ms)) + " threshold_ms="@ + decimal(
        IDLE_RESTART_THRESHOLD_MS as nat,
    )
}

/// Reported when a silent stream's child is killed at `now_ms`: degraded
/// for want of writes, with how long it was silent.
pub fn idle_event(e: &StreamEntry, now_ms: i64) -> (r: Option<OutputHealthEvent>)
    ensures
        opt_event_view(r) == stream_event(
            *e,
            OutputHealthState::Degraded,
            e.restart_count,
            Some(OutputDegradationLabel::IdleNoWrites),
            Some(idle_message_spec(e.last_write_ms, now_ms)),
        ),
{
    let mut m = owned("idle_ms=");
    push_signed(&mut m, idle_ms(e.last_write_ms, now_ms));
    push_str(&mut m, " threshold_ms=");
    push_decimal(&mut m, IDLE_RESTART_THRESHOLD_MS);
    entry_event(e, OutputHealthState::Degraded, e.restart_count, Some(OutputDegradationLabel::IdleNoWrites), Some(m))
}

/// The message of a dropped-frames report.
pub open spec fn dropped_frames_message_spec(total: u64, delta: u64) -> Seq<char> {
    "total_drop_frames="@ + decimal(total as nat) + " delta_drop_frames="@ + decimal(delta as nat)
}

/// Reported when FFmpeg's progress shows frames dropped since the last
/// report: degraded, with the running total and the new drops (the count
/// is not tracked by the progress reader and is reported as 0).
pub fn dropped_frames_event(e: &StreamEntry, total: u64, delta: u64) -> (r: Option<OutputHealthEvent>)
    ensures
        opt_event_view(r) == stream_event(
            *e,
            OutputHealthState::Degraded,
            0,
            Some(OutputDegradationLabel::DroppedFrames),
            Some(dropped_frames_message_spec(total, delta)),
        ),
{
    let mut m = owned("total_drop_frames=");
    push_decimal(&mut m, total);
    push_str(&mut m, " delta_drop_frames=");
    push_decimal(&mut m, delta);
    entry_event(e, OutputHealthState::Degraded, 0, Some(OutputDegradationLabel::DroppedFrames), Some(m))
}

/// Reported when a stream is stopped with the broadcast.
pub fn stopped_event(e: &StreamEntry) -> (r: Option<OutputHealthEvent>)
    ensures
        opt_event_view(r) == stream_event(*e, OutputHealthState::Stopped, e.restart_count, None, None),
{
    entry_event(e, OutputHealthState::Stopped, e.restart_count, None, None)
}

} // verus!
