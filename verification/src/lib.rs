use vstd::prelude::*;

pub mod caption;
pub mod circuit_breaker;
pub mod config;
pub mod drain;
pub mod drain_loop;
pub mod ffmpeg_args;
pub mod ffmpeg_cmd;
pub mod ffmpeg_log;
pub mod frames;
pub mod lang;
pub mod latency_tracker;
pub mod live_session;
pub mod messages;
pub mod mixer;
pub mod orphan;
pub mod output_health;
pub mod pipeline_budget;
pub mod pipeline_counters;
pub mod pipeline_health;
pub mod rtmp;
pub mod self_check;
pub mod session;
pub mod session_log;
pub mod settings;
pub mod smoke;
pub mod soniox;
pub mod stream_set;
pub mod stt;
pub mod stt_session;
pub mod text;
pub mod time;
pub mod translate_cli;
pub mod tts;
pub mod tts_text;
pub mod wav;

verus! {

} // verus!
