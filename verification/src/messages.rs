//! The messages the server sends to a host's browser over its WebSocket.

use std::collections::HashMap;
use vstd::prelude::*;

verus! {

/// One server-to-host message; it travels as JSON tagged by `type`.
#[derive(Debug, Clone)]
pub enum ServerMsg {
    SessionCreated { id: String },
    Interim { transcript: String },
    Final { transcript: String, utterance_id: u64 },
    Translation { lang: String, text: String, utterance_id: u64, translate_ms: u64 },
    ChunkTranslation { lang: String, text: String, utterance_id: u64, chunk_index: u16, translate_ms: u64 },
    TtsStart { lang: String, utterance_id: u64 },
    TtsEnd { lang: String, utterance_id: u64, tts_ms: u64 },
    /// The host's video clip of an utterance is over.
    VideoEnd { utterance_id: u64 },
    PipelineHealth {
        stt_connected: bool,
        queue_depth: HashMap<String, usize>,
        dropped_chunks: u64,
        tts_timeouts: u64,
        translate_errors: u64,
    },
    PipelineWarning { kind: String, lang: String, detail: String, utterance_id: u64 },
    Error { message: String },
}

} // verus!
