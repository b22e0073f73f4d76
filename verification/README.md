# brivva

The decision logic of a live-broadcast translation service, written in Verus
and proved against its contracts: speech-to-text session handling, the
text-to-speech budget and voice choice, live-commerce text shortening, the
per-stream delay buffers and audio ticks that feed FFmpeg, the FFmpeg command
line, RTMP destination handling, crash and idle restarts with each
stream's own restart budget, output-health reports, circuit breakers,
latency tracking, session logs, and face-crop frame extraction.

Layout:

- `src/` — the verified library, one module per concern (`drain`,
  `drain_loop`, `rtmp`, `stream_set`, `output_health`, `ffmpeg_cmd`, `stt`, `stt_session`,
  `tts`, `tts_text`, `session`, `live_session`, ...). Every public function states
  its result in `ensures`; the cross-function properties are public
  `lemma_*` proof functions.
- `tests/` — executable tests of the library.
- `app/` — the command-line program around the library: the FFmpeg runtime
  self-check, startup cleanup, an MP4 fan-out dry run, frame extraction,
  the JSON shapes on the wire, and the floating-point audio and encoder
  arithmetic.
