# domino_recorder

The verified core of a meeting recorder that captures the microphone and the
system audio as one stereo Opus file and transcribes both channels offline.

- `src/` — the library, verified with Verus:
  - `transcription::dedup` — removal of microphone segments that are
    acoustic bleed of the remote side: the word model (`strip_whisper_meta`,
    `tokenize`), the bleed window (`overlaps`), `dedup_mic_bleed`, and the
    `DOMINO_DEDUP` switch (`dedup_enabled_from`);
  - `transcription::properties` — proved laws of bleed removal and tokenizing;
  - `transcription` — the pipeline's dedup step (`apply_dedup`);
  - `audio::encoder` — the `OpusHead`/`OpusTags` packets, channel
    interleaving, the frame-assembly state machine of the encoder thread,
    and drift metrics;
  - `session` — the PID-file record and the stop protocol's decisions;
  - `cli` — the parsed command line.
- `app/` — the program around it: argument parsing, the daemon, audio
  capture, the encoder thread's I/O, the PID file and the transcription
  pipeline's I/O.
- `tests/` — tests of the library.
