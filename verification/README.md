# voicy

Voicy records speech, transcribes it (Whisper), translates it (TranslateGemma)
and voices the translation (OmniVoice), all on the local machine.

## Layout

- `src/` — the library, verified with Verus:
  - `text.rs`: character-level text operations (trim, split, lines, words,
    search, replace, unsigned parsing) with their specifications;
  - `tts.rs`: numbers spelled out in English, the choice of what to
    synthesise, the header of the reference recording;
  - `audio.rs`: the recording state (start, chunks, stop) and the level
    meter's bins;
  - `hardware.rs`: reading the GPU, CPU and memory probes' output;
  - `app_state.rs`: the application state and the command decisions;
  - `downloader.rs`, `models.rs`: the model catalogue and the loaded models;
  - `translate.rs`, `whisper.rs`, `pipeline.rs`: prompts, decoding loops and
    pipeline stages around the models.
- `tests/` — tests of the library.
- `app/` — the desktop shell: Tauri commands, cpal capture, candle models,
  files and probes, calling the library for every decision.
