# voice2text

A verified core for a macOS desktop transcription tool with two engines
(whisper.cpp and Python openai-whisper). The library in `src/` holds the
logic, proved with Verus against its contracts:

- `postprocess/` — merging segments into paragraphs, traditional to
  simplified Chinese, time stamps, the
  Markdown transcript, SRT and WebVTT subtitles, the plain and HTML
  teleprompter scripts (lines of at most twelve characters), the RTF
  document, and which files are written for the chosen formats.
- `engine/` — the data model, engine selection, the lookup order of external
  tools, command lines and result handling of both engines, and detection of
  the Python engine.
- `platform.rs` — chip, memory, cores, acceleration backend and recommended
  model from the answers of `sysctl`.
- `commands.rs` — which dropped files are audio or video, the engines' state,
  the debug log line.
- `deploy.rs` — mirrors, their ranking, download sources, installer
  commands and the decisions of the deployment flows: each download, clone
  and submodule loop is a step function from what the last attempt gave to
  what to do next, which `app/` carries out.
- `transcribe.rs` — batch bookkeeping.
- `text.rs`, `paths.rs` — character-level text and path helpers.

`app/` is the Tauri application around it: command handlers, processes,
files, network and progress events. `tests/` exercises the library.

Before any file is written, the paragraphs and the segments' texts are
converted from traditional to simplified Chinese, character by character,
with the table in `postprocess/t2s.rs`.
