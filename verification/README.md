# genshin-dl

A CLI and TUI downloader for Genshin Impact (Global and China editions),
built on the Sophon API of `anime-launcher-sdk`.

The decisions of the program are a Verus-verified library:

- `src/edition.rs` — the editions, their names, game ids and data folders.
- `src/voice.rs` — voiceover package selection: which manifests are voice
  packs, how a request resolves against what is available, how the
  comma separated `--voice` argument is read.
- `src/download.rs` — the engine's events, how installer and patcher reports
  become events, and the plans of a download, update, pre-download or repair.
- `src/cli.rs`, `src/cmd.rs` — the command line as plain values, the job a
  command stands for, the listing lines and the progress display.
- `src/logging.rs` — the text of a log record.
- `src/tui/` — the interactive interface as a state machine from keys and
  engine events to new state and effects, the voice picker, and what the
  screens show.
- `src/text.rs` — the string operations the rest is written with.

`app/` is the program around it: argument parsing with `clap`, tracing, the
SDK's installer and patcher, the progress bars, and the terminal drawing.
