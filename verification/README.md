# capture-gui

A client of the capture daemon (the local `/v1` HTTP service that records a process's
screenshots, audio and transcript). The client's decisions are a library verified with
Verus; a small program around it does the I/O.

## Layout

- `src/` — the verified library (`capture_gui`):
  - `text` — character-level helpers: trimming, prefixes, decimal rendering, `str::parse` rules.
  - `keyed` — a map from string keys kept as a vector of distinct entries.
  - `daemon` — the API: the daemon's data, the request each call makes, and how a call's
    outcome becomes a result.
  - `live` — the state fed by the daemon's event stream (transcript, screenshot, progress).
  - `panel` — the window's state: status messages, selection, work in flight, the poll.
  - `capture` — which sessions run, start presets, the captures planned for checked windows.
  - `state` — settings: sections, index providers and URLs, persisted preferences and the
    settings object written and read back.
  - `lang` — the transcription languages and how typed text picks one.
  - `edit` — key presses in the single-line text fields.
  - `labels` — the texts the screens show, the dropdown rows, the confirmation questions, and
    the picker's toggles.
  - `isotime` — ISO-8601 stamps to day counts (proven against the Gregorian calendar).
  - `screens` — which screen shows, the header, the session rows, the confirmation dialog,
    start-up, and the playback screen's data (filled only for the session still open).
  - `playback` — a saved capture's timeline (stable time order), the playhead, captions.
  - `update` — whether a published release is newer than the running build.
  - `tools` — the audio helper's command line, pixel reordering, PCM decoding.
  - `assets` — the bundled icon names.
- `tests/` — tests of the library on concrete values.
- `app/` — the program: HTTP transport, the event-stream reader, settings and capture
  folders on disk, the release download, and a command line for the client's actions.
