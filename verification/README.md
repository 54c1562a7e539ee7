# dictation

A desktop dictation tool: a global key toggles recording, the recording is
transcribed by a local speech model, cleaned up with a custom dictionary and
optionally rewritten by an LLM, then copied to the clipboard and pasted into the
focused window.

The crate is split in two.

- `src/` is the library, verified with Verus. It holds the parts that decide
  things: hotkey parsing, normalization and sequence matching; the custom
  dictionary and case-insensitive replacement; the settings model and store; the
  LLM request and reply handling; the settings bridge's routes and replies; model
  file checks, cache expiry and download progress; log and trace retention; start
  on login; the recording flags; and the overlay's state machine. Each public
  function states its result in its `ensures`, except the accessors of the shared
  recording flags (`RecordingState::new`, `set_recording`, `is_recording`, `flags`,
  `apply`, `Default`): vstd gives std's atomics no specification of their values, and
  other threads write them, so the flag logic is stated on `recorder_step` instead.
  Laws that relate several calls are public proof functions named `law_*`.
- `app/` is the program around it: devices, windows, files, network, the tray
  icon, JSON, and the floating-point audio processing.

Module map of `src/`:

| module | contents |
|---|---|
| `text` | character-level helpers (trim, lower-case, split, search) and their lemmas |
| `hotkey` | binding parser, canonical text, chord-sequence matcher, toggle key |
| `canonical` | laws of the binding parser: the canonical text reads back, letter case and spaces beside separators do not matter |
| `transcript` | dictionary entries and rules, case-insensitive replacement, clipboard rule |
| `settings` | settings types, defaults and the settings store |
| `llm` | post-processing plan, LLM request and reply, active-application metadata |
| `bridge` | settings bridge errors, routes and replies |
| `model` | model files, sanity checks, cache expiry, download progress |
| `logs` | debug switch, log trimming, trace retention |
| `autostart` | start-on-login decisions and launcher contents |
| `audio` | recording flags and how the recording worker changes them |
| `ui` | overlay state machine, level history, tray menu commands |
| `paths` | file locations under the data directory, joined with the platform separator |
