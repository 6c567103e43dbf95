# Flowwisper

The logic of a voice input assistant, written in Rust and proved with Verus.

- `src/` is the verified library.
  - `audio`: frames, subscribers, the waveform and the noise detector.
  - `orchestrator`: the real-time session with its local and cloud engines.
  - `persistence`: drafts, notices, retries and the history search.
  - `desktop`: hotkeys, probes, permissions, devices, calibration, sealed samples
    and the session timeline.
  - `rounding`: whole numbers as floating point rounds them.
- `tests/` runs the library on concrete values.
- `app/` is a service around the library: tokio, SQLite, files and the
  floating-point signal processing.

The public functions state in their `ensures` what they return or change; of a
value that the clock or chance decides, only what holds of every outcome. The
proof functions whose names begin with `law_` state what holds across functions.
Calls into other crates go through small wrappers, each of which says what it
takes on trust.
