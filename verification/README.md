# gescher

A mouse-gesture daemon: hold the right mouse button, draw, release. The
directions drawn (`"UP -> LEFT"`, ...) select the configured gestures, which
run a shell command, paste text or type a key chord.

## Layout

- `src/` — the verified library (Verus).
  - `direction.rs` — stroke directions as flag bytes, their labels, and the
    flag logic of a stroke's direction.
  - `capture.rs` — which input events are swallowed during a right-button
    drag, and the bounded trail buffer (`circular_queue`) handed on at
    release.
  - `gesture.rs` — the scan that reads the direction sequence off a trail's
    segments, the gesture text, recording, and what a finished drag becomes.
  - `actions.rs` — which configured gestures fire, key chord parsing and the
    key steps that type a chord.
  - `config.rs`, `app_state.rs`, `logger.rs`, `tray.rs`, `processes.rs`,
    `text.rs` — settings, the daemon's switches, the tray menu's decisions,
    the sorted list of running programs, string helpers.
- `app/` — the program around it: the input hook (`rdev`), the
  floating-point geometry (smoothing, vector lengths and angles), the tray
  icon, the settings file, clipboard and process spawning.
- `tests/` — tests of the library.
