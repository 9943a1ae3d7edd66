# Nonstop Notify

A desktop notification daemon: command-line tools queue JSON events, and a daemon
shows them as toasts in an always-on-top window.

- `src/` is the verified library (Verus): event completion, the toast store
  (upsert, dismiss, the five visible toasts and their fade), action URLs, the
  configuration and its validation, the daemon's paths and log rules, the queue and
  control-socket text protocols, the command line, and the window geometry.
- `app/` is the program around it: sockets, files, the clock-driven daemon loop,
  the Tauri window, sound playback, and the serde shapes of the JSON formats.
- `tests/` runs the library on concrete values.

Floating-point values (progress, opacity, scale factors) stay in `app/`; the
library carries an event's progress as `f32` bits and gives opacity as an exact
fraction.
