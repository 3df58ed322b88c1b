# Rust Harp

A low-latency musical instrument inspired by the autoharp, for Android and Linux: swiping
across a line of strings plays a note, chords change with buttons, keys or swipe-wheel
gestures, and the sound goes to a MIDI port or a small square-wave synth.

The crate is verified with Verus.

- `src/` is the verified library: chords and their pitch classes, the harp's state
  machine (held buttons, chord decisions, sounding notes, key changes), strum and touch
  tracking, the platform-independent UI session and its event log, the settings file
  format, the MIDI messages, the synth's voice allocation, the Android frontend's
  decisions (audio messages, deferred note-offs, highlights, result flags), and the pixel
  drawing of both frontends (string bands, note names, the desktop settings panel).
  `src/laws.rs` states and proves properties that span several operations.
- `app/` is the desktop program (window, mouse and keyboard, MIDI port, settings file)
  and the floating-point parts of the frontends (string layout, touch highlights, synth).
- `tests/` runs the library on concrete inputs.

Screen positions are integers in thousandths of a pixel; touch heights and pressures are
in thousandths.
