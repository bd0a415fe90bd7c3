# Ashe Worker

A tray companion for dictation, quick text assistance and voice sessions. The
library holds its rules, written and proved in Verus; the program around it
talks to windows, sound devices, services and clocks.

## Layout

- `src/` is the library: every function states in its contract what it does.
  - `composition`: recorded speech without dead air, private typing, and their
    assembly in order.
  - `spoken_punctuation`: spoken commands become symbols.
  - `stt`, `fal_client`, `json`, `http`: captures as WAV, transcription requests
    and what their answers mean.
  - `config`: settings, what each feature needs, and worker endpoints.
  - `ui_app`: the course of dictation, text actions, image pastes and voice, as
    steps from a state and an event to a state and actions.
  - `win32_service`: keyboard capture, hotkeys, the tray menu, and commands to
    the service window.
  - `pill_renderer`, `overlay_text`, `native_overlay`: outlines, layout, text
    placement and pixels of the overlay.
  - `voice`, `voice_audio`, `audio`: the course of a voice session, playback and
    capture.
  - `logger`, `observability`: what is logged and exported.
  - `text`: the string operations that the others share.
- `app/` is the program. It performs the library's actions and reports events.
- `tests/` holds the tests of the library.

Lengths of the overlay are tenths of a logical pixel, outlines are in units of
a hundred-millionth of one, and times are nanoseconds. Samples and overlay
positions that are floating point cross the library as bit patterns.

Laws that span several functions are public proof functions; their doc comments
state them in words.
