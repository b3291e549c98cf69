# soundpad

A desktop soundboard: sounds organised in categories, played from a grid or by
global hotkeys, saved as portable JSON files next to the executable, with
presets of the whole library.

- `src/` is the verified library (Verus):
  - `text` — character-level helpers: trimming, ASCII case, splitting, decimal
    numbers, substring search.
  - `hotkeys` — chord parsing ("Ctrl+Shift+1"), the chord text a key capture
    writes and which key event it takes, the binding table with edge-triggered
    firing, and the hotkey part of the edit dialog as a state machine.
  - `models` — sounds, categories, presets, settings, ids and timestamps.
  - `store` — the in-memory library, preset snapshots, file naming rules and
    where the data and the presets live.
  - `playback` — the audio engine's decisions (state, device choice, device list,
    loop restarts).
  - `interface` — what the window shows and accepts (icons, time labels, the grid
    filter, dialog input rules) and what each dialog does with a click.
- `app/` is the program around it: the egui window, JSON files, audio playback
  with rodio/cpal and keyboard polling with device_query.
- `tests/` exercises the library.
