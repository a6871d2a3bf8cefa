# regxorder

A keyboard and mouse recorder and replayer for Windows. The library in `src/`
holds everything that decides or computes, each function with a contract that
Verus proves; `app/` is the command line and the Windows side around it.

## Library (`src/`)

- `event`, `recording`, `error`: the recording model and its validation rules.
- `session`: finalizing a captured session and preparing a playback plan, with
  the pressed-input bookkeeping both rely on.
- `hotkey`, `global_hotkeys`, `controller`, `cli`: hotkey chords, their parsing
  and text, the values the Windows hotkey API takes, and the control loop's
  decisions.
- `diagnostics`, `environment`, `elevation`: doctor reports and the Windows
  command line used to relaunch elevated.
- `input`: translating Windows input messages into actions and actions into
  `SendInput` records.
- `editor`, `presentation`, `library`, `shell`, `ordering`: the desktop shell's
  model, its editing session, event list and texts, the recording library and
  its file-name order.
- `text`: string helpers with specifications.

## Program (`app/`)

The command line (`sample`, `validate`, `inspect`, `play`, `record`, `watch-hotkey`),
JSON reading and writing, the Win32 calls, threads, and the few computations on
floating-point numbers.
