# screencap

Window and monitor screenshots for Windows through Windows.Graphics.Capture,
as a command-line tool (`screencap-cli`) and a small picker window
(`screencap`).

The library under `src/` holds everything the program decides, with its
behaviour stated in contracts and proved by Verus:

- `cli`: validation of the `cap` arguments, hotkey specifications, the
  assembled command line;
- `run`: the logging bootstrap, capture-method check, retry policy,
  processing of a captured image (alpha, crop), target and screen-area
  selection, the hotkey message loop's decisions;
- `crop`, `image_stats`, `d3d11_copy`: crop geometry, pixel counts, row
  packing of mapped textures;
- `capture_wgc`: the capture plan and the frame loop as a state machine;
- `window_enum`, `monitor_enum`: target window ranking, monitor lookup and
  enumeration indices;
- `encode_png`: path normalisation, the overwrite and directory guards, COM
  start-up and final-path handling;
- `gui`: list rows, window ordering, selection restore, control layout,
  message dispatch and the capture command line of the picker window;
- `util`, `text`, `number`, `logging`, `types`: shared data and text helpers.

`app/` is the Windows side: clap argument parsing, Win32/WinRT calls, the
PNG encoder, JSON output, the file logger and the picker window. `tests/`
runs the library on concrete inputs.
