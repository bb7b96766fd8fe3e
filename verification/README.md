# mini_system_monitor

A system monitor for 320x480 USB serial LCD panels, with a settings app for
editing themes and startup options.

- `src/` is the library, written in Verus: the panel's command protocol and
  RGB565 pixel encoding, the queue to the port thread and its write/failure
  bookkeeping, theme documents and their lookups, element layout and preview
  planning, the per-stat refresh timetable of the main loop, sensor selection
  from LibreHardwareMonitor output, the statistics and text shown on screen,
  path resolution, and the settings file and startup task text. Every function
  there carries a contract that Verus proves. The calls it makes into other
  code go through small wrappers whose contracts are stated in their doc
  comments: `image` (decoding PNG files, encoding the preview), `base64`,
  `chrono` (the local time), and from the standard library `Sender::send`
  (the command queue), collecting characters into a `String`, and
  `str::to_lowercase` / `str::to_uppercase`.
- `tests/` runs the library on concrete values.
- `app/` is the program around it: serial and file I/O, the system and WMI
  queries, font rasterising and anti-aliased drawing (floating point), the
  weather fetch, the tray icon, the single-instance guard and the settings
  app's commands.
