# poratake_daemon_win

The Windows helper daemon of Poratake: a process that reads one JSON request
per line on stdin, routes it to a module (screenshots, recording, OCR, QR
codes, printing, device lists, overlays) and answers on stdout.

- `src/` is the verified library: the geometry of panels
  and overlays, the recording controller's state machine, the timelines that
  remove paused time from video, audio, camera and input tracks, the audio
  write planner, format and device selection, the print layout, the scroll
  capture's frame matching, stitching and PNG encoding, the request parsers and the router's
  decisions. The laws that span functions are public proof functions.
  Most public functions state their whole result in `ensures`. Where a result
  goes through an outside call, the contract says what is handed to the call
  and what holds whatever came back: `recording_project_dir` (the parent
  directory comes from `Path::parent`, whose answer depends on the platform's
  separators) and `RecordingConfig::from_wire` (which asks for that parent;
  `from_checked_wire` is exact for either answer). QR decoding is stated
  through a name for what `rqrr` returns; base64 text is stated as the
  standard alphabet with canonical padding.
- `tests/` runs the library on concrete values.
- `app/` is the process around it: the stdin/stdout protocol and the
  Windows API calls, the floating-point arithmetic (`float_math.rs`), and
  the file write of a finished scroll capture (`scroll_capture_file.rs`).
  Its router registers seven modules: desktop-helper, desktop-wallpaper,
  media-devices, ocr, print, qrcode and recording-control. The window-based
  modules (camera preview, area selector, all-in-one panel, recording and
  freeze overlays, scroll capture, timer, display and window selectors,
  screenshot and screen recorder) have their decisions in `src/` but no
  runner in `app/` yet: their window plumbing is not part of this crate.
