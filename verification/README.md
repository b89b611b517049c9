# vloom

A window screen recorder for macOS whose decisions are verified with Verus.

- `src/` is the verified library: listing and filtering windows, reading the
  user's choice, the capture loop's stop and frame decisions, the `ffmpeg`
  command line, default file names and the LLM prompt.
- `app/` is the program around it: command-line parsing, screen capture,
  the encoder process, the clipboard and the terminal.
- `tests/` exercise the library on concrete values.
