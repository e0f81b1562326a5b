# byebyecode status-line segments

Two segments of a coding-assistant status line, with their logic verified by Verus:

- the **model segment** shows the model's name and, optionally, the effort level in force,
  chosen among the last `/effort` command of the session transcript, the `effortLevel` of the
  settings file (the more recently written of the two wins), and an environment variable;
- the **context-window segment** shows how much of the model's context is in use: a percentage,
  a ten-cell bar coloured by the level of use, and the token count, read from the last assistant
  message of the transcript (or of the message a summary stands for).

Layout:

- `src/` — the verified library: `text` (trim, find, split, number parsing and printing),
  `timestamp` (ISO 8601 to epoch milliseconds, with calendar laws), `json` (string values read
  through serde_json), `effort`, `transcript` (usage lookup and session order), `model`,
  `context_window`, `segment`.
- `app/` — file, directory and environment access, and the floating-point texts of the
  context-window segment.
- `tests/` — tests on concrete values.
