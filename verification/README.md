# tuilab

A verified core for black-box testing of terminal applications, written in
Verus. The library (`src/`) holds the logic: key and mouse encoding, key
decoding, assertion conditions, the portable test protocol (JSON actions and
YAML test files as document trees), session bookkeeping, the suite-run state
machine, the command line's summaries and JSON-lines responses, the
recorder's synthesis rules, and the MCP server's allowlist, jail and tool
answers. Each public function carries a contract that Verus checks.

`app/` is the program around it: argument parsing, files, the PTY and
terminal emulator, async I/O, JSON and YAML text, and the MCP transport.

Layout of `src/`:

- `text`, `utf8`, `json`, `pattern`: strings, UTF-8, document trees, regular
  expressions.
- `input`: key names to bytes, bytes to keys, mouse sequences.
- `assertions`: conditions and their verdicts against a screen.
- `protocol`: actions and test files, read from and written to trees.
- `engine`: session registry, step outcomes, suite runs, result ordering.
- `cli`: exit codes, configuration, summaries, JSON-lines responses, recorder.
- `mcp`: allowlist, jail, tool shapes and answers.
