# boothrflow

The decision-making core of a local-first voice-dictation tool, written in
Verus: every function under `src/` carries a contract that Verus proves.

- `src/` — the verified library: settings and their validation, hotkey
  chords and the key listener's state, the cleanup prompt, correction
  learning, streaming-transcript stabilisation, utterance endpoints,
  history storage rules, microphone choice, file locations, and the
  session's decisions between engine calls.
- `tests/` — example-based tests of the library.
- `app/` — the glue that Verus does not see: serialisable copies of the
  library's types, the environment, process-wide state, file formats and
  the floating-point code.

Laws that span several functions (a style survives storage, escaping a
search loses nothing, Local-Agreement-2 commits exactly the common prefix,
learned corrections stay capped and oldest-first, chord spelling order does
not matter, ...) are stated as public proof functions next to the code
they are about.
