# dictation

A local-first dictation app: record with a hotkey, transcribe with Whisper,
optionally rewrite with a local LLM (Ollama), and type or paste the result
into the focused application.

The crate is split in two:

- `src/` — the library, written in Verus and verified: text utilities, the
  rewrite prompt and dictionary selection, the settings rules, the JSON
  fallback store (upserts, deletions, resets, stable sorting), calendar
  arithmetic for timestamps, the voice-activity range selection, the NDJSON
  stream splitter, the model catalogue and download digest check, the
  start/stop steps of a dictation, the fn-key long-press detector, the
  focus tracker's decisions, and the benchmark harness helpers. Each public
  function carries a contract; the `law_*` proof functions state properties
  that span several calls.
- `app/` — the Tauri shell: window commands, tray, SQLCipher database,
  Keychain, microphone capture, the Whisper and Ollama runtimes, keystroke
  and clipboard injection, and the benchmark binaries. It performs the
  outside work and hands plain values to the library.

`tests/` exercises the library on concrete values.
