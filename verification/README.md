# nezumi_ai_core

The verified core of an offline desktop inference library with two engines
(llama.cpp for GGUF models, LiteRT-LM for `.litertlm` / `.tflite` models), a
conversation history, and a command-line front end.

## Layout

- `src/` — the library, verified with Verus.
  - `text.rs` — text as character sequences: search, trimming, UTF-8 lengths.
  - `cleanup.rs` — removing chat-template markers and `<think>` blocks from answers.
  - `chat.rs` — configuration, how a conversation is assembled for an engine,
    and which engine a model is loaded with.
  - `session.rs` — messages and the in-memory history.
  - `error.rs` — errors and their codes at the C boundary.
  - `engines/` — engine choice from a model's path (`selector.rs`), the checks
    made before llama.cpp is called (`llama.rs`), and the prompt for and the
    reading of LiteRT-LM's output (`litert.rs`).
  - `cli/` — option parsing, model keys, number parsing, streamed display and
    the key handling of the terminal model manager.
- `app/` — the program around it: the `nezumiai` command line and its
  terminal UI (`nezumiai tui`), the engines' native and subprocess calls, the
  SQLite history, the C interface and file I/O.
- `tests/` — tests of the library.
