# wakey

Wakey is a desktop companion: a small face in a corner of the screen that
watches the focused window, the machine's vitals and the coding agents at
work, and now and then says something.

This crate is its core as a library verified with Verus, plus a thin program
around it.

- `src/` — the verified library. Every public function states what it
  returns or changes in `requires`/`ensures`, and `law_*` proof functions
  state what holds across calls.
  - `context/` — the context filesystem (URIs, scopes, categories), memory
    abstracts and overviews, tiers and retrieval plans.
  - `cortex/` — the agent loop's budget, conversation state and prompts, the
    chat endpoint and its replies, the plugin host's restart policy, and the
    voice path: voice-activity debouncing, transcripts, speech playback,
    barge-in and the voice conversation.
  - `overlay/` — expressions and their presets, the animation state machine
    and blinking, triggers, the speech bubble and the overlay's voice state.
  - `senses/` — the focused window and the machine's vitals read from text.
  - `skills/` — the skill file format and dependency graph, learning and
    evolution of skills, skill quality, and the supervision of coding agents
    (loop and stall detection, fixes, reports, sessions).
  - `chat.rs` — the interactive chat: what each key and each reply does.
  - `companion.rs`, `types.rs`, `text.rs` — the program's decisions, shared
    types and the character-level text functions the rest is proved with.
- `app/` — the program: configuration, I/O with the desktop, SQLite, HTTP
  and WebSocket services, the terminal chat (`wakey chat`), the voice
  conversation (`wakey voice`: raw 16-bit mono audio in on stdin, speech out
  on stdout, for a recorder and a player piped to it), and the tasks that
  hand their results to the library.
- `tests/` — tests of the library's public functions on concrete values.

Calls into outside crates (regex, serde_json, serde_yaml, petgraph) stand
behind small trusted items whose doc comments say what is assumed of them.
