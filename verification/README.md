# Nuzzle

A terminal RSS reader with an AI assistant (served by Ollama), whose core is
verified with Verus.

## Layout

- `src/` — the verified library `nuzzle`:
  - `text.rs`: string helpers with exact specifications (trimming, lines,
    words, search, decimal numbers).
  - `types.rs`: feeds, entries, tags, highlights, sessions and messages.
  - `config.rs`: defaults, database-path resolution and the configuration text.
  - `clock.rs`: time formatting and RFC 3339 conversion through `chrono`.
  - `markdown.rs`: the Markdown renderer for answers.
  - `feed/`: turning a parsed feed (through `feed_rs`) into entries, and the
    notes shown while adding and refreshing feeds.
  - `highlight.rs`: the Markdown export of highlights.
  - `tools/`: the text protocol for tool calls, the tool registry and the
    pieces of running a tool script.
  - `ai/`: replies of the model server, stream decoding, prompts, the
    tool-calling conversation and the keyword search over articles.
  - `state.rs`, `commands.rs`, `view.rs`: the screen's state and what each key,
    command, streamed token and tool message does to it, and what the screen
    shows.
  - `tui/`: animations, layout and widgets.
- `tests/` — tests of the library.
- `app/` — the program: configuration file, SQLite database, HTTP, processes,
  the terminal and the event loop.
