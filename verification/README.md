# HarborBeacon Desktop

A desktop agent that is talked to over Feishu. It reads, searches and edits a workspace,
carries out plans step by step, runs terminal commands after a second word where they are
dangerous, builds and restarts itself, and hands questions on to Copilot. Its decisions are
written in Verus and proved; what touches the network, the disk or a process is ordinary
Rust around them.

## Layout

- `src/` is the verified library. It never does I/O: where something outside is needed, a
  function says what is wanted, and a second one goes on with what came of it.
  - `text`, `unicode`, `order`, `json`: strings, sorting, and JSON documents.
  - `intent`, `parser`, `actionwords`, `plan`, `classifier`, `phrases`: from the text of a
    message to what it asks for, and what can be relied on about that.
  - `dispatch`, `conduct`, `steps`, `format`: what is done about a message, and what can be
    relied on about it.
  - `session`, `store`: what is remembered of a user, and where.
  - `bridge`, `actions`, `actionrun`, `patch`, `walk`, `edit`: actions that stay in the
    workspace.
  - `devloop`: building, logs, git, the terminal.
  - `feishu`, `event`, `ws`, `reply`, `connectivity`: the Feishu API, the long-connection,
    replies, and the diagnosis.
  - `copilot`, `ask`, `chat`: asking Copilot, and the chats of VS Code.
  - `mcp`: the Model Context Protocol server.
- `app/` is the program: the agent, `doctor`, `mcp-server` and `candle-smoke`.
- `tests/` runs the library on concrete values.

The functions marked `external_body` and the `assume_specification` call what is not
proved here: the Unicode tables, the clock and UTF-8 decoding of the standard library,
`serde_json`, and the tensor operations of `candle`. The comment above each says what is
taken for granted.
