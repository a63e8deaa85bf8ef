# api_for_cursor

The logic of the API for Cursor tray application for Windows, verified with
Verus: how coding agents (opencode, Codex, VS Code, Cline, Kilo Code, pi) are
pointed at the local OpenAI-compatible API, how their status is read, where
their files live, the application's settings, the API key's storage and
migration, autostart values, backups, and the decisions behind the two local
server processes.

Layout:

- `src/` — the verified library.
  - `text.rs`, `lines.rs`: text operations (trimming, line splitting and
    joining, decimal numbers) and facts about them.
  - `json.rs`: a JSON value model with unique object keys.
  - `agents.rs`: per-agent configuration documents, status rules, agent list.
  - `codex.rs`: TOML table removal and Codex's `config.toml`.
  - `location.rs`: configuration locations as a base path plus segments.
  - `settings.rs`, `credentials.rs`, `autostart.rs`, `backup.rs`, `server.rs`.
- `tests/` — tests on concrete values.
- `app/` — the Tauri application around the library: file, registry, process
  and credential-store access, and the commands the frontend calls.

Each JSON configuration writer is idempotent, keeps unrelated settings and
always writes the local key `cursor-local` (the `law_*` functions in
`agents.rs`); an existing `cursorapi` provider entry is merged into, not
replaced. The Codex writer is idempotent unless the base URL holds a
line feed followed by a line that opens a TOML table, or the kept part of
the file holds `"\r\n"` (`law_codex_idempotent`).
The API key's reading, migration, storing and deletion are stated as the
exact calls made on the credential store (`credentials.rs`).
