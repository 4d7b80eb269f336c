# responses_proxy

A proxy between the OpenAI Responses API and the Chat Completions API: a
Responses request is turned into a Chat request for a configured provider,
and the provider's answer (whole or streamed) is turned back into a
Responses answer. It also keeps WebSocket sessions, compacts long
conversations into an encrypted summary, and rewrites request bodies by
configured rules.

The library under `src/` is written in Verus: each public function states
what it returns in its `requires`/`ensures`, and Verus proves it. Calls into
outside crates (JSON text, AES-GCM, hex, random ids, regular expressions)
go through small trusted wrappers whose contracts say what those crates
promise.

- `value`, `json`, `jsonio`, `text`, `fields` — the JSON model, reading
  and building values, text helpers, and reading struct fields the way a
  derived `Deserialize` reads them.
- `models`, `items`, `tools`, `tool_parts`, `tool_types` — the request and
  answer types, input items, tool choices and tool definitions.
- `convert_request`, `convert_response`, `streaming`, `sse`, `wire` — the
  conversions in both directions, the streamed events and their wire form.
- `config`, `rewrite`, `server`, `compact`, `ws`, `crypto`, `ids` —
  configuration, body rewriting, the decisions of the HTTP endpoints, of
  compaction and of WebSocket sessions, encryption and identifiers.

`app/` holds the program around the library: the HTTP and WebSocket server,
configuration loading, and the calls to the provider. `tests/` holds the
tests, run with the outside crates linked.
