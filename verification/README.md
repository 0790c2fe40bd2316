# Codex Tools

The core of an application that manages the connections of Codex on one
machine: official OpenAI accounts, and services of others that speak the
Responses API or only the Chat Completions API.

- `src/` is the library. Everything in it is verified with Verus. What it takes
  from outside crates (JSON, TOML, JSON Schema, digests, random identifiers,
  moments) stands behind wrappers whose contracts are trusted; the doc comment of
  each says what is claimed.
- `app/` does the input and output: the local proxy, the files of Codex, the
  official prices, the clocks.
- `tests/` runs the library with the real outside crates.

## The library

| Modules | What they are about |
| --- | --- |
| `text`, `json`, `toml`, `ids`, `order` | texts, documents, identifiers, a stable sort |
| `request`, `chat_request`, `message_laws`, `content` | Responses requests turned into Chat Completions requests |
| `response`, `completion`, `one_chunk`, `reasoning`, `reasoning_laws`, `capability` | answers turned back, and what is remembered between them |
| `sse`, `stream`, `stream_end`, `events`, `pump`, `byte_stream`, `stream_laws`, `stream_sums`, `stream_items`, `cutting`, `whole_stream`, `spoken_stream`, `told_answer` | answers that arrive piece by piece |
| `proxy`, `exchange`, `headers` | the local proxy: who may use it, what is sent, when it is sent again |
| `codex_document`, `codex_preview`, `codex_files`, `config_manager` | the files of Codex: what is changed, shown, written and undone |
| `activation`, `switching`, `providers`, `rounds`, `accounts` | turning from one connection to another |
| `maintenance`, `quota`, `quota_rounds`, `usage`, `sessions`, `support` | credentials, quotas, prices, sessions, a report for support |

Work that goes back and forth between decisions and the world outside (a
request, a change to files, a switch, saving a service, a round of maintenance)
is a state machine: it says what to do next and is told what came of it.
