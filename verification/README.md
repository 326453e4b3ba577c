# ai_tools_hub

The logic of a desktop platform that manages AI tools (API models and
command-line agents), written in Verus and verified: every function in `src/`
carries a contract that Verus proves.

- `src/` — the verified library: the path sandbox, the tool registry and
  built-in tool catalog, streamed tool-call accumulation, the rounds of a chat
  completion, sub-agent sessions, the knowledge base search and topics,
  session lists and summaries, memory search hits, skill bundles, the cron
  clock and desk watcher, the hub and its Telegram bridge, web and browser
  search results, terminal tools' output, and a bounded context stack.
  Calls into `serde_json` and a few `std` functions sit behind small trusted
  wrappers whose contracts are stated in their doc comments.
- `tests/` — tests run against the compiled library.
- `app/` — the program around the library: files, the SQLite memory store,
  network requests, child processes, timers and the HTTP hub.
