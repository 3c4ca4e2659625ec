# qwen_proxy

An OpenAI-compatible front for the Qwen chat service. Clients speak the chat
completions or the responses API; upstream there is a web chat that knows
neither tools nor stateless histories. What lies between the two is a library
whose functions are proved against their contracts with Verus.

- `src/` is the library: reading requests, building the prompt, keeping chats,
  reading upstream events, finding and validating tool calls, and writing
  replies, whole or streamed.
- `app/` is the service around it: sockets, the upstream calls, the environment.
- `tests/` runs the library.

What the library takes from outside crates (`serde_json`, `regex`, `dashmap`,
`uuid`, `chrono`) stands behind small functions whose contracts are stated and
not proved. Each says in its comment which outside function it calls.

## Settings

| Variable | Default | Effect |
|----------|---------|--------|
| `QWEN_TOKEN` | | the token; else the `token` in `~/.qwen_session.json` |
| `PORT` | `8765` | where the service listens |
| `QWEN_MODEL` | | the upstream model, whatever the client asks for |
| `STRICT_TOOL_VALIDATION` | `true` | refuse replies that call unknown tools |
| `TOOL_PASS_THROUGH` | `true` | send calls of unknown tools to the client all the same |
| `TOOL_SYNTHETIC_OK` | `false` | tell the model that unknown tools worked |
| `QWEN_PROXY_SESSION_TTL_MINUTES` | `30` | how long a chat is held |
| `QWEN_PROXY_MAX_SESSIONS` | `100` | how many chats are held |
