# codex-proxy

An OpenAI-compatible proxy in front of the ChatGPT Codex backend. It takes Chat
Completions and Responses requests, rewrites them for the backend, and turns the
backend's event stream into what the client asked for. In router mode it fronts
several single-account proxies and keeps each conversation on one account.

`src/` is the library: every rule of the proxy, with contracts that Verus
proves. `app/` is the server around it: sockets, files, the clock of the relay,
Redis, metrics and traces. `tests/` runs the library.

| Module | What it decides |
| --- | --- |
| `model`, `names`, `request` | the request that goes to the backend |
| `sse`, `transform`, `relay`, `buffered` | what becomes of the backend's events |
| `conversation`, `affinity`, `router` | which account serves a conversation |
| `credentials`, `upstream` | tokens, their refresh, and the one retry |
| `server`, `config`, `ratelimit`, `metrics` | routes, access, answers and readings |
| `json`, `text`, `bytes`, `headers`, `digest`, `clock` | the values all of this works on |

Laws that relate several functions are public proof functions whose names begin
with `law_`.

The server reads `codex_instructions_prefix.txt`, `inverse_prompt.txt` and
`models.json` from the directory named by `--assets-dir`.
