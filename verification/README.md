# wordlens

The verified core of WordLens, a service that explains a word through one of
five lenses (simple, learning, game, cyberpunk, poetic) using a local model
server.

- `src/` — the library, verified with Verus:
  - `text` — whitespace trimming, literal replacement, character helpers;
  - `config` — the generation endpoint and the allowed browser origins;
  - `types` — lenses, roles, request and response records;
  - `error` — errors and their HTTP status codes and messages;
  - `prompts` — the per-lens instruction templates;
  - `ollama` — validation, prompt building, generation settings, cache keys,
    answer text and streamed answer lines;
  - `answer` — what a cache hit is answered with, and which answers are
    recorded in the history and which cached;
  - `history` — the bounded history of explanations, newest first;
  - `ratelimit` — the fixed-window rate limiter;
  - `streaming` — the Server-Sent Events decoder used by the browser client;
  - `chat` — the chat screen: the five per-lens conversations, sending,
    replies, regeneration, and the client's notices.
- `app/` — the HTTP server (axum, reqwest, moka): configuration, routes,
  JSON encoding and the calls to the model server.
- `tests/` — tests of the library on concrete values.
