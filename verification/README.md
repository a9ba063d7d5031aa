# gpt_copy_v5_backend

The backend of a ChatGPT-style chat application: conversations and their
messages are kept in SQLite, and answers come from a model reached through
OpenRouter, either whole or streamed to the browser as server-sent events.

- `src/` is the library, verified with Verus: request validation, the
  conversation turn (store the user's message, title the conversation, ask
  the model, store and return the answer) as a state machine, the decoding
  of the provider's event stream, the decoding of stored rows, the
  configuration rules, and the text handling they rest on. `src/interop.rs`
  holds the few calls into other crates (`uuid`, `chrono`, `http`) and into
  `String::from_utf8_lossy`, each with the contract that the library relies on.
- `app/` is the server around it: the Axum router and handlers that run the
  turn machine, the SQLite queries, the HTTP client for OpenRouter, the JSON
  shapes, and `main`.
- `tests/` exercises the library on concrete values.

Startup refuses to bind an address other than a loopback one unless
`ALLOW_UNAUTHENTICATED_PUBLIC_BIND=true` is set.
