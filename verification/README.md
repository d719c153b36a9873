# codex-proxy

An OpenAI-compatible proxy in front of the ChatGPT-backed Codex upstream, with its logic verified
by Verus.

`src/` is the library. What it decides is stated in contracts and proved:

- `normalization` brings a request of the responses route or of the chat route into the form in
  which it is sent upstream, or refuses it. `normalization/laws.rs` states what every request that
  goes upstream has in common, and `normalization/settling.rs` that normalizing it once more leaves
  it as it is.
- `streaming` cuts the upstream's server-sent events apart and turns them into the chunks and the
  messages of a chat completion.
- `responses` runs a stream: passed on as it is, told as a chat completion, waited for to its end,
  or relayed to a websocket session.
- `files`, `codex_auth`, `config`, `middleware`, `upstream`, `routes`, `errors`, `logging` and
  `records` hold the rules for stored files, tokens, settings, keys, headers, routes, errors and
  log records.
- `json` is the model of JSON values. `serde_bridge`, `base64_bridge`, `digest`, `ids`, `clock` and
  a few functions of `text` call out of the library; their contracts are believed, not proved.

`app/` is the server around it: routes, sockets, the database, files and the clock. `tests/` runs
the library.

Files are looked up from outside: where a request names a stored file that is not in the table
handed to it, normalization says which one it needs, and is tried again once the file is entered.
