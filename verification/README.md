# fydia

The core of the fydia chat server, written in Verus. The functions under
`src/` carry contracts that Verus proves, except the wrappers marked
`external_body`: each makes one call into openssl, argon2, mime, infer,
mime_guess, toml, serde_json or std, and its contract is trusted, not proved.

- `config`: the server's configuration and the URLs it builds from it.
- `crypto`: RSA keys, the RSA + AES-256-CTR envelope in which events travel,
  random strings and password hashes (openssl and argon2 do the arithmetic).
- `dispatcher`: the frame that carries an event to another instance, and
  the checks made when one arrives.
- `manager`: the typing registry and the websocket registry, as state
  machines that say what their runner must do.
- `websocket`: the registry that shares one channel between a user's
  connections.
- `libtest`: the HTTP test runner: reading a test file, ordering its tests,
  preparing each request and judging its response.
- `router`: what the HTTP handlers check of a request (path parameters,
  Content-Type, pictures, the steps of a message post).
- `client`: the chat client's state.

`app/` holds what Verus does not see: files, the network, and the
conversions between the library's types and those of toml, serde and
reqwest. `tests/` runs the library on concrete values.
