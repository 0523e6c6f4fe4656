# dtls

The client side of a DTLS 1.2 connection, verified with Verus: the state that a
connection keeps and saves, and the flight with which the client ends the
handshake.

- `src/` is the library.  It does no input or output.  A step that needs work
  from elsewhere returns an `Action`; the caller does it and hands the reply, an
  `Event`, to the next step.
  - `state`, `serialized_state`: the state of a connection, its saved form in
    bytes, and the keying material that it exports.
  - `flight::flight5`: `generate` makes the client's last flight,
    `initialize` derives the master secret and authenticates the server on the
    way, `parse` takes the server's answer, and `laws` and `initialize_laws`
    state what holds of every run.
  - `prf`: the pseudorandom function and what is derived with it.
  - `extension`, `handshake`, `record_layer`, `cipher_suite`, `curve`,
    `signature_hash_algorithm`, `alert`, `config`, `error`, `bytes`: what these
    are made of.
- `app/` drives the library: it performs the actions asynchronously and shares
  the epochs and the record number between tasks.
- `tests/` runs the library on known values.

The calls into `bincode`, `hmac` and `sha2` stand behind functions whose
contracts are not proved; their doc comments say what is taken on trust.
