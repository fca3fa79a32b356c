# Metis

The protocol engine of a honeypot that speaks the Tabular Data Stream protocol of Microsoft SQL
Server and SAP Adaptive Server, written in [Verus](https://github.com/verus-lang/verus): each
function states in its contract what it returns, and the contracts are proved.

- `src/tds` reads and writes the wire format: packets, PRELOGIN, the login records, requests,
  bulk loads, TDS 5 token streams, and the answers of the server.
- `src/semantic` says what statements are after and what they are answered. Nothing that a client
  sends is ever executed.
- `src/server` is the course of a connection as a state machine: `Dialogue::turn` takes what
  happens to a connection and returns what is to be done about it. `src/server/laws.rs` holds what
  is true of every connection.
- `src/config.rs`, `src/personality.rs`, `src/session.rs` and `src/payload.rs` hold the
  configuration, the server that is imitated, the state of a session, and where captured material
  is kept.
- `app` is the program around the library: sockets, TLS, files and events.
- `tests` runs the library on concrete inputs.

Functions marked `#[verifier::external_body]` and items under `assume_specification` are not
proved. Each stands for one operation of std or of another crate; reading the public half of an RSA
key, and decrypting with the private half, chain several calls. The doc comment of each says what is
claimed of it.
