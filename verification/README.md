# mail_laser

Receives e-mail and forwards it to a webhook as JSON. The rules live in a library that is verified
with [Verus](https://github.com/verus-lang/verus); everything that touches the outside world is a
thin layer of ordinary Rust around it.

| Directory | Contents |
|-----------|----------|
| `src/`    | the verified library |
| `tests/`  | its tests, with the outside crates linked |
| `app/`    | environment variables, JSON, the clock, HTTPS, the actor |

## The library

- `config` reads every setting from a snapshot of the environment, reports the first thing that is
  wrong, and says so in words. `config::laws` states what holds of all settings, and
  `config::readings` tells what was read before anything was wrong, for the log.
- `webhook::signature` signs `<timestamp>.<body>` with HMAC-SHA256; what is signed tells time and
  body apart.
- `webhook::plain_http` decides where a webhook may be reached without TLS: loopback, single-label
  names, private and link-local IP literals.
- `webhook::client` builds the requests and judges the responses.
- `webhook::delivery` decides on retries, with a wait that doubles each time.
- `webhook::state` is the circuit breaker.
- `text`, `decimal` and `ip` hold the reading and writing of text that the rest needs.

## What is trusted

Five functions are believed rather than proved, each with a doc comment that says what is claimed:
`webhook::signature::authenticate` (the `hmac` and `sha2` crates), `webhook::signature::hex_encode`
(the `hex` crate), `webhook::plain_http::parse_uri` and `webhook::client::canonical_reason` (the
`hyper` crate), and `text::to_lowercase` (the standard library).
