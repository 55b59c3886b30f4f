# sse_core

A parser for Server-Sent Events and the connection logic of a client that reads
them, written in Verus: what the code does is stated in contracts and proved.

## Layout

- `src/grammar.rs` describes the event stream format, byte by byte, and
  `src/lines.rs` what a line means. `src/decode.rs` is the decoder, which is
  proved to do what they say.
- `src/stream.rs` decodes a stream of buffers.
- `src/connection.rs` describes the life of a client's connection, and
  `src/source.rs` is the logic that leads it: it decides, and its caller performs.
- `src/laws.rs`, `src/roundtrip.rs`, `src/ids.rs`, `src/sizes.rs`,
  `src/delivery.rs` and `src/lifecycle.rs` hold what follows for the library as a
  whole.
- `app/` is an asynchronous client around the library, with `reqwest` and `tokio`.

Neither the decoder nor the connection logic performs any I/O.

## What is trusted

The library calls `bytes`, `memchr`, `reqwest` and `tokio`, and parts of the
standard library, through items whose contracts are believed without proof. Each
of them has a doc comment that says what is claimed.
