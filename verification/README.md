# tokio_playground

A set of small asynchronous networking examples, built on `tokio` 0.1 and
`futures` 0.1, whose decisions are written as a library verified with Verus.

- `src/` is the verified library: a line codec over `bytes::BytesMut`
  (`lines_codec`), UTC times and spans (`clock`), deadline futures
  (`waiting`), counting streams (`streams`), the byte-counting fold and the
  random pong (`backend`), chunked transfer progress (`exact_io`), the slot
  stream (`slots`), the listener's pause gate and event queue (`listen`),
  request and message text (`requests`, `text`) and the values of the
  future-chaining examples (`basics`).
- `app/` is the program: runtimes, sockets, timers, threads and printing,
  calling into the library for every decision.
- `tests/` runs the library on concrete inputs.
