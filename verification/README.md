# nsq-async-rs

An asynchronous NSQ client whose protocol handling and decisions are written
in Verus and proved against their contracts.

## Layout

- `src/` — the verified library:
  - `wire` — big-endian integers, decimal numerals, byte searches;
  - `error` — the error types and the texts they display;
  - `protocol` — commands and their wire bytes, frames, messages and the
    answer state of a message, `IDENTIFY` settings;
  - `connection` — handshake reply checks, frame sizing and decoding;
  - `consumer` — name validation, what a frame requires, the follow-up after
    a handler, the RDY count, reconnection and its backoff;
  - `producer`, `commands`, `lookup` — where to publish, what to send, how
    nsqd's reply is read, nsqlookupd addresses;
  - `pool` — a generic connection pool with a cap, idle and lifetime limits
    and waiting requests;
  - `connection_pool` — per-host bookkeeping of nsqd connections and its
    statistics.
- `app/` — the asynchronous client around the library: TCP connections,
  consumers, producers, the pools' locks and clocks, HTTP lookups and JSON.
- `tests/` — tests of the library on concrete values.

Time in the library is a millisecond clock passed in by the caller.
