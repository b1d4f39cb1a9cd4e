# dwntp

A verified library for logging RTU control events issued by MTUs of a
power grid: event creation and deterministic IDs, the ledger chaincode's
transaction handling, an on-chain event log, and a gossiping MTU overlay
with signed, hash-chained events. Each function states its behaviour as a
`requires` / `ensures` contract, and Verus proves it.

## Layout

- `src/text.rs`, `src/json.rs`, `src/codec.rs`: decimal and hexadecimal
  text, JSON string literals, SHA-256 and base64 (the last two through the
  `sha2` and `base64` crates).
- `src/error.rs`: the errors of event creation.
- `src/mtu_event.rs`: control events with a byte-string source MTU, whose ID
  hashes the canonical JSON of the identifying fields.
- `src/event.rs`: control events with a text source MTU, whose ID hashes the
  colon-joined identifying fields, colons inside a field escaped.
- `src/chaincode.rs`: the chaincode as a state machine per transaction, and
  the laws of a whole transaction run (one final reply, at most one write).
- `src/pallet.rs`: the on-chain log: one event per ID, never changed.
- `src/sim/`: event signing and verification (`ed25519-dalek`), length
  framing, and the decisions of an MTU node of the overlay.
- `src/client.rs`: the command-line client's arguments, peer commands and
  output handling.
- `app/`: the programs around the library (gRPC chaincode server, client,
  MTU and RTU simulators, RTU HTTP API), which perform the I/O.
- `tests/`: tests of the library.
