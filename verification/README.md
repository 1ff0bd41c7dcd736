# dolphin_sparta

The rules of a dolphin breeding game run as a zkWasm service, verified with Verus.

- `src/gameplay.rs`: accounts and dolphins, the ten player commands
  (`update_state`), the account invariant every command keeps, and the word
  encoding of accounts.
- `src/event.rs`: the delta-encoded queue of timed dolphin events: what an
  event does (`apply_dolphin_event`), scheduling (`insert`), ticking
  (`tick_step`, `tick_finish`), the queue as a timeline of due ticks, and
  its word encoding.
- `src/random.rs`: seed commitments over SHA-256 and the random numbers drawn
  from a revealed seed.
- `src/state.rs`: transactions: decoding, routing, error names, and players as
  the storage holds them.
- `src/config.rs`: the service configuration.
- `app/`: the zkWasm side: storage in the Merkle map, the global queue, the
  loop of a tick, JSON views, and the API entry points.
