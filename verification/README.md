# replicated_log

A master service accepts messages, stamps them with the time, broadcasts
them to every registered secondary and records which secondaries
acknowledged them; secondaries store what they receive keyed by timestamp
and can be slowed down or made to fail for testing.

- `src/` is the verified library (Verus): the data model (`model`), string
  operations (`text`), store keys and endpoints (`keys`), chronological
  log listings (`timeline`), the broadcast tally (`broadcast`), the
  secondary registry listings (`registry`), container descriptions
  (`containers`), a secondary's settings and receive protocol
  (`settings`), start-up configuration (`config`) and the clock (`clock`).
- `app/` is the services themselves: HTTP handlers, the Redis store, the
  container engine, and serializable copies of the model.
- `tests/` exercises the library on concrete values.
