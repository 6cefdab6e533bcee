# voltaalert-core

The alerting library of VoltaAlert: alarms watch the data that arrives on a ZeroMQ bus and
raise alerts, which are stored and published to the desktop interface.

## Layout

- `src/` — the verified library (Verus).
  - `alarm/` — the alarm kinds and their decisions: `clock` (fires once, at or after its
    time), `pattern` (fires when the data equals, or differs from, given bytes), `Always`
    (fires on every data); `manager` keeps the active alarms, evaluates them on received
    data and reflects creations, updates and deletions in the alarm store.
  - `service.rs` — raises one alert per fired alarm, stores it and publishes it on a
    channel.
  - `repo/` — the storage traits and stored entities. Each store is modelled by what it
    holds under its keys and by the pages it lists; the contracts of the traits say what
    each call does to that model.
  - `types.rs`, `error.rs`, `zmq.rs`, `text.rs` — timestamps, alerts, received data,
    errors, the bus endpoint, decimal notation.
- `app/` — the application around it: the bus driver (`main.rs`), the ZeroMQ subscriber,
  the SQLite stores, the JSON encoding of alarm configurations (serde) and the commands of
  the desktop interface.
- `tests/` — tests of the library.

Alarm configurations are stored as bytes; their encoding is supplied to the alarm manager
through `AlarmConfigCodec` (JSON in the application), whose spec functions name what each
call gives. An alarm that always fires has no configuration and is stored as JSON `null`.
With a codec that decodes what it encodes, an alarm written back to the store reads back
in the same state (a clock that fired stays fired).
