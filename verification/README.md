# iec104sim-core

A verified core for an IEC 60870-5-104 master/slave simulator.

- `src/` — the library, verified with Verus: APCI frame classification
  (`frame`), ASDU type and cause tables (`types`), data points and their
  address-keyed map (`data_point`), the slave's stations, station table and
  replies (`slave`), the master's command frames, connection state
  transitions and handling of received frames (`master`), operator tools
  (`tools`), the master application's request handling (`master_app`),
  update-check timing (`update`), persisted configuration (`config`), and
  proofs that master and slave agree on the wire (`interop`).
- `app/` — the program around it: TCP/TLS sockets, background loops,
  logging, the master application's commands and serde/thiserror copies of
  library types.
- `tests/` — tests of the library.
