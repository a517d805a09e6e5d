# bootwitness

A boot continuity monitor for Linux, with its logic verified by Verus.

The monitor samples the kernel's boot ID, the wall clock and `CLOCK_BOOTTIME`,
and keeps what it saw in a SQLite database. From that it tells apart

- `boot_changed`: the running kernel is not the one seen last;
- `monitor_restarted`: the kernel is the same, and only the monitor was away;
- `heartbeat_gap`: `CLOCK_BOOTTIME` advanced by more than the heartbeat interval
  times the gap factor;
- `clock_anomaly`: the wall clock or `CLOCK_BOOTTIME` ran backwards, by however
  little.

## Layout

`src/` is the library. Every function in it carries a contract and is proved
against it, except for the few calls into other crates in `src/external.rs`.

- `model`: samples, events, status reports, timestamps
- `storage::plan`: what a start, a heartbeat or a stop means for the state row
- `storage::rows`: the tables, and what one transaction does to them
- `storage`: the operations on the tables; `storage::listing` reads the log
- `storage::consistency`, `storage::fingerprints`, `storage::freshness`,
  `storage::laws`, `storage::listing_laws`: what holds across the operations
- `monitor`: configuration, timing, journal lines, the lock path, health
- `daemon`: the course of the daemon, from its start to an orderly stop or a
  failure
- `platform`: from what the kernel shows to a sample
- `cli`: checking requests, laying out status, history and health

`app/` is the program around it: the command line, the daemon loop, reading the
kernel, and SQLite.

`tests/` runs the library, and holds its tables against SQLite itself.
