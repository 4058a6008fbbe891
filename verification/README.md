# meta_skill

The core of a skill registry that learns from recorded coding sessions. It is a library of executable
Rust whose behaviour is stated in contracts and proved by Verus.

- `src/cass/` reads sessions. `decode` turns an exported session of any of the known formats into
  messages with tool calls and results, `markers` finds tool calls that are written inline, `command`
  quotes and classifies what is run and decides the steps of a run, and `client` puts together the
  commands, matches, ids and fingerprints. `laws` holds what is true of every decoded session.
- `src/storage/` is the database of the registry. `sqlite` and its neighbours give statements, each a
  text with the values bound to it, and read the rows that come back. A record type names its columns
  once: queries, insertions and readers all follow that list. `table` says what the statements mean,
  and `laws` and the modules of the records state over it what several of them do together.
- `src/json.rs`, `src/text.rs`, `src/storage/clock.rs` and `digest` and `file_stem` in
  `src/cass/client.rs` hold the
  few functions of other crates and of the standard library that are declared rather than proved.
- `app/` runs what the library decides: processes, the database connection, serialised forms and
  floating point.

Floating-point numbers are carried as their bits, and values whose types live elsewhere as JSON text.
