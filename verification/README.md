# networking

Peers on the local links find each other and form a Zenoh mesh. This crate holds
everything that is decided or computed for that, verified with Verus:

- `src/wire.rs`, `src/discovery.rs`: the discovery protocol. A hello carries a
  nonce and goes to a multicast group on every enabled interface; an answer
  repeats the nonce and gives the id of who answers. What holds of the protocol
  as a whole is in `src/discovery_laws.rs` and, over many calls and datagrams, in
  `src/discovery_runs.rs`.
- `src/settings.rs`: how a session and a scout are configured.
- `src/watchers.rs`: which scouts to start and stop as interfaces come and go.
- `src/scout.rs`, `src/locators.rs`: what a scout does with the peers that it
  hears, and where to reach them.
- `src/addr.rs`, `src/text.rs`, `src/zid.rs`: addresses, numerals and ids.

Calls into `bytemuck`, `rand` and `zenoh`, and those that read and write addresses,
stand behind small functions whose contracts say what is relied on.

`app/` is the ordinary Rust around it: sockets, tasks, channels and the
environment.
