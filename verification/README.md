# nat_predict

UDP hole punching toward a peer whose NAT hands out external ports in sequence,
with its decisions verified in Verus.

- `src/window.rs` predicts the window of external ports to probe on the peer.
- `src/sample.rs` decides how one port sample is taken from a rendezvous server.
- `src/punch.rs` is the predictive punch as a state machine: the caller owns the
  sockets and the clock, tells the machine what happened, and does what it asks.
- `src/laws.rs` states and proves what holds of these together.
- `src/addr.rs`, `src/clock.rs`, `src/limits.rs` and `src/payload.rs` hold the
  plain values the others work on.
- `app/` does the sending, receiving and waiting, and reads the configuration. It
  needs `hbb_common`, and the option keys and `common` module of the application
  that it is part of, to build.
- `tests/` runs the library, among other things over modelled NATs.
