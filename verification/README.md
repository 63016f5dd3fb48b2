# rendezvous

The decision core of a rendezvous server, which brings peers together, and of a relay
server, which carries bytes between peers that cannot reach each other. It is written in
Rust and verified with Verus.

- `src/`: the library. Every function states in its contract what it does to the state of
  a server and what it asks the surroundings to do; the laws that hold of a server as a
  whole are proof functions in `laws.rs` of each server.
- `app/`: the servers on tokio. It reads, writes and waits, hands to the library what
  happened, and carries out what the library asks for.
- `tests/`: the library on concrete values.

The library holds no sockets. A connection is known to it by a number; a point in time is a
number of nanoseconds of one monotonic clock; messages are plain values.
