# h3

Configuration, settings and shared connection state of an HTTP/3 endpoint, written in Rust and
verified with Verus.

- `src/varint.rs`: variable-length integers.
- `src/frame.rs`: SETTINGS entries and the frames of the control stream.
- `src/config.rs`: what an endpoint is configured with, and how that becomes a SETTINGS frame.
- `src/control.rs`: what is written first on the control stream.
- `src/client/`: the client builder.
- `src/qpack.rs`: QPACK errors, decoded field sections, section acknowledgments.
- `src/shared_state.rs`: the state that a connection shares with its request streams.
- `src/random.rs`, `src/buffer.rs`: what is taken on trust of the `fastrand` and `bytes` crates.
- `app/`: the run-time side: locks, wakers, and the client on top of a QUIC connection.

Statements about the library as a whole are public proof functions whose names start with `law_`.
