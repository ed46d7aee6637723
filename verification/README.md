# moqt

Media over QUIC Transport (MOQT): the wire format of its control messages and
objects, a framer and a stream parser, send-order priorities, the bookkeeping
of published and subscribed tracks, and a session core without I/O. The
library in `src/` is written in Verus: each public function carries a
contract, and the properties that span several functions are stated and
proved as public proof functions (`lemma_*`).

Layout:

- `src/serde/`: variable-length integers, strings, parameter lists, and the
  `Serializer` / `Deserializer` traits with their byte-level specifications.
- `src/message/`: the control messages, object headers and payload objects;
  `message_framer.rs` writes messages and objects, `message_parser.rs` turns a
  stream's bytes into events.
- `src/moqt_priority.rs`: WebTransport send orders for MOQT streams.
- `src/moqt_framer.rs`: encodings of string and integer parameters.
- `src/session/`: subscription windows, local and remote tracks, settings.
- `src/protocol/`: the session core, which queues what to write and what
  happened for the driver that owns the transport.
- `app/`: the driver loop over a transport, the session object, the core seen
  through the `sansio` protocol interface, and error texts.
- `tests/`: tests on concrete values.
