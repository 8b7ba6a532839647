# heyrnode

Host-side logic for talking to an RNode LoRa radio over a serial link, with
its behaviour stated in Verus contracts and proved.

- `src/kiss.rs`: KISS codes and payload escaping (on `bytes::Bytes`).
- `src/rnode.rs`: the command and reply codes of the RNode protocol.
- `src/config.rs`: regions, presets and the radio configuration.
- `src/report.rs`: the report kept from the RNode's replies, and statistics.
- `src/decoder.rs`: the receiver of KISS frames, as a state machine.
- `src/iface.rs`: a session: the frames to write, what read bytes do, and the
  laws that tie writing and reading together.
- `app/`: the serial port, the reader thread and the async wrapper.
