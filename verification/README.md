# delila_rs

The control and bookkeeping core of the DELILA data-acquisition pipeline
(emulated and CAEN digitizer sources, merger, data sink), written in Verus
and proved against its contracts.

- `src/` is the verified library: the component state machine and command
  handling, message-header parsing, the merger's receive/send decisions and
  backlog gauge, per-source sequence statistics and their order-independent
  totals, the monitor's waveform channel listing, configuration values and
  their defaults, the CAEN digitizer parameter list, the AMax register-map
  generator (layout derivation, resolution and the emitted Rust/TypeScript
  text), and the startup configuration of each component.
- `tests/` exercises the library on concrete values.
- `app/` is the program around it: command lines (clap), the TOML/JSON/
  MessagePack formats (serde), ZeroMQ sockets and the tokio tasks that move
  frames, and the floating-point parts (event generation, rates, the
  storage benchmark).
