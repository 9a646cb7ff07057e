# modbus_rs

A Modbus protocol stack whose core is written in Verus and proved against
its contracts.

- `src/` — the verified library: PDU and MBAP/ADU encoding and decoding,
  function codes, the coil, discrete-input, register and FIFO models, the
  client request builders and response parsers, the client's table of
  pending requests, TCP stream framing, the server's request decisions and
  receive buffer, server data models (register and coil maps, their layout
  rules and the routing of requests across maps), serial line settings,
  and the plain-value parts of the C interface (configuration selectors,
  model handles, the client pool, transaction identifiers).
- `app/` — ordinary Rust around it: a blocking TCP transport over
  `std::net` and the C accessors of the model handles.
- `tests/` — tests run against the compiled library.
