# port-mcp

A Model Context Protocol server for debugging serial, TCP, UDP and VISA
ports. The logic of the server is a library, `port_mcp`, whose functions carry
Verus contracts and are proved; a thin stdio program in `app/` performs the
I/O and answers the MCP tools.

## Layout

- `src/util/` — hex and text codecs, Modbus RTU, SCPI/AT/SLIP helpers,
  IP address parsing, decimal rendering.
- `src/model/` — errors, identifiers and timestamps, limits and network
  boundary, instance configurations, payloads, redaction.
- `src/runtime/` — the instance registry: lifecycle state machine, session
  bindings, resource locks, transmit queues, receive buffers, byte budgets and
  stream subscriptions, with laws about them.
- `src/transport/` — error classification of the transports, the TCP
  listener's inbox, serial settings, VISA address handling, a mock transport.
- `src/probe/` — device probing: request checks, matchers, candidate plans,
  result folding.
- `src/mcp/` — argument types of the tools and the decisions of the tool
  handlers, including debug profiles and shortcuts.
- `app/` — `main`, the rmcp tool server, sockets, serial ports and threads.
