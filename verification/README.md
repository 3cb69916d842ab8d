# rs-proxy

A PROXY-protocol-aware TCP relay for RS2/JS5 game clients. The library in
`src/` holds the logic, verified with Verus; `app/` is the program around it
(sockets, the io_uring runtime, command-line parsing, printing).

- `src/header.rs`: the binary PROXY header (TCP over IPv4) and the dotted form of
  an address.
- `src/handshake.rs`: the client handshake as a state machine that names the next
  I/O action and takes its outcome.
- `src/transfer.rs`: how a timed read or write is judged, and each relay
  direction as a state machine that ends at end of stream or at its first
  failure.
- `src/config.rs`: the `-b`, `-t` and `-v` options, and the idle watchdog as a
  state over the looks it takes.
