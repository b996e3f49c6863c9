# qubwic

The verified core of QuBWic, a QUIC/HTTP3-only web server.

- `src/` (Verus): configuration sections and defaults, environment and
  command-line overrides, validation (including a reader for socket
  addresses written as text), the log level and congestion control that a
  configuration selects, the table of live connections, packet routing
  decisions, and HTTP/3 request routing and response heads.
- `app/` (plain Rust): the server program around it — reading the TOML
  file and the command line, the environment, sockets, signals, and the
  calls into quiche.
- `tests/`: tests of the library.
