# rut_io_example

Small TCP servers, one per Linux/BSD I/O interface (blocking sockets, `poll`,
`epoll`, `kqueue`, io_uring), built around a verified library.

- `src/` is the library, verified with Verus: the client tables of the
  servers, the rules that turn the outcome of a read or write into a
  connection status, the io_uring user-data encoding and completion handler,
  the `pollfd` list, the epoll/kqueue bookkeeping, and the numbered lines of
  the demo servers.
- `app/` is the program: it binds the listener, performs the system calls
  and hands their outcomes to the library. `rut_io_example <server>` runs one
  server (`blocking-client-server`, `blocking-server`, `epoll`, `io-uring`,
  `kqueue`, `poll`, `poll-client-server`).
  The package depends on the `io-uring` crate, which builds on Linux only,
  so the package as a whole builds on Linux; there the kqueue server is left
  out, as `nix` offers kqueue on BSD and macOS only. The library's own code
  names no Linux-only item (the epoll constants are handed to it).
- `tests/` runs the library on concrete values.
