# rnet

An event-driven TCP / Unix-socket networking engine. The crate is split in two:

* `src/` — the library, verified with Verus. It holds everything that decides
  or computes: connection descriptors (`gfd`), engine options and their
  normalisation (`options`), address parsing for TCP, UDP and Unix sockets
  (`socket_addr`, which takes the parser of IP socket addresses as a
  closure), the handler's answers (`handler`), load balancing
  (`balancer`), command routing and readiness decisions (`command`,
  `event_loop`), the elastic ring buffer (`elastic::ring`), the read buffers
  (`buffer`, `io_buffer`), the inbound and outbound byte queues of a
  connection (`connection`) and the raw codec (`codec`). `bytes_buf` states,
  as trusted wrappers, what the methods of the `bytes` and `smallvec` crates do
  with their contents.
* `app/` — the engine around it: sockets, polling with `mio`, listeners built
  with `socket2`, event-loop and acceptor threads, the worker pool, and the
  `std::net` parser of IP socket addresses handed to the library.

`tests/` exercises the library on concrete values.
