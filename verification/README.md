# sio

Building blocks of a single-threaded event loop, verified with Verus.

- `src/llio/` – a byte buffer with read and write positions (`Buff`),
  readiness reports (`Event`, `Events`), tokens, and the epoll control
  requests a `Selector` asks for.
- `src/timequeue.rs`, `src/simpletimer.rs`, `src/heaptimer.rs`,
  `src/timeline.rs` – timer queues ordered by due instant, first come first
  run among equal instants, running each due task once, and the laws they
  keep.
- `src/reactor.rs` – the loop's bookkeeping: token numbering, registrations,
  the queue of scheduled actions and the epoll requests they need.
- `src/net/` – the service trait and what a client does with the bytes a
  read delivered (`after_read`).
- `src/logger/` – the byte layout of an append-only message log, reading it
  back and checking it.
- `src/time.rs`, `src/error.rs`, `src/notes.rs`, `src/plat/`, `src/net/` –
  instants, errors, reminder records, protection flags, socket descriptors,
  and the traits users implement.
- `app/` – the system calls (epoll, sockets, files, the clock), the shared
  ownership of the loop state, and a small program that appends a message to
  a log file.
