# veloq_driver

The decision logic of the Veloq completion drivers, verified with Verus: an io_uring
driver, an IOCP driver with registered I/O (RIO), and the planner of the test runner
that goes with them.

The library works on plain values and makes no system calls. A driver is a state
machine: each call makes one transition, and where the system has to do something the
call hands out what, together with the work that goes on with the answer. What every
transition does is stated in its contract; what holds across transitions is proved in
the `laws` modules and next to the types it is about.

## Layout

- `src/sockaddr.rs`, `src/completion.rs`, `src/slots.rs`, `src/text.rs`,
  `src/nonzero.rs`, `src/fxmap.rs`: socket addresses as the kernel writes them, the
  completion queue and its records, the slots of operations, texts, and hash maps.
- `src/uring/`: the io_uring driver. `driver.rs` submits operations, `lifecycle.rs`
  cancels and completes them, `ring.rs` sets the ring up, waits and wakes, `chunks.rs`
  and `files.rs` register memory and files.
- `src/iocp/`: the IOCP driver. `submission.rs` and `submit.rs` submit operations,
  `completions.rs`, `timers.rs` and `cancel.rs` end them, `files.rs` registers handles,
  `cleanup.rs` and `close.rs` wind sockets and the driver down, and `threads.rs` says what
  holds of socket generations across threads. `src/iocp/rio/` is registered I/O: actors
  per socket, the receive pools of datagram sockets, buffer registrations and request
  contexts.
- `src/runner/`, `src/guard.rs`: the commands the test runner runs, and the guard that
  keeps the compiler from being called past it.
- `app/`: the programs, and the shells that carry out what the drivers ask for.
- `tests/`: the library with a system that is played by the test.

## Ring setup

The flags of a ring are those of the configuration. A kernel that refuses one of them
keeps the driver from starting; a flag is left out only where the configuration
disables it.
