# tokio-io-pool

A thread pool for executing short, I/O-heavy futures. Each thread of the pool runs a single-threaded
tokio runtime with its own reactor, and futures are assigned to the threads round-robin.

- `src/` decides: which worker's turn it is with a ticket, which threads a pool starts and what each
  of them does, what is done with the futures of a stream, and how a pool is shut down. All of it is
  verified with Verus. Tickets are drawn from an atomic counter, of whose values Verus knows nothing:
  the laws on spawns in a row take for granted that it counts up by one. `src/executor.rs` holds
  the contracts of the calls into `tokio` and `num_cpus`, which are trusted.
- `app/` acts: it starts and joins the threads, runs their runtimes, sends them futures, and offers the pool with
  closures as hooks and with the traits of `tokio` and `futures-core`.
- `tests/` runs the library on pools whose workers all live on the thread of the test.
