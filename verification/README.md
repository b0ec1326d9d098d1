# osiris

The verified core of Osiris, a completion based, thread per core I/O runtime built on
io-uring.

`src/` holds the logic, proved with Verus:

- `_priv`: the state of `join!` / `try_join!` (which branch is polled when), the
  arguments of the `main` attribute, and the decisions of the entry point (how many
  replicas run, on which core, and when they are restarted);
- `buf`: owned buffers and slices of them;
- `fs`: file metadata (with the birth time only when the file system reports it) and type bits;
- `io_uring`: the ring parameters and mapping sizes, and the reading of the completion
  ring;
- `reactor`, `driver`: the tables that map I/O events to the tasks that wait on them;
- `net`: address text and the system layout of socket addresses, the system files `/etc/hosts`, `/etc/services` and
  `/etc/resolv.conf`, DNS queries and replies, and the flag checks of address lookup.

`app/` is the thin layer that performs the system calls and file reads and hands plain
values to the library. `tests/` runs the library on concrete values.
