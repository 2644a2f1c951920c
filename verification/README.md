# procs

The process table of a small kernel, verified with Verus.

- `src/types.rs`: ids, states, errors.
- `src/model.rs`: the mathematical model of a process and of the table, and what each
  operation does to it.
- `src/kproc.rs`: a single process; `src/table.rs`: the table.
- `src/spawn.rs`, `src/wait.rs`, `src/exit.rs`: making processes, waiting for children,
  the end of processes.
- `src/laws.rs`, `src/history.rs`: what holds of the table as a whole, and of every table
  that a kernel can come to.
- `app/`: ties the table to the rest of the kernel (process ids, memory, threads, wait
  queues, contexts) through one trait.

Where an operation needs something of the rest of the kernel, the library says what to do
next (a request, a sleep, an order to a thread) and is told what came of it.
