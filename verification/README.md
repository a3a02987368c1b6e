# scr

A single-threaded runtime built around io_uring, verified with Verus.

## Layout

- `src/io_uring/` - the io_uring interface: its structures and flag words
  (`sys`, `flags`), one type per operation (`op`), the two queues (`sq`, `cq`,
  `queue`), how a ring is laid out, mapped, registered with and torn down
  (`ring`), and what a system call returned (`syscall`).
- `src/net/` - socket addresses as the kernel has them.
- `src/runtime/` - the runtime: timers in a heap (`timers`), operations in flight
  and the submission queue in front of them (`driver`), tasks, their states and
  the registry they are filed in (`task`), the run queue (`sched`), everything
  that can happen to a task and what holds however it goes on (`moves`), blocking
  on a future (`blocking`).
- `app/` - ordinary Rust around it: system calls, mapped memory, futures, wakers
  and the clock.
- `tests/` - the library from the outside, with the kernel and the futures played
  by the tests.

The target is x86-64 Linux: error numbers, address families, layouts and byte order
are those of it.

## How the two halves meet

The library never calls out. It says what to do next, such as entering the kernel
with these arguments or polling the future of that task, and is told what came of
it. Futures, outputs, wakers and clean-up actions belong to the caller and are
tokens in the library.

The memory that the kernel shares is copied: `sync` takes in what the kernel has
written, and what has been written for the kernel is read back out of the queues.

## What is trusted

The operations of `slab::Slab` that timers, operations and tasks are filed with,
each specified next to its user, and two functions of the standard library that
put messages together.
