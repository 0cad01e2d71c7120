# minix_kernel

The decision-making core of a Minix-style microkernel, written in Verus and
proved against its contracts: process slots and their runtime flags, the
sixteen ready queues, the privilege table, the free-memory map, per-CPU and
inter-processor state, page-table entry decoding, and the kernel calls for
tracing, information queries, live update and statistical profiling.

Layout:

- `src/` — the verified library. Each module states what its functions do
  over spec functions and views (`ProcessTable::slots()`/`queues()`,
  `PrivTable::slots_spec()`, memory maps as `Seq<MemMapEntry>`), and the
  `law_*` proof functions state properties that span several calls.
- `tests/` — ordinary Rust tests that run the library.
- `app/` — the runtime around the library: the big kernel lock, the shared
  kernel state, the cross-CPU request protocol, user-memory copies and the
  boot sequence, written against traits that each architecture implements.

Kernel calls whose work needs hardware or another address space are split:
the library decides and returns what is to be done (`TraceAction`,
`GetInfoStep`, `ProfStep`, `MiscFlagsStep`, `RemoteAction`), and `app/`
carries it out.
