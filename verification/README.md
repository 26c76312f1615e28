# os

The task layer of a small teaching kernel, verified with Verus.

- `src/fs/link_map.rs`: an association list whose keys are compared with `==`.
- `src/mm.rs`: addresses and page numbers, mapping permissions, the record of which
  virtual pages each task has mapped, and the split of a user buffer into per-page
  physical segments.
- `src/task/`: the task control block, the round-robin task manager, the stride
  scheduled ready queue and the processor.
- `src/syscall/process.rs`: the process system calls.
- `app/`: the kernel-side glue: global state, the clock, and copying results into
  user memory.
- `tests/`: tests of the library.

Run Verus on `src/` to check every contract; the laws of the library stand in `src/`
as public proof functions whose names begin with `law_`.
