# hmalloc

An allocator front end for heterogeneous-memory machines. Programs call
`hmalloc`, `hfree`, `hcalloc`, `hrealloc`, `haligned_alloc`,
`hposix_memalign`, `hmalloc_usable_size`, `hmmap` and `hmunmap`; depending on
`HMALLOC_JEMALLOC` the requests go to the system allocator or to a dedicated
jemalloc arena whose extents are mapped with `hmmap`, which binds new
mappings to the NUMA nodes of `HMALLOC_NODEMASK` under the policy mode of
`HMALLOC_MPOL_MODE`. The `hmctl` launcher sets these variables for a
program from its command-line options and preloads the allocator library
named by `HMALLOC_LIB_PATH` through `LD_PRELOAD`.

Layout:

- `src/` is the library, verified with Verus:
  - `decimal`: the integer text of the environment (parsing as
    `str::parse` does, writing as `to_string` does, and their round trip);
  - `env`: the three settings read from their variables;
  - `state`: the per-process state, its invariant, and `get`;
  - `jemalloc`: the `flags` of jemalloc requests and the arena's control name;
  - `front`: what each entry point does with a request;
  - `mapping`: the steps of `hmmap`;
  - `policy`: `hmctl`'s choice of policy and the environment it passes on.
- `app/` is the C ABI, the jemalloc arena with its extent hooks, the libnuma
  and libc calls, and `hmctl`'s command line; it carries out what the
  library decides.
- `tests/` exercises the library.
