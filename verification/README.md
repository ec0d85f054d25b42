# memory_management

Page allocation with a bucketed pool of reusable mappings, as a just-in-time
compiler needs it: requests of up to 256 MiB are rounded up to a power of two and
served from a list of free blocks of that size; larger ones get a mapping of
their own.

- `src/` is the library, verified with Verus. It makes every decision and no
  system call: an operation that needs the operating system is a value that says
  which call to make next and takes in what the call returned.
  - `text` writes numbers and addresses for error reports.
  - `host` holds the constants of the operating system.
  - `syscall` describes system calls and the guard that retries them.
  - `pages` makes requests for whole pages, and rounds to them.
  - `classes` has the size classes, `pool` the free lists, `session` the
    allocations and returns in progress.
  - `laws` proves what holds of whole runs: of the guard, of rounding, of
    allocations and returns, and of who owns which memory.
- `app/` makes the system calls and holds the pool of the process.
- `tests/` runs the library against a simulated host.

The constants of POSIX systems come from the `libc` crate. What the library states
of them holds on Linux, Android, FreeBSD, NetBSD, OpenBSD, macOS and iOS, which are
the systems it supports. The constants of Windows are handed in by the caller, as
the fields of a `WindowsHost`; `libc` lacks the POSIX ones there, so the library
does not build for it.
