# urma_rs

Verified core of a safe Rust wrapper for the URMA (Unified Remote Memory Access)
userspace C API, written in Verus.

The library makes every decision of the wrapper and performs none of its calls:
an operation hands out a `Call`, its caller performs it and hands the `Reply`
back, until the operation is done. So the library is verified for every answer
that liburma.so can give.

## Layout

- `src/ffi.rs` — the C API as values: constants, structs, flag unions
- `src/call.rs`, `src/operation.rs` — calls and answers, and what an operation
  owes for the objects that its calls make: a failed operation leaves nothing
  behind, and no call uses what does not exist
- `src/tree.rs`, `src/session.rs` — the resources of a thread and who keeps whom
  alive: whatever the order in which handles are dropped, a resource is deleted
  after everything that was created from it, everything once, memory after its
  registration
- `src/life.rs` — what holds over the life of a thread: one initialization, shared
  by everything, and ended once
- `src/error.rs`, `src/text.rs` — errors and their texts
- `src/urma/` — the safe layer: init, devices and their capabilities, contexts,
  completion queues, jettys and work requests, registered memory, imported peers,
  exported blobs, page buffers
- `tests/` — the operations against a library that keeps books
- `app/` — links liburma.so: raw bindings, the function that performs the calls,
  and handles that clean up when they are dropped

## What is proved

Contracts say what each function returns, which call comes next, and which error
comes when. The one thing left open is how the standard library and the platform
word their own errors: there the contract says whose words are shown. On top of
the contracts stand laws, as public proof functions
whose names start with `law_`; among them `law_any_order_is_safe`,
`law_everything_is_deleted`, `law_used_outlives_user`,
`law_each_call_is_made_once`, `law_every_init_is_ended_once`, `law_nothing_leaks`,
`law_calls_use_what_exists` and `law_wait_read`.

The trusted items are few: `String::push`, `String::from_utf8_lossy`,
`Layout::from_size_align`, `io::Error::from_raw_os_error`, and the two error types
of the standard library that are carried as they are.
