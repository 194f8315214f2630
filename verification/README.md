# aot_handler

Dispatch logic for running EVM contracts through code compiled ahead of time, verified with Verus.

* `src/` is the verified library. It decides what happens next; it never opens a library, follows
  a pointer or touches a journal. Each decision is a step: it is told what has
  happened and says what to do next.
  * `aot_precompiles`: answers calls to the contract with one code hash from a dynamic library.
  * `inline_dl`: answers token transfers of a frame from a dynamic library.
  * `inline_aot`: puts a callback and such a library in front of an interpreter.
  * `ffi_bridge`: what passes between the host and the compiled code.
  * `engine`, `buffer`, `library`, `word`: the data that these work on.
* `app/` performs the actions: it opens libraries, calls their entries and talks to the EVM, which
  it knows through the traits in `app/context.rs`.
