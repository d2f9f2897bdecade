# nix_bindings

Rust bindings for the Nix C API, split in two parts.

- `src/` is the verified library. It holds the decisions that the bindings
  take around the C API: the activity logger builder and the decoding of
  the raw events that Nix delivers, the steps of registering and removing
  callbacks, the flake inputs locker and the plan it produces, the handling
  of lock-file replies, search results, attribute-cursor statuses, the JSON
  conversion of Nix values (a machine that asks the evaluator one question
  at a time and builds the document), the REPL exit status, and allocation
  outcomes. Each function carries a contract that
  Verus proves.
- `app/` holds the calls into the Nix C API (raw pointers, C strings,
  callbacks registered with Nix), answers the JSON traversal's questions
  with evaluator calls, and holds the null-pointer checks of the cursor and
  cache calls; it hands plain values to the library.

The tests in `tests/` exercise the library on concrete values.
