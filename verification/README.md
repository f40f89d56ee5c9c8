# lisp

A small Lisp runtime whose core is verified with Verus.

- `src/` is the library. Every object lives in a `GcAllocator`, a heap addressed by
  `Gc` handles, with a mark-and-sweep collector. On it stand the values of the language
  (numbers, strings, symbols, keywords, atoms, kinds, functions, special forms), its
  collections (mutable and persistent lists, vectors, maps and sets, linked maps),
  scopes, the reader, the stack machine that evaluates, the built-in functions and the
  module maps, the decisions of loading a module, and the text each value is shown as.
  Each step of the evaluator has its effect stated as a spec function
  (`*_done`), and `step`, `run_steps`, `eval` and `eval_raw` are stated over them.
- `app/` is the `lisp` program: the command line, the read-eval-print loop, printing,
  and reading module files from disk, which the runtime asks for through the provided
  functions of `HostCall`.
- `tests/` runs the library on concrete programs and values.
