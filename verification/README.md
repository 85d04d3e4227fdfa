# tsnc

A compiler from a small subset of TypeScript to MLIR, whose code generators
are verified with Verus.

The library (`src/`) reads a module as a syntax tree of its own (`ast`) and
emits MLIR as plain data (`ir`) in the `func`, `arith`, `cf` and `llvm`
dialects:

- `codegen` is the main generator: every top-level function becomes a
  `func.func` over `i64`, the other top-level statements form `main`,
  `console.log` prints through `printf`, and (with `emit`) `if` statements
  become conditional branches between blocks. `codegen_spec` states what it
  emits; `semantics` states what source and MLIR mean; `laws`,
  `blocks` and `stmt_laws` prove that the emitted functions compute what
  the source computes.
- `basic` is the first generator, which compiles only the `return`
  statements of top-level functions (`basic_laws`).
- `visitor` is the generator organised as one handler per kind of node,
  stated against `visit_spec`.
- `parser` reads source text with swc.

The program (`app/`) reads a file, converts swc's tree to the library's,
runs a generator, and hands the result to melior to lower, verify and link.
