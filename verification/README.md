# restc

The front end of the compiler for Rest, a small statically typed language for
web services, written in Verus: every function under `src/` carries a contract
that Verus proves.

Pipeline: source bytes → tokens → syntax tree → type check → intermediate
representation (HIR) → borrow check → LLVM code generation.

## Layout

- `src/lexer/` — tokens (`token.rs`), the lexer as spec functions (`spec.rs`)
  and its verified implementation (`lexer.rs`).
- `src/parser/` — the grammar as spec functions (`spec.rs`) and the verified
  recursive-descent parser (`parser.rs`).
- `src/ast.rs`, `src/ty.rs`, `src/ops.rs` — syntax tree, types, operators.
- `src/scope_stack.rs` — lexical scopes, with their laws.
- `src/typeck_spec.rs`, `src/typeck.rs` — the type system and the checker.
- `src/hir.rs`, `src/lower.rs` — the intermediate representation and the
  lowering to it.
- `src/borrowck_spec.rs`, `src/borrowck.rs` — moves and borrows over the HIR.
- `src/ownership.rs` — which variables own heap values in which scope, and
  the order in which generated code releases them.
- `src/emit.rs` — decisions of code generation: emission types, operator and
  cast selection, print formats, routes.
- `src/release.rs` — what generated code releases, retains and copies when
  a value dies, a field or element is overwritten, or a statement ends.
- `src/http.rs` — requests, routes and responses of the server runtime.
- `src/text.rs` — string building with exact contracts.
- `tests/` — tests of the library; `tests/programs.rs` runs whole programs
  through every stage that can refuse them.
- `app/` — the `restc` command, the LLVM code generator (inkwell) and the
  runtime that compiled programs link against.
