# ofan

The front end of a compiler for Ofan, a small systems language: a lexer, a
recursive-descent parser and a type checker, written in Verus. Each function
carries a contract that Verus proves; how much a contract pins down varies
(see below).

## Layout

- `src/lexer/` — source text to tokens with byte spans. `scan.rs` states
  what lexing a whole text yields (`lexes_from`, `fails_from`), one scan at a
  time; `Lexer::lex` is proved to produce exactly that.
- `src/ast/` — the syntax tree, with the well-formedness of blocks stated over
  the whole tree.
- `src/parser/` — tokens to the syntax tree. The contracts state where the
  cursor may move and the shape of the errors; the trees they fix are those
  of the simplest token shapes (literals, names, empty items). No grammar of
  the whole language is stated.
- `src/typechecker/` — type inference over the tree: scopes (`env.rs`), the
  typing rules of operators, calls, methods, fields, patterns and
  `match` exhaustiveness (`infer/`), and the diagnostics (`error.rs`). The
  rules are exact where operands are names and literals, and relate a
  computed operand, argument, condition or receiver to what inferring it
  yields. For programs made of functions with primitive signatures whose
  bodies are `let` and expression statements and a value, `infer` is stated
  end to end (`plain_program_outcome`).
- `src/codegen/` — the error type of code generation, and the two facts it
  reads off the checked tree (where a statement starts, which struct a typed
  receiver names).
- `src/text.rs` — text helpers (decimal digits, comparison), resting on one
  trusted wrapper around `String::push`.
- `app/` — the command-line driver (`check`, `build`, `run`), unverified.
- `tests/` — tests of every phase and of the stated laws on concrete inputs.

Code generation to LLVM is not part of this crate: the LLVM back end could
not be linked here, so `build` and `run` report that code generation is
unavailable.
