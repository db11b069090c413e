# quasm

The front end of the quasm language, verified with Verus: a lexer, a
recursive descent parser, a two-pass semantic checker, the intermediate
representation and the start of a WebAssembly back end.

Each stage is stated as mathematical functions and the executable code is
proved to compute exactly them:

- `src/lexer`: the token grammar (`scan`, `lex_good`, `lex_bad`) and `lex`.
- `src/common/span.rs`: line/column positions (`LineMap`) and spans.
- `src/parser`: the grammar (`parser/grammar.rs`) and the parser proved
  against it; the syntax tree and its mathematical form (`parser/ast.rs`).
- `src/sema`: types (`ty.rs`), the symbol table (`symbols.rs`), the checking
  rules (`rules.rs`), the checker (`mod.rs`), the typed tree (`tast.rs`) and
  the programs on which the checker is sure to return (`finish.rs`), and
  why the order of top-level statements does not decide success (`order.rs`).
- `src/lower/ir.rs`: the intermediate representation.
- `src/codegen`: function signatures of the type section, each added once.

Tokens are those of the language's lexer rules: `=>` is `Arrow`, the arrow
before a return type (`func f(x: Int) => Int`, `func(Int) => Bool`); `||` is
two `VerBar` tokens and `Or` is the keyword `or`. The parser also names `FatArrow`, `LBracket`, `RBracket`, `Dot`,
`DotDot` and `Elif`, which no text lexes as, so the forms that need them
(match arms, closures, array types and literals, rest
patterns, `elif`) are not reached from source text; `[`, `]` and `.` are
reported as input that forms no token, and `elif` is an identifier.

`app/main.rs` is the command line driver: it reads a file, runs the stages
and prints the first errors; `--debug` writes the tokens, the tree and the
typed tree under `build/`.
