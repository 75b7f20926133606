# telecc

A C preprocessor whose logic is verified with Verus.

## Layout

- `src/` is the verified library.
  - `text.rs`: characters, decimal numerals, white space and trimming.
  - `errors.rs`: the error kinds, their codes and their report lines.
  - `structs.rs`: the preprocessor state, the macro table (`TextMap`) and
    the directive types.
  - `parser.rs`: operators, precedences and the tokenizer.
  - `eval.rs`: the tree builder and the evaluator of expressions.
  - `ternary.rs`: expressions with the conditional operator `? :`.
  - `reader.rs`: evaluation of token lists group by group.
  - `preprocessor.rs`: the character scan of lines (comments, directive
    pieces), logical lines and the reading of a whole unit.
  - `directives.rs`: reading a directive from its pieces and carrying it
    out.
  - `arithmetic.rs`, `tools.rs`, `expression.rs`: checked arithmetic, error
    reports with codes in scientific notation, and the shape of C
    expression trees.
- `app/main.rs` is the program: it reads files, answers the library's
  requests and writes the result.
- `tests/` holds the tests.

## How a unit is read

`Unit::new` splits a source text into numbered logical lines. `preprocess`
reads them into `unit.output` until an `#include` line, whose file name it
hands back, or the end of the unit. The caller reads the included file,
preprocesses it with the same state (after `State::new_file`), appends its
text to the output, restores the position and calls `preprocess` again.

The value of a numeric literal is its reading as a 32-bit float, truncated
to an integer. The library does not compute it: when it meets a literal
whose value is not in `state.literal_values`, it stops with
`Failure::LiteralValueNeeded`. The caller then adds the value and runs the
step again from copies of the unit and state taken before it.

Warnings are collected in `state.warnings` for the caller to show.
