# tbv

An interpreter for Trygve Bjerkreim, a programming language whose keywords are
phrases from the hymns of Trygve Bjerkrheim, written in Verus and verified.

## Layout

- `src/lexer.rs` turns source text into tokens; `src/grammar.rs` states the grammar
  and `src/parser.rs` parses by it. Both are proved to give exactly what the spec
  functions beside them say.
- `src/semantics.rs` states what every expression and statement does;
  `src/interp.rs` is the tree-walking interpreter, proved to do exactly that.
  `src/value.rs`, `src/scope.rs`, `src/ops.rs`, `src/builtins.rs`, `src/show.rs` and
  `src/strings.rs` hold the values, scopes, operators, built-in functions, printing
  and text handling it uses.
- `src/repl.rs` decides what the interactive session does with each typed line:
  quit, gather more lines, run what parses, or report a syntax error.
- `src/laws.rs` (with parts of `src/scope.rs` and `src/lexer.rs`) prove properties
  that hold for all programs and values.
- `app/main.rs` is the `tbv` command: reading files and lines, printing, and the
  host.

## The host

The interpreter does no input or output and no floating-point arithmetic. When a
program needs either, `Interpreter::run` stops with `Halt::Pending(request)`. The
host carries the request out, appends the answer to the list of answers, and runs
the program again from the state it started in, on a `Tape` holding every answer
so far. A run takes the answers from the tape in order; it stops for a new one only
once it has used them all.
