# javagxc

A compiler for JavaGX, a small class-based language with Python-style
indentation, written as a Verus library with a thin command-line driver.

- `src/lexer`: characters to tokens, with `Indent`/`Dedent` tokens for the
  4-space block structure; `indent.rs` proves that they balance, that no
  prefix closes a level it did not open, and that `Eof` comes last and only there.
- `src/parser`: tokens to a syntax tree by recursive descent; `grammar.rs` gives
  the grammar as spec functions, and `assignments.rs` proves that an assignment
  only stands as a statement of its own, with a variable, field or element as
  its target (`targets.rs`).
- `src/sema`: the class table, scopes and type rules (`rules.rs` states them as
  spec functions), and the checker that follows them.
- `src/codegen`: LLVM IR through `inkwell` (`llvm.rs` holds the calls into it, and
  `instr.rs` chooses the instruction for each operator and conversion);
  the type of every generated value follows `typing.rs`, and class layouts put
  inherited fields first (`layout.rs`).
- `app/main.rs`: reads a `.jagx` file, runs the phases, writes an object file
  and links it with `cc`.

The tests in `tests/` run the phases on sample programs and check LLVM's
verdict on the generated modules.
