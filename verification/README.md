# mech_syntax

The Mech syntax compiler, verified with Verus. It takes a parse tree, builds
a syntax tree from it, and compiles the syntax tree into named blocks of
dataflow constraints.

- `src/` is the verified library. Each pass is stated as a spec function
  over mathematical models (`build` for the syntax tree, `cc`/`ccs` for the
  constraints of a node, `cb`/`cbs` for blocks, `tree_text` for rendering),
  and the executable code is proved to compute exactly that.
- `tests/` runs the library on concrete trees.
- `app/` prints syntax trees to standard output.

The compiler's constraint and block types (`src/constraint.rs`) and its hash
of names (`src/hasher.rs`) take the place of those of the `mech_core` crate,
which is not a dependency: they are stand-ins, and blocks are not planned.
The lexer and parser themselves are not part of this crate; it starts from a
parse tree (`Compiler::compile_parse_tree`).
