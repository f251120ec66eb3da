# c2cls

A translator from C into a small class-based intermediate language, written
in Verus.

`app/` reads a C file through the preprocessor with `lang_c`, copies the
syntax tree into the library's own tree (`src/ast.rs`), translates it and
prints the result.

`src/` is the verified library:

- `model.rs` states what every translation step produces, as spec functions
  from a syntax node and a translation state (`state.rs`) to the generated
  text and the next state;
- the translation functions, one per kind of syntax node, spread over
  `leaves.rs`, `specifiers.rs`, `structs.rs`, `declarator_parts.rs`,
  `declarators.rs`, `init_declarators.rs`, `expressions.rs`, `operands.rs`,
  `control.rs`, `statements.rs`, `blocks.rs`, `declarations.rs` and
  `translate.rs`, are each proved to agree with their model function; the
  model functions are opaque, and each of these files also states, as
  `unfold_*` lemmas, one step of the model functions it works with;
- `markers.rs` resolves the markers around function declarations in the
  generated text;
- `text.rs` holds the text helpers (decimal formatting, number parsing,
  replacement), `outside.rs` the calls into `rand`, `regex` and the parts of
  std that vstd does not describe;
- `state.rs` keeps the name sets of the state in `NameSet`, a vector whose
  type invariant is that no name occurs twice, and collects the diagnostics
  about parts of the input that are not translated, which `app/` writes to
  standard error;
- `laws.rs` holds properties that span several calls.
