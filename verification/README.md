# macuru

Macros for algebraic data types (`adt!`) and monadic blocks (`mdo!`), as a
verified library.

- `src/tokens.rs`, `src/grammar.rs`: the flat token model, rendering tokens
  as source text, reading single tokens and groups, the parse errors.
- `src/syntax.rs`: the calls into `proc-macro2` (tokenizing) and `syn`
  (generic parameters, `where` clauses, trait methods, signatures,
  expressions, identifiers), each with a named result.
- `src/adt.rs`: the `adt!` grammar, with its specification and laws.
- `src/expand.rs`: the expansion of a definition (enum, conversions, trait
  and dispatching implementation), with `Self` replaced in return types by
  the enum's type. The enum keeps the generic parameters that its element
  types name; the trait keeps its own, and its implementation carries the
  enum's parameters and the trait's `where` clause. Each arm binds the
  element to `x`, or to `x__` (the name that parameters may not take) where
  a parameter's pattern uses `x`.
- `src/mdo.rs`: the `mdo!` grammar.
- `src/monad.rs`: `unit`, `bind` and `filter` for `Option`, `Result` and
  `Vec`, with the monad laws over their models and over what `vec_bind`
  returns.
- `src/examples/`: the example data types, written as `adt!` expands them.
- `app/`: the macro entry points over `proc_macro2` token streams, the
  `MonadLike` trait, and the example programs.

The calls into `proc-macro2` and `syn` switch `proc-macro2` to its own
tokenizer and printer first, so that what they give depends on the text
alone, inside a procedural macro as outside one.
