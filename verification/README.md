# jsonnet_evaluator

An evaluator for the jsonnet configuration language, written in Verus: the
semantics of the language is stated as spec functions (`src/spec.rs`), and the
evaluator is proved to compute exactly what they say.

Layout:

- `src/ast.rs` — the syntax tree the evaluator takes.
- `src/val.rs` — values, contexts, objects, errors, and the mathematical values
  (`SVal`, `SFrame`, `SObj`, ...) they stand for.
- `src/num.rs` — numbers. A jsonnet number is a double; the library keeps its
  bits and hands every computation on numbers to a backend that the caller
  supplies (`NumRequest` to `NumAnswer`).
- `src/spec.rs` — the semantics: `eval(nm, f, c, e)` is the outcome of `e` in
  the context `c`, where `nm` is the backend's function and `f` bounds the
  depth of the evaluation.
- `src/context.rs`, `src/ops.rs` — contexts and name lookup; `+`, equality, the
  text of a value, object composition, sorted field names.
- `src/evaluate.rs` — the evaluator, proved to give the outcome the semantics
  gives; where jsonnet's evaluation stops the program (`SError::Panic` in the
  semantics) it gives `Error::Fatal`. The entry points with jsonnet's names
  require that no such point is reached; `try_evaluate` does not.
- `src/depth.rs`, `src/outcome.rs` — the depth bound changes no outcome but
  running out of depth, so each evaluation has an outcome free of the bound;
  the entry points' bound, `MAX_DEPTH`, is 2^64 - 1, and what they give is
  that outcome. How the outcome of an expression follows from its parts'.
- `src/laws.rs`, `src/op_laws.rs` — properties proved of the semantics: name
  lookup after a binding, associativity of `+`, sorted and exact field names,
  symmetry of `==`, operators forcing thunks, `%` and its arguments,
  comprehension clauses.
- `app/lib.rs` — the backend that computes on doubles, and `evaluate_f64`.
- `tests/` — the evaluator run on expressions, with a backend on doubles.
