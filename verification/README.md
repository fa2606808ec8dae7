# naga (verified subset)

Shader IR validation of single expressions and GLSL text generation, written in
Verus with contracts that state the exact result of each operation.

Layout of `src/`:

- `arena.rs`: typed handles and the arenas they index.
- `ir.rs`: scalar kinds, vector sizes and other small enumerations shared by
  both module representations.
- `valid/`: the module representation that validation reads (`ir.rs`), type
  shape equality (`type_eq.rs`), the validator's records and stage sets
  (`mod.rs`), and expression validation (`expression.rs`).
- `back/`: the module representation that the GLSL backend reads (`ir.rs`) and
  the GLSL text of statements, expressions and types (`glsl_common.rs`).
- `front/glsl_error.rs`: errors of the GLSL front end and their messages.
- `proc.rs`: results of type inference that validation and writing consume.
- `decimal.rs`: decimal text of integers.

Each operation's contract is a spec function that gives its outcome, `None`
marking inputs that are not accepted (a lookup out of range, a construct with
no GLSL form, a self-referencing expression). Writing follows nested types and
expressions with a ghost fuel; the text of a type or expression is what any
sufficient fuel gives, and lemmas show that more fuel never changes it.
Properties that relate several operations are public proof functions beside
them: an expression's text is put together from its operands' texts as each
is written on its own (joined lists for compositions and calls, the type found
for a base indexed by a constant), array types from their element type,
blocks, conditionals, loops and switches from their statements' texts, and
the first failure among the parts of an expression or statement, in written
order, is its failure.

`app/` holds what the library cannot: `Display` and `std::error::Error` for the
error types, the `thiserror` form of validation errors, and the text of
floating-point constants.
