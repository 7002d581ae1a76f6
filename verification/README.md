# arbores

A Scheme interpreter core, verified with Verus: a table-driven lexer, a
parser to S-expressions with source spans, printers for S-expressions,
variable environments, and an evaluator with the special forms `quote`,
`if`, `define`, `set!`, `lambda`, `let`, `begin`, `and`, `or` and `cond`
and the list and type-predicate built-ins.

## Layout

- `src/text.rs` — character sequences, decimal text, string helpers.
- `src/lexer/` — tokens and spans (`types`), character classes (`chars`),
  number literals (`number`), token emitters (`rules`), the state machine of
  the language (`machine`), the lexing engine (`engine`), the coverage law
  (`coverage`) and error descriptions (`describe`).
- `src/parser/` — S-expressions (`types`), the recursive-descent parser
  (`engine`), list builders (`utils`), source rebuilding (`source`),
  compact and annotated printing (`display`), messages (`messages`).
- `src/evaluator/` — argument counts, shared strings, evaluation errors and
  persistent environments.
- `src/environment/` — binding tables and the numbered environment manager.
- `src/eval/` — values (`value`), the list built-ins and type predicates
  (`builtins`), and the evaluation machine (`machine`), which steps through
  an evaluation and stops when an arithmetic built-in is applied.
- `app/` — the demonstration program: printing, the loop that runs the
  evaluation machine and answers its arithmetic requests (integer and
  floating-point arithmetic), float conversion, and a shared handle over
  the environment manager.

Every function in `src/` carries a contract; Verus checks all of them but
those of a few small wrappers around standard-library calls (string and
vector lengths, `char::is_alphabetic`, `Rc::clone`, `Rc::ptr_eq`), whose
contracts restate the standard library's documentation. The laws
(lexing covers its input, parsing consumes only tokens, escaping and
unescaping are inverse, lookups see definitions and assignments, …) are
public proof functions beside the code they speak of.
