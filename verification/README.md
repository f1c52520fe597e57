# berg_compiler

The front end of the Berg compiler, verified with Verus: byte scanning,
tokenizing, source positions, the AST and its reconstruction into source
text, the type checker, error codes and messages, and the block state
machine of the evaluator.

Layout:

- `src/` — the verified library, one module per part:
  `scanner`, `tokenizer`, `char_data`, `position_order`, `ast`, `token`,
  `source_reconstruction`, `checker`, `rational`, `block`, `error`,
  `message`, `compile_errors`, `syntax`, `syntax_expression`, `identifiers`,
  `index`, `interner`, `formatting`, `text`, `expect`.
- `tests/` — tests of the library, run with the outside crates linked.
- `app/` — the `berg` command: argument handling, reading the source file
  and printing what the tokenizer found.

Outside crates: `num` (exact rational arithmetic in the checker),
`string-interner` (identifier, literal and whitespace tables), `fnv` (the
checker's property map); `docopt`, `serde` and `env_logger` in `app/`.
