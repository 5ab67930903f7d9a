# vyn

Vyn is a statically typed language that compiles to a register bytecode and
runs on a virtual machine. This crate holds its pipeline, verified with Verus:

- `lexer`, `tokens`: source text to tokens, specified token by token
  (`spec_next`, `spec_tokens`).
- `parser`, `ast`, `precedence`: a Pratt parser over the tokens.
- `static_evaluator`: values of `static` declarations, known before type
  checking; float arithmetic is handed to the caller.
- `type_checker`: expression types (`expr_type`) and statement checks
  (`stmt_eval`, `stmts_eval`), with scoped symbol tables.
- `ir`, `ir_symbols`, `ir_builder`: the intermediate representation.
- `register_allocator`, `compiler`, `compiler_symbols`: IR to bytecode,
  instruction by instruction (`compiled_chunks`), jump targets written in
  afterwards (`jumps_patched`); compiled bytecode always decodes
  (`decodes_from`). Jump targets are written little-endian, every other
  operand big-endian.
- `bytecode`, `debug_info`, `disassembler`: the instruction encoding, the
  run-length map from offsets to source spans, and decoding.
- `vm`, `vm_messages`: the register machine, one step at a time
  (`spec_step`, `spec_run`), and the text its errors are reported with.
- `errors`, `hydor_error`, `messages`, `text`: error values and the text
  they are reported with.
- `pipeline`, `cli`, `progress`: the phases in order, and what the command
  line needs to decide.

`app/` is the command line: argument parsing, files, colored output,
progress display and float arithmetic. `tests/` exercises the library.
