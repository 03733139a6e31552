# otter_sql code generation

A verified code generator that lowers a SQL statement tree into intermediate
code (IC): a flat list of instructions over numbered registers of a virtual
machine.

- `src/ast.rs`: the statement tree that generation reads. Column types and
  column options are sqlparser's own types; expressions arrive already lowered.
- `src/ic.rs`, `src/vm.rs`, `src/expr.rs`, `src/value.rs`, `src/identifier.rs`:
  instructions, registers, IC expressions, values and names.
- `src/codegen.rs`: `codegen`, whose contract states the exact instruction list
  (or error) for every statement, as spec functions over sequences.
- `src/laws.rs`: properties of all generated code: registers are read only after
  they are written, no two instructions create the same register, only the
  registers that `registers_needed` counts are named, and the code ends with the
  instruction that carries out the statement (a query returns its projection's
  table where it has a projection list).
