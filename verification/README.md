# monkey_vm

A stack virtual machine for the bytecode of the Monkey language, verified with Verus.

- `src/code.rs`: op codes, operands, bytecode.
- `src/object.rs`: the values of the language, hash keys and evaluation errors.
- `src/ast.rs`, `src/text.rs`: operators and numbers as they appear in error messages.
- `src/vm/machine.rs`: the mathematical machine. Its state, what each operation does to it, and
  what a run of some number of steps comes to.
- `src/vm/mod.rs`: the executable machine `Vm`. Each operation is proved to do what the
  mathematical machine does.
- `src/vm/checked.rs`: `Vm::run_within`, a run of at most a given number of steps that can be
  called on every program.
- `src/vm/laws.rs`: what holds of whole runs: the invariant, what no run changes, how calls
  return, how bindings, arrays and hashes read back.

`Vm::run` is for programs that come to an end. A program can also run forever, and it can come to
an instruction that has no result, such as a division by zero or an operand that is cut off; the
precondition of `run` leaves both out.

Global bindings outlive a machine: `Vm::into_globals` hands them on and
`Vm::new_with_globals_store` takes them over.
