# chip8

A CHIP-8 virtual machine whose interpreter is verified with Verus.

- `src/cpu.rs`: the machine state (memory, registers, stack, timers, frame
  buffer), start-up with the built-in font, program loading, opcode fetch,
  and the timer clock.
- `src/semantics.rs`: what each opcode does to every part of the state, and
  which opcodes the machine accepts in a given state.
- `src/interpreter.rs`: the executable interpreter, proved to follow
  `semantics.rs`; random bytes for `CXNN` come from the `rand` crate.
- `src/screen.rs`: the pixels and keys that a front end draws.
- `src/laws.rs`: properties that relate several operations (calls and
  returns, drawing twice, storing and loading registers, timer accounting).
- `app/main.rs`: a terminal front end built on `console_engine`.
