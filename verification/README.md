# zinc64 (verified 6510 core)

The MOS 6510 CPU of the zinc64 Commodore 64 emulator, written in Verus and
proved against its contracts, with the command-line option handling of the
front end.

Layout of `src/`:

- `flags.rs` – the status-register flags and how a flag is set and tested.
- `alu.rs` – the arithmetic the instructions perform (ADC, SBC in binary and
  decimal mode, compares, shifts and rotates), as specifications, with the
  bit-level facts that tie the executable code to them.
- `memory.rs` – the `MemoryController` trait the CPU reads and writes through,
  and `Ram`, 64 KiB of plain memory.
- `io.rs` – the on-chip I/O port and the IRQ/NMI lines.
- `operand.rs` – addressing modes: effective address, read, write.
- `instruction.rs` – the instruction set: what each instruction does to the
  registers and which bus writes it makes, the opcode encoding and the decoder.
- `cpu.rs` – `Cpu6510`: bus access, stack, interrupts, `execute`, `step`,
  `reset`, with a ghost count of the bus cycles (calls of the tick function)
  that each operation takes.
- `laws.rs` – properties that span several operations (push then pop, JSR then
  RTS, an interrupt then RTI, decimal arithmetic on BCD operands, ...).
- `cli.rs` – the front end's options: the option table, reading a command
  line with `getopts`, the help text, and the rules that turn the values into
  settings (defaults, numbers, names).

`app/main.rs` is the program: it hands the command line to `cli.rs`, prints
the help or version text, loads a binary into RAM and runs the CPU.
