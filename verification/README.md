# lc3_tools

An LC-3 processor and the workbench state around it, written in Verus.

- `src/machine.rs` states what the processor is: its state as a mathematical
  value (`CpuState`), what one instruction cycle does to it (`next`), when a
  cycle stays within the machine (`can_step`), and what running ends in
  (`runs_to`), with the laws that the cycle keeps.
- `src/cpu.rs` is the processor itself; `step`, `run` and the rest are proved
  against `machine.rs`.
- `src/isa.rs` and `src/word.rs` hold the instruction fields, two's complement
  words and sign extension.
- `src/program.rs` turns a parsed syntax tree into machine code.
- `src/lc3_app.rs` is what the workbench's controls do: assembling the editor
  text into memory, stepping, running, pausing and resetting.
- `app/` is the egui window that shows the workbench. It expects the
  assembler's scanner and parser in `app/parser/`.
