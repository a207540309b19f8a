# hxcemu

An emulator for the Hack computer (the 16-bit machine of *The Elements of Computing
Systems*), whose core is verified with Verus.

- `src/` is the verified library: the ALU (`alu`), the instruction set with its decoder
  and assembly text (`isa`, `disas`), the CPU (`cpu`), the memories and the program
  loader (`ram`, `rom`), the whole computer (`hack_computer`), and the decisions of the
  user interface and of the emulator loop (`app`, `common`, `emulator`). Each function
  states its result over spec functions; the laws (the ALU function table, decoding
  round trips, the CPU executing each decoded instruction by its meaning, reads after
  writes, what a clock cycle leaves unchanged) are proof functions beside them.
- `app/` is the terminal program: argument parsing, file reading, the emulator thread
  and the terminal user interface.
- `tests/` runs the library on concrete programs and instructions.

Usage: `hxcemu <.hack file> [--tick-ms N]`; keys `r` run, `s` step, `q` quit.
