# emu6502

A 65C02 emulator core with the peripherals of a small C64-like machine,
written in Verus: every function of the library carries a contract that
Verus proves. The library reads no clock: the CIA takes each time-of-day
reading as an argument (`Cia1::new_with_time`, `Cia1::step_with_time`), and
`app/` reads the host's local time with `chrono` and converts it with the
verified `time_registers`.

- `src/cpu6502`: the CPU registers and flags (`cpu`), the memory bus with
  its mapped devices (`memory`), the instruction decoder, the addressing
  modes with their operand fetching and parsing, the instruction semantics
  and the disassembler (`model`), the clock step (`step`), and the ACIA that
  the Wozmon monitor talks to (`acia`).
- `src/video`: the VIC-II control registers (`control`), the CIA1 timers,
  keyboard matrix and time-of-day clock (`cia1`), the host keys on the
  keyboard matrix (`keyboard`), and the drawing of the screen into an RGBA
  frame.
- `src/heap.rs`: a first-fit allocator with a free list over a 64K arena.
- `app/`: the command line (Wozmon on a terminal, the C64 in a window, a
  disassembler, a heap exercise) and the host clock.
- `tests/`: tests of the library.

Before each call whose precondition concerns the machine, `app/` can ask
the library: `Memory::can_load`, `can_store` and `peek` answer for one
address, `Memory::accepts_every_access` for the whole map, and
`CPU::ready_to_step` for the next clock step; on a map that accepts every
access, `CPU::step_checked` takes only steps that are sure to succeed.

The instruction semantics are stated as spec functions over `Mach` (CPU
state, memory state and an `ok` flag); the proof functions next to them
state what holds across instructions, such as JSR followed by RTS, BRK or
an interrupt followed by RTI, pushes followed by pulls, and that an
instruction lasts as many clock steps as its cycle count. The heap's
contracts describe the arena as a sequence of blocks; its proof functions
state that freeing what `malloc` just returned undoes it, and that freeing
every pointer in use, in any order, leaves the arena as new.
