# chipi8

A CHIP-8 interpreter written in Verus.

- `src/machine.rs` — the abstract machine (`MachineView`), instruction
  decoding, and the meaning of every instruction, timer tick and host
  command as spec functions.
- `src/chipi8.rs` — the executable interpreter `Chipi8`; each operation is
  proved to act on its state as `machine.rs` says and to keep the machine
  invariant.
- `src/command.rs` — host commands and the mapping from front-end key events.
- `src/entropy.rs` — the random byte of `Cxkk`, from the `rand` crate.
- `src/laws.rs` — properties spanning several operations (call/return,
  drawing twice, BCD, register store/load, timers, key waits, ...).
- `app/` — the Tauri back end: window setup, the emulation thread, file
  reading and events sent to the front end.
