# homework_scheme

A slot device served as a Redox scheme, with the command-line client that
talks to it and the boot loader step that starts the system's init.

The device keeps four machine words. A client selects a slot by truncating
its file to the slot's number (0 to 3), writes one machine word in the
machine's byte order, and reads back the first four bytes of the selected
slot.

## Layout

- `src/` — the verified library (Verus):
  - `protocol.rs`: the scheme protocol's call and error numbers, decoding of
    call numbers, the scheme's error type.
  - `native.rs`: byte encodings of machine words and the trusted calls into
    `std` and `redox_syscall` (`to_ne_bytes`, `from_ne_bytes`, `from_utf8`,
    `Error::mux`, the record types whose sizes the protocol checks).
  - `scheme.rs`: the slot device, its state model and invariant, each
    operation, and the dispatch of a kernel packet (`SlotScheme::handle`).
  - `laws.rs`: properties across calls (a read gives back what a write
    wrote, writes touch only the selected slot, open numbers are fresh, ...).
  - `cli.rs`: what the client's arguments ask for, the bytes it writes, the
    value it shows.
  - `boot.rs`: which environment variables the loader hands to init, the
    room init's arguments need, and the loader's decisions after a fork.
- `app/` — the programs around the library: the driver's event loop, the
  client's file I/O, and the loader's system calls.
- `tests/` — tests of the library.
