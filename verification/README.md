# jingos

A small x86-64 hobby kernel and the host runner that boots it in QEMU, with the
kernel's logic written as a verified Verus library.

- `src/` — the library, verified by Verus: the keyboard scancode decoder, the
  monitor's line editor, command history, completion and command parser, the
  task scheduler, the syscall ABI and dispatcher, the frame allocator and
  page-table walk, the user-mode program builder and session, the framebuffer
  text console, the interrupt counters and scancode queue, and the host runner's
  serial-script reader.
- `tests/` — tests of the library on concrete inputs.
- `app/` — the programs around the library: for the host, the QEMU runner
  (`app/launcher.rs`); for the bare-metal target, the kernel's boot code,
  interrupt stubs, page-table mapping and monitor loop (`app/kernel/`).
