# rticx-riscv

The RTICX distribution for RISC-V targets: a generic SLIC interrupt controller
(MECALL or CLINT backend) and the Espressif ESP32-C3 and ESP32-C6.

- `src/` is the verified library (Verus). It takes every decision of the
  distribution: which feature combinations are accepted and which target they
  select (`features`), how used interrupts are bound to the CPU interrupt slots
  that `esp-hal` leaves free and what their handlers are exported as
  (`cpu_interrupts`, `backend`), how tasks are wrapped, which SLIC definitions
  are emitted (`backend`), which dispatchers the ESP32 chips accept
  (`dispatchers`), and the start-up stack check (`stack`). `decimal` renders
  slot and hart numbers.
- `app/` holds the code generation around those decisions (the `app` macro's
  pass backends, written with `syn` and `quote`) and the runtime exports that
  touch the hardware (critical section, stack pointer, linker symbols).
- `tests/` runs the library on concrete inputs.
