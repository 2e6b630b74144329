# vm_core

A byte-code machine whose program memory is scrambled by a clock-derived key,
verified with Verus.

- `src/opcode.rs`: the nineteen operations and their one-byte codes.
- `src/ram.rs`: program memory; the logical address `pc` lives in the
  physical cell `pc ^ key`.
- `src/ops.rs`: what each operation does to the program counter, memory and
  stack, as spec functions and as the executable operations.
- `src/machine.rs`: the machine, its fetch/execute step, the function table,
  the timing guards that scramble memory, and the machine dump.
- `src/debugger.rs`: debugger commands (step, continue to a breakpoint,
  breakpoints, code listing).
- `src/secure.rs`: the `zeroize` wrappers that wipe memory and keys on drop,
  behind small trusted functions.
- `src/text.rs`: decimal rendering and input-line handling.
- `app/lib.rs`: drivers that read the clocks, print, read input lines, exit
  and loop.

The library never reads a clock or a terminal itself: time is an argument,
text comes back as bytes, and an operation that needs input or ends the
process says so in its result.

A turn of the run loop reads the clock three times: at the fetch, as the
operation starts, and once its text is written, when `settle` scrambles the
memory if more than a second has passed since the fetch.
