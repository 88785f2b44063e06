# dcc_decoder

The logic of a DCC (Digital Command Control) decoder for model locomotives, verified with Verus,
and firmware for the RP2040 around it.

- `src/` is the library. Every function has a contract, which Verus proves from the function's
  body; the few functions that only call `heapless` or the standard library have contracts that
  are taken on trust (see below).
  - `transport`: frames from the receiver, checksums, packets and the instructions in them
  - `cv`: configuration variables, the store that keeps them, typed access to it
  - `handler`: what a packet comes to, in service mode and in operation; `handler::laws` holds
    what is true of several packets in a row
  - `dispatch`: what happens to the operations that packets ask for
  - `motor`: acceleration, speed table, startup, gain scheduling, back-EMF measurement, and the
    decisions of the motor tasks
  - `functions`: the outputs that functions switch
  - `math`, `timing`, `memory_layout`: helpers
- `tests/` runs the library.
- `app/` is the firmware: peripherals, tasks, flash memory, and the floating point PID controller.

Contents of packets live in `heapless::Vec`; what is assumed of it, and of the sort of the standard
library, stands in `src/transport/packet.rs` and `src/motor/emf.rs`. The traits `Store` and `Timer`
are for the user of the library to implement: what is proved of the packet handler holds for
implementations that keep the contracts of their methods.
