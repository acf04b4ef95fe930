# AXI DMAC driver

The verified logic of a driver for the Analog Devices
[AXI DMAC IP core](https://analogdevicesinc.github.io/hdl/library/axi_dmac/index.html), used for
example for the DMAs of the AXI AD9361 IP core. It is not the AMD AXI DMA IP core.

- The capabilities of a core are probed once. The result is a driver for the device to memory
  direction or one for the memory to device direction, so the transfer functions only exist for
  the direction the core has.
- Transfers borrow their buffer. In the library the caller finishes or stops them, and performs
  the access that stops the core: dropping a transfer of the library only releases the buffer. The
  driver in `app/` stops the core when a transfer is dropped.
- What the core reported of an earlier transfer is cleared before the next transfer into memory is
  submitted, so it can not end that one.
- Completion is polled, the interrupts of the core stay masked.
- Cyclic transfers in hardware for the memory to device direction.

## Layout

- `src/` is the library, verified with [Verus](https://github.com/verus-lang/verus). It decides
  which register is accessed next and what follows from the values that were read, and never
  touches a register itself.
  - `regs`: the register map and the fields of the registers.
  - `bus`: register accesses and the traces that contracts speak of.
  - `buffer`: where a buffer lies in memory.
  - `probe`: detecting the capabilities of a core.
  - `submission`: checking a transfer and putting it into the queue of the core.
  - `rx`, `tx`: the drivers of the two directions and their transfers.
  - `laws`: what holds of all operations.
- `app/` is the driver on memory mapped registers. It performs the accesses, and stops the core
  when a transfer is dropped.
- `tests/` runs the library against registers in memory.
