//! # ADI AXI DMAC driver
//!
//! The logic of a driver for the
//! [ADI AXI DMAC IP core](https://analogdevicesinc.github.io/hdl/library/axi_dmac/index.html),
//! used for example for the DMAs of the AXI AD9361 IP core. It is not the AMD AXI DMA IP core,
//! there is the `axi-dma` crate for that one.
//!
//! The capabilities of a core are probed once. The result is an [RxDmac] (device to memory) or
//! a [TxDmac] (memory to device, repeating in hardware), so the transfer functions only exist
//! for the direction the core has. A transfer borrows its buffer, and is finished or stopped by
//! its caller.
//!
//! Only transfers that the core handles in one burst are supported. Completion is polled, the
//! interrupts of the core stay masked. The buffers have to be in uncached memory. The addresses
//! of the buffers are used as 32 bit values.
//!
//! The library does not access the registers itself. An operation on the core says which
//! [Access](bus::Access) comes next, and is resumed with the value that was read. What an
//! operation does is stated as the sequence of its accesses, as a function of the values that
//! were read.
//!
//! For the same reason dropping a transfer releases its buffer, but does not stop the core. Who
//! gives a transfer up has to call [RxTransfer::abort] or [CyclicTransfer::stop] and to perform
//! the access, best in a `Drop` of the type that holds the transfer. The buffer stays borrowed
//! until that is done.
pub mod buffer;
pub mod bus;
pub mod error;
pub mod laws;
pub mod probe;
pub mod regs;
pub mod rx;
pub mod submission;
pub mod tx;

pub use error::Error;
pub use rx::{RxDmac, RxTransfer};
pub use tx::{CyclicTransfer, TxDmac};
