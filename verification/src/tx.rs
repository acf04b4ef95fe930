//! Transfers from memory to a device.
use core::marker::PhantomData;

use vstd::layout;
use vstd::prelude::*;

use crate::buffer;
use crate::buffer::Borrows;
use crate::bus::Access;
use crate::error::Error;
use crate::probe::{Probe, ProbeView};
use crate::regs::Register;
use crate::rx;
use crate::submission;
use crate::submission::{Core, Starting, Stopping};

verus! {

/// A core that transfers data from memory to a device, repeating it in hardware (like the DAC
/// DMA).
pub struct TxDmac {
    core: Core,
}

impl View for TxDmac {
    type V = Core;

    closed spec fn view(&self) -> Core {
        self.core
    }
}

/// What a core with these capabilities is as a core that repeats transfers from memory.
pub open spec fn tx_core(probe: ProbeView) -> Result<Core, Error> {
    if !probe.dest_mem_mapped && probe.src_mem_mapped && probe.hw_cyclic {
        Ok(Core { max_length: probe.max_length, width: probe.width_src })
    } else if !probe.dest_mem_mapped && !probe.src_mem_mapped {
        Err(Error::UnsupportedInterfaces)
    } else {
        Err(Error::WrongCore)
    }
}

/// A core is driven in the direction that it has: no core is one for both directions, and one
/// without any memory mapped interface is refused alike.
pub proof fn law_one_direction(probe: ProbeView)
    ensures
        !(rx::rx_core(probe) is Ok && tx_core(probe) is Ok),
        rx::rx_core(probe) == Err::<Core, Error>(Error::UnsupportedInterfaces) <==> tx_core(probe)
            == Err::<Core, Error>(Error::UnsupportedInterfaces),
{
}

/// A driver that is made from a probe has the longest transfer that was probed, and the width of
/// the side of the core that is memory mapped. There is one for transfers into memory exactly if
/// only the destination is memory mapped, and one for transfers from memory exactly if only the
/// source is and the core repeats transfers. A core without memory is not supported, and every
/// other one is the wrong one.
pub proof fn law_driver_is_the_probed_core(probe: ProbeView)
    ensures
        rx::rx_core(probe) is Ok <==> probe.dest_mem_mapped && !probe.src_mem_mapped,
        rx::rx_core(probe) matches Ok(core) ==> core.max_length == probe.max_length && core.width
            == probe.width_dest,
        tx_core(probe) is Ok <==> probe.src_mem_mapped && !probe.dest_mem_mapped && probe.hw_cyclic,
        tx_core(probe) matches Ok(core) ==> core.max_length == probe.max_length && core.width
            == probe.width_src,
        rx::rx_core(probe) == Err::<Core, Error>(Error::UnsupportedInterfaces)
            <==> !probe.dest_mem_mapped && !probe.src_mem_mapped,
        tx_core(probe) == Err::<Core, Error>(Error::UnsupportedInterfaces)
            <==> !probe.dest_mem_mapped && !probe.src_mem_mapped,
        rx::rx_core(probe) matches Err(e) ==> e is UnsupportedInterfaces || e is WrongCore,
        tx_core(probe) matches Err(e) ==> e is UnsupportedInterfaces || e is WrongCore,
{
}

impl TxDmac {
    #[verifier::type_invariant]
    spec fn wf(self) -> bool {
        self.core.wf()
    }

    /// The driver for a core with these capabilities. Fails if the core doesn't send data from
    /// memory to a device, or can't repeat transfers in hardware.
    pub fn from_probe(probe: Probe) -> (r: Result<Self, Error>)
        ensures
            match tx_core(probe@) {
                Ok(core) => r matches Ok(dmac) && dmac@ == core,
                Err(e) => r matches Err(x) && x == e,
            },
            r is Ok <==> probe@.src_mem_mapped && !probe@.dest_mem_mapped && probe@.hw_cyclic,
            r matches Ok(dmac) ==> dmac@.max_length == probe@.max_length && dmac@.width
                == probe@.width_src,
            r matches Err(e) ==> e == if probe@.dest_mem_mapped || probe@.src_mem_mapped {
                Error::WrongCore
            } else {
                Error::UnsupportedInterfaces
            },
    {
        let (max_length, width) = (probe.max_length(), probe.width_src());
        match (probe.dest_mem_mapped(), probe.src_mem_mapped()) {
            (false, true) if probe.hw_cyclic() => Ok(TxDmac { core: Core { max_length, width } }),
            (false, false) => Err(Error::UnsupportedInterfaces),
            _ => Err(Error::WrongCore),
        }
    }

    /// The longest transfer in bytes.
    pub fn max_transfer_bytes(&self) -> (r: u64)
        ensures
            r == self@.max_bytes(),
            r == self@.max_length + 1,
    {
        self.core.max_length as u64 + 1
    }

    /// Starts sending `buffer` to the device over and over. The buffer is borrowed until the
    /// transfer is stopped.
    pub fn start_cyclic<'a, T: Copy>(&'a mut self, buffer: &'a [T]) -> (r: Result<
        Starting<CyclicTransfer<'a>>,
        Error,
    >)
        ensures
            *final(self) == *old(self),
            submission::taken_whole::<T, Starting<CyclicTransfer<'a>>>(
                old(self)@,
                buffer@.len(),
                false,
                true,
                r,
            ),
            ({
                let size = buffer@.len() * layout::size_of::<T>();
                let fits = 1 <= size <= old(self)@.max_length + 1;
                &&& !fits ==> r is Err && r->Err_0 == Error::InvalidLength
                &&& fits && r is Err ==> r->Err_0 == Error::Misaligned
                &&& fits && layout::align_of::<T>() as int % old(self)@.width as int == 0 ==> r
                    is Ok
                &&& r matches Ok(s) ==> {
                    &&& s@.request.x_length + 1 == size
                    &&& s@.request.address as int % old(self)@.width as int == 0
                    &&& !s@.request.to_memory
                    &&& s@.request.cyclic
                    &&& s@.trace.len() == 0
                }
            }),
    {
        proof {
            use_type_invariant(&*self);
        }
        let transfer = CyclicTransfer { core: self.core, borrow: PhantomData };
        Starting::new(&self.core, buffer::address_of(buffer), false, true, transfer)
    }
}

/// A running cyclic transfer to a device. It borrows the buffer, but dropping it does not stop the
/// core: the caller has to [stop](CyclicTransfer::stop) it and to perform the access.
#[must_use]
pub struct CyclicTransfer<'a> {
    core: Core,
    borrow: PhantomData<&'a [u8]>,
}

impl<'a> Borrows<'a> for CyclicTransfer<'a> {

}

impl<'a> CyclicTransfer<'a> {
    /// Stops the transfer, which stops the core and then releases the buffer. The buffer stays
    /// borrowed until the access that stops the core was performed.
    pub fn stop(self) -> (r: Stopping<'a>)
        ensures
            r@ == submission::disabling(),
            r@ == Access::Write(Register::Control, 0),
    {
        Stopping::new(self.core)
    }
}

} // verus!
