//! Transfers from a device into memory.
use core::marker::PhantomData;

use vstd::layout;
use vstd::prelude::*;

use crate::buffer;
use crate::buffer::Borrows;
use crate::bus;
use crate::bus::{Access, Exchange, Progress};
use crate::error::Error;
use crate::probe::{Probe, ProbeView};
use crate::regs::fields;
use crate::regs::fields::Irq;
use crate::regs::Register;
use crate::submission;
use crate::submission::{Core, Starting, Stopping};

verus! {

/// A core that transfers data from a device into memory (like the ADC DMA).
pub struct RxDmac {
    core: Core,
}

impl View for RxDmac {
    type V = Core;

    closed spec fn view(&self) -> Core {
        self.core
    }
}

/// What a core with these capabilities is as a core that transfers data into memory.
pub open spec fn rx_core(probe: ProbeView) -> Result<Core, Error> {
    if probe.dest_mem_mapped && !probe.src_mem_mapped {
        Ok(Core { max_length: probe.max_length, width: probe.width_dest })
    } else if !probe.dest_mem_mapped && !probe.src_mem_mapped {
        Err(Error::UnsupportedInterfaces)
    } else {
        Err(Error::WrongCore)
    }
}

impl RxDmac {
    #[verifier::type_invariant]
    spec fn wf(self) -> bool {
        self.core.wf()
    }

    /// The driver for a core with these capabilities. Fails if the core doesn't send data from a
    /// device to memory.
    pub fn from_probe(probe: Probe) -> (r: Result<Self, Error>)
        ensures
            match rx_core(probe@) {
                Ok(core) => r matches Ok(dmac) && dmac@ == core,
                Err(e) => r matches Err(x) && x == e,
            },
            r is Ok <==> probe@.dest_mem_mapped && !probe@.src_mem_mapped,
            r matches Ok(dmac) ==> dmac@.max_length == probe@.max_length && dmac@.width
                == probe@.width_dest,
            r matches Err(e) ==> e == if probe@.dest_mem_mapped || probe@.src_mem_mapped {
                Error::WrongCore
            } else {
                Error::UnsupportedInterfaces
            },
    {
        let (max_length, width) = (probe.max_length(), probe.width_dest());
        match (probe.dest_mem_mapped(), probe.src_mem_mapped()) {
            (true, false) => Ok(RxDmac { core: Core { max_length, width } }),
            (false, false) => Err(Error::UnsupportedInterfaces),
            _ => Err(Error::WrongCore),
        }
    }

    /// The longest transfer in bytes.
    pub fn max_transfer_bytes(&self) -> (r: u64)
        ensures
            r == self@.max_bytes(),
            r == self@.max_length + 1,
    {
        self.core.max_length as u64 + 1
    }

    /// Starts a transfer that fills `buffer` from the device. The buffer is borrowed until the
    /// transfer is finished or given up. Nothing is said of what the device leaves in it until
    /// then. A buffer that is refused keeps its elements.
    pub fn start<'a, T: Copy>(&'a mut self, buffer: &'a mut [T]) -> (r: Result<
        Starting<RxTransfer<'a>>,
        Error,
    >)
        ensures
            *final(self) == *old(self),
            submission::taken_whole::<T, Starting<RxTransfer<'a>>>(
                old(self)@,
                old(buffer)@.len(),
                true,
                false,
                r,
            ),
            ({
                let size = old(buffer)@.len() * layout::size_of::<T>();
                let fits = 1 <= size <= old(self)@.max_length + 1;
                &&& !fits ==> r is Err && r->Err_0 == Error::InvalidLength
                &&& fits && r is Err ==> r->Err_0 == Error::Misaligned
                &&& fits && layout::align_of::<T>() as int % old(self)@.width as int == 0 ==> r
                    is Ok
                &&& r matches Ok(s) ==> {
                    &&& s@.request.x_length + 1 == size
                    &&& s@.request.address as int % old(self)@.width as int == 0
                    &&& s@.request.to_memory
                    &&& !s@.request.cyclic
                    &&& s@.trace.len() == 0
                }
            }),
            final(buffer)@.len() == old(buffer)@.len(),
            // A refused buffer is given back as it was
            r is Err ==> final(buffer)@ == old(buffer)@,
    {
        proof {
            use_type_invariant(&*self);
        }
        let transfer = RxTransfer { core: self.core, borrow: PhantomData };
        Starting::new(&self.core, buffer::address_of(buffer), true, false, transfer)
    }
}

/// A running transfer from a device into a buffer. It borrows the buffer, but dropping it does not
/// stop the core: unless the transfer is finished, the caller has to [abort](RxTransfer::abort) it
/// and to perform the access.
#[must_use]
pub struct RxTransfer<'a> {
    core: Core,
    borrow: PhantomData<&'a mut [u8]>,
}

impl<'a> Borrows<'a> for RxTransfer<'a> {

}

/// Whether the interrupt sources report the start and the end of a transfer.
pub open spec fn finished(source: u32) -> bool {
    fields::bit(source, 0) && fields::bit(source, 1)
}

/// A transfer is finished exactly if both of the lowest bits are set.
pub proof fn law_finished(source: u32)
    ensures
        finished(source) <==> source % 4 == 3,
{
    fields::law_bit_is_a_binary_digit(source);
}

impl<'a> RxTransfer<'a> {
    /// Whether the core reported the start and the end of the transfer, given the value of the
    /// interrupt source register.
    pub fn is_finished(&self, source: Irq) -> (r: bool)
        ensures
            r == finished(source@),
            r == (source@ % 4 == 3),
    {
        proof {
            law_finished(source@);
        }
        source.start_of_transfer() && source.end_of_transfer()
    }

    /// Ends the transfer if it is finished, which completes the buffer. Otherwise the transfer
    /// is given back to try again.
    pub fn try_finish(self) -> (r: Finishing<'a>)
        ensures
            r@.trace.len() == 0,
            r@.running(),
            r.transfer() == self,
    {
        let trace: Ghost<Seq<Exchange>> = Ghost(Seq::empty());
        proof {
            law_finishing_stays_on_program(FinishingView { trace: trace@ }, 0);
        }
        Finishing { transfer: self, stage: Stage::Check, source: 0, trace }
    }

    /// Gives the transfer up before it is finished, which stops the core. The buffer stays
    /// borrowed until the access that stops the core was performed.
    pub fn abort(self) -> (r: Stopping<'a>)
        ensures
            r@ == submission::disabling(),
            r@ == Access::Write(Register::Control, 0),
    {
        Stopping::new(self.core)
    }
}

/// All accesses that end a transfer, given the two values that are read from the interrupt source
/// register. The first one tells whether the transfer is finished, and the second one is
/// acknowledged.
pub open spec fn finishing(first: u32, second: u32) -> Seq<Access> {
    if finished(first) {
        seq![
            Access::Read(Register::IrqSource),
            Access::Read(Register::IrqSource),
            Access::Write(Register::IrqPending, second),
        ]
    } else {
        seq![Access::Read(Register::IrqSource)]
    }
}

/// The end of a transfer: the accesses that were performed so far.
pub struct FinishingView {
    pub trace: Seq<Exchange>,
}

impl FinishingView {
    /// All accesses that end the transfer, as far as the values that were read tell. Before the
    /// first read, that read is the only one that is certain.
    pub open spec fn program(self) -> Seq<Access> {
        finishing(bus::reply_at(self.trace, 0), bus::reply_at(self.trace, 1))
    }

    /// Whether the accesses that were performed are those of the program, up to here.
    pub open spec fn on_program(self) -> bool {
        &&& self.trace.len() <= self.program().len()
        &&& bus::accesses(self.trace) == self.program().take(self.trace.len() as int)
    }

    /// Whether there are accesses left, and those that were performed are as they should be.
    pub open spec fn running(self) -> bool {
        &&& self.on_program()
        &&& self.trace.len() < self.program().len()
    }

    /// The access that comes next.
    pub open spec fn next(self) -> Access {
        self.program()[self.trace.len() as int]
    }

    /// The end of the transfer after its next access.
    pub open spec fn after(self, reply: u32) -> FinishingView {
        FinishingView { trace: self.trace.push(Exchange { access: self.next(), reply }) }
    }

    /// What follows from the reply to the next access: at last, whether the transfer was
    /// finished.
    pub open spec fn step(self, reply: u32) -> Progress<FinishingView, bool> {
        let after = self.after(reply);
        if after.trace.len() < after.program().len() {
            Progress::Pending(after)
        } else {
            Progress::Done(finished(bus::reply_at(after.trace, 0)))
        }
    }
}

/// Ending a transfer performs the accesses of its program, in order and without any other. This
/// holds from the start, and every step keeps it. When it is over, all of them were performed,
/// which are three at most.
pub proof fn law_finishing_stays_on_program(finishing: FinishingView, reply: u32)
    ensures
        finishing.program().len() <= 3,
        finishing.trace.len() == 0 ==> finishing.on_program(),
        finishing.on_program() && finishing.trace.len() < finishing.program().len()
            ==> finishing.after(reply).on_program(),
        finishing.on_program() && finishing.trace.len() < finishing.program().len()
            && finishing.step(reply) is Done ==> bus::accesses(finishing.after(reply).trace)
            == finishing.after(reply).program(),
{
    let after = finishing.after(reply);
    let n = finishing.trace.len() as int;
    if finishing.on_program() && n < finishing.program().len() {
        assert forall|i: int| 0 <= i <= n implies bus::accesses(after.trace)[i]
            == after.program()[i] by {
            if i < n {
                assert(bus::accesses(finishing.trace)[i] == finishing.program().take(n)[i]);
            }
        }
        assert(bus::accesses(after.trace) =~= after.program().take(n + 1));
        if finishing.step(reply) is Done {
            assert(after.program().take(n + 1) =~= after.program());
        }
    } else if n == 0 {
        assert(bus::accesses(finishing.trace) =~= finishing.program().take(0));
    }
}

/// Ending a transfer succeeds exactly if the first value that was read from the interrupt sources
/// reports both the start and the end, whatever the later replies are. It then has read the sources
/// again and acknowledged what was read, and nothing else. Otherwise that one read is all. Each
/// access is recorded with its reply.
pub proof fn law_finishing_ends(finishing: FinishingView, reply: u32)
    requires
        finishing.running(),
    ensures
        finishing.after(reply).trace == finishing.trace.push(
            Exchange { access: finishing.next(), reply },
        ),
        finishing.step(reply) is Done || finishing.step(reply) == Progress::<
            FinishingView,
            bool,
        >::Pending(finishing.after(reply)),
        finishing.step(reply) is Pending <==> finishing.next() == Access::Read(Register::IrqSource)
            && finishing.after(reply).trace[0].reply % 4 == 3,
        finishing.step(reply) matches Progress::Done(ok) ==> {
            let trace = finishing.after(reply).trace;
            &&& ok <==> trace[0].reply % 4 == 3
            &&& trace[0].access == Access::Read(Register::IrqSource)
            &&& if ok {
                &&& trace.len() == 3
                &&& trace[1].access == Access::Read(Register::IrqSource)
                &&& trace[2].access == Access::Write(Register::IrqPending, trace[1].reply)
            } else {
                trace.len() == 1
            }
        },
{
    law_finishing_stays_on_program(finishing, reply);
    let after = finishing.after(reply);
    let all = bus::accesses(after.trace);
    law_finished(after.trace[0].reply);
    assert forall|i: int| 0 <= i < after.trace.len() implies #[trigger] after.trace[i].access
        == all[i] by {}
    assert(all == after.program().take(after.trace.len() as int));
}

/// After a write the reply has no effect: ending a transfer gives the same result whatever it is.
pub proof fn law_finishing_ignores_write_replies(finishing: FinishingView, a: u32, b: u32)
    requires
        finishing.running(),
        finishing.next() is Write,
    ensures
        finishing.step(a) == finishing.step(b),
        finishing.step(a) == Progress::<FinishingView, bool>::Done(true),
{
    law_finishing_ends(finishing, a);
    law_finishing_ends(finishing, b);
}

/// A finished transfer is acknowledged with exactly the interrupt sources that were read, none of
/// which is reported afterwards, and the core is left enabled. A transfer that is not finished causes
/// no write at all.
pub proof fn law_finishing_acknowledges(first: u32, second: u32)
    ensures
        finished(first) ==> bus::last_write(finishing(first, second), Register::IrqPending) == Some(
            second,
        ),
        finished(first) ==> bus::latched(second, finishing(first, second)) == 0,
        bus::last_write(finishing(first, second), Register::Control) == None::<u32>,
        !finished(first) ==> forall|register: Register|
            bus::last_write(finishing(first, second), register) == None::<u32>,
{
    let all = finishing(first, second);
    if finished(first) {
        bus::lemma_last_write_at(all, Register::IrqPending, 2);
        bus::lemma_latched_cleared(second, all, 2);
    } else {
        assert forall|register: Register| bus::last_write(all, register) == None::<u32> by {
            bus::lemma_no_last_write(all, register);
        }
    }
    bus::lemma_no_last_write(all, Register::Control);
}

/// The access at the end of a transfer that comes next.
#[derive(Clone, Copy, Debug)]
enum Stage {
    Check,
    ReadSource,
    Acknowledge,
}

/// A transfer that is being ended. It still borrows the buffer. Dropping it neither ends the
/// transfer nor stops the core, so the caller has to perform its accesses to the end.
#[must_use]
pub struct Finishing<'a> {
    transfer: RxTransfer<'a>,
    stage: Stage,
    source: u32,
    trace: Ghost<Seq<Exchange>>,
}

impl<'a> View for Finishing<'a> {
    type V = FinishingView;

    closed spec fn view(&self) -> FinishingView {
        FinishingView { trace: self.trace@ }
    }
}

impl<'a> Finishing<'a> {
    /// The transfer that is being ended.
    pub closed spec fn transfer(self) -> RxTransfer<'a> {
        self.transfer
    }

    /// How many accesses come before this one.
    spec fn place(self) -> int {
        match self.stage {
            Stage::Check => 0,
            Stage::ReadSource => 1,
            Stage::Acknowledge => 2,
        }
    }

    #[verifier::type_invariant]
    spec fn wf(self) -> bool {
        &&& self.trace@.len() == self.place()
        &&& self.trace@.len() < self@.program().len()
        &&& self@.on_program()
        &&& self.source == bus::reply_at(self.trace@, 1)
    }

    /// The access to perform next.
    pub fn access(&self) -> (r: Access)
        ensures
            r == self@.next(),
            self@.running(),
    {
        proof {
            use_type_invariant(self);
        }
        match self.stage {
            Stage::Check => Access::Read(Register::IrqSource),
            Stage::ReadSource => Access::Read(Register::IrqSource),
            Stage::Acknowledge => Access::Write(Register::IrqPending, self.source),
        }
    }

    /// Goes on after the access was performed. `reply` is the value that was read, and has no
    /// effect after a write. A transfer that is not finished is given back.
    pub fn resume(self, reply: u32) -> (r: Progress<Finishing<'a>, Result<(), RxTransfer<'a>>>)
        ensures
            match self@.step(reply) {
                Progress::Pending(v) => r matches Progress::Pending(f) && f@ == v && f.transfer()
                    == self.transfer(),
                Progress::Done(true) => r matches Progress::Done(Ok(())),
                Progress::Done(false) => r matches Progress::Done(Err(t)) && t == self.transfer(),
            },
            self@.running(),
            r matches Progress::Pending(f) ==> f@.running() && f@.trace == self@.trace.push(
                Exchange { access: self@.next(), reply },
            ),
            r matches Progress::Done(x) ==> (x is Ok <==> (if self@.trace.len() == 0 {
                reply
            } else {
                self@.trace[0].reply
            }) % 4 == 3),
    {
        proof {
            use_type_invariant(&self);
            law_finishing_stays_on_program(self@, reply);
            law_finishing_ends(self@, reply);
        }
        let trace: Ghost<Seq<Exchange>> = Ghost(self@.after(reply).trace);
        let Finishing { transfer, stage, .. } = self;
        match stage {
            Stage::Check => if transfer.is_finished(Irq::new_with_raw_value(reply)) {
                Progress::Pending(Finishing { transfer, stage: Stage::ReadSource, source: 0, trace })
            } else {
                Progress::Done(Err(transfer))
            },
            Stage::ReadSource => Progress::Pending(
                Finishing {
                    transfer,
                    stage: Stage::Acknowledge,
                    source: Irq::new_with_raw_value(reply).raw_value(),
                    trace,
                },
            ),
            Stage::Acknowledge => Progress::Done(Ok(())),
        }
    }
}

} // verus!
