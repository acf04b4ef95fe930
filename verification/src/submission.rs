//! Submitting a transfer to the core.
use core::marker::PhantomData;

use vstd::arithmetic::{div_mod, mul};
use vstd::layout;
use vstd::prelude::*;

use crate::buffer;
use crate::buffer::{Borrows, Placed};
use crate::bus;
use crate::bus::{Access, Exchange, Progress};
use crate::error::Error;
use crate::regs::fields;
use crate::regs::fields::{Control, Flags, Irq, StartTransfer};
use crate::regs::Register;

verus! {

/// Whether an interface can have this many bytes per beat: a power of two up to 32768, which is
/// to say a divisor of 32768.
pub open spec fn is_width(width: u32) -> bool {
    width > 0 && 0x8000int % width as int == 0
}

/// What both directions have in common.
#[derive(Clone, Copy, Debug)]
pub struct Core {
    /// Longest transfer in bytes minus one.
    pub max_length: u32,
    /// Bytes per beat of the interface to the memory.
    pub width: u32,
}

/// A transfer that the core can do in one burst.
#[derive(Clone, Copy, Debug, PartialEq, Eq, Structural)]
pub struct Request {
    /// Address of the buffer.
    pub address: u32,
    /// Bytes of the buffer minus one.
    pub x_length: u32,
    /// Whether the core writes to the buffer. Otherwise it reads from it.
    pub to_memory: bool,
    /// Whether the transfer repeats until the core is disabled.
    pub cyclic: bool,
}

impl Core {
    /// Whether the width is one that an interface can have.
    pub open spec fn wf(self) -> bool {
        is_width(self.width)
    }

    /// The longest transfer in bytes.
    pub open spec fn max_bytes(self) -> nat {
        self.max_length as nat + 1
    }

    /// The transfer of `size` bytes at `address`, if the core can do it. The core sees the low
    /// 32 bits of the address.
    pub open spec fn request(
        self,
        address: int,
        size: int,
        to_memory: bool,
        cyclic: bool,
    ) -> Result<Request, Error> {
        let low = address % 0x1_0000_0000;
        if !(1 <= size <= self.max_bytes()) {
            Err(Error::InvalidLength)
        } else if low % self.width as int != 0 {
            Err(Error::Misaligned)
        } else {
            Ok(
                Request {
                    address: low as u32,
                    x_length: (size - 1) as u32,
                    to_memory,
                    cyclic,
                },
            )
        }
    }
}

impl Core {
    /// Submits a transfer of `size` bytes to or from the memory at `address`. A transfer that
    /// the core can not do is refused before any access to the core.
    pub fn submit(&self, address: usize, size: usize, to_memory: bool, cyclic: bool) -> (r: Result<
        Submission,
        Error,
    >)
        requires
            self.width > 0,
        ensures
            taken_as(self.request(address as int, size as int, to_memory, cyclic), r),
            r is Ok <==> 1 <= size <= self.max_length + 1 && (address as int % 0x1_0000_0000)
                % self.width as int == 0,
            r matches Err(e) ==> e == if 1 <= size <= self.max_length + 1 {
                Error::Misaligned
            } else {
                Error::InvalidLength
            },
            r matches Ok(s) ==> {
                &&& s@.request.address as int == address as int % 0x1_0000_0000
                &&& s@.request.x_length + 1 == size
                &&& s@.request.to_memory == to_memory
                &&& s@.request.cyclic == cyclic
                &&& s@.trace.len() == 0
            },
    {
        // The interfaces are 32 bit, the length is held against the core in full
        let low: u32 = #[verifier::truncate]
        (address as u32);
        proof {
            lemma_low_address(address, low);
        }
        if size == 0 || (size - 1) as u64 > self.max_length as u64 {
            return Err(Error::InvalidLength);
        }
        if low % self.width != 0 {
            return Err(Error::Misaligned);
        }
        let request = Request { address: low, x_length: (size - 1) as u32, to_memory, cyclic };
        let trace: Ghost<Seq<Exchange>> = Ghost(Seq::empty());
        proof {
            let start = SubmissionView { request, trace: trace@ };
            law_submission_stays_on_program(start, 0);
        }
        Ok(Submission { request, stage: Stage::Flags, source: 0, trace })
    }

    /// Disables the core, which stops a running transfer. The caller performs the access.
    #[must_use]
    pub fn disable(&self) -> (r: Access)
        ensures
            r == disabling(),
            r == Access::Write(Register::Control, 0),
    {
        Access::Write(Register::Control, Control::default().raw_value())
    }
}

/// The low 32 bits of an address.
proof fn lemma_low_address(address: usize, low: u32)
    requires
        low == address as u32,
    ensures
        low == address as int % 0x1_0000_0000,
{
    let wide: u64 = address as u64;
    assert(wide as u32 == wide % 0x1_0000_0000) by (bit_vector);
    assert(address as u32 == (address as u64) as u32) by (bit_vector);
}

/// An address is as aligned as its low 32 bits.
proof fn lemma_low_address_alignment(address: usize, width: u32)
    requires
        is_width(width),
    ensures
        (address as int % 0x1_0000_0000) % width as int == address as int % width as int,
{
    let times = 0x8000int / width as int;
    let rest = times * 0x2_0000;
    div_mod::lemma_fundamental_div_mod(0x8000, width as int);
    mul::lemma_mul_is_associative(width as int, times, 0x2_0000);
    assert(rest > 0) by {
        if times <= 0 {
            mul::lemma_mul_inequality(times, 0, width as int);
            mul::lemma_mul_is_commutative(times, width as int);
        }
    }
    div_mod::lemma_mod_mod(address as int, width as int, rest);
}

/// Whether a transfer was taken as it was requested: refused with the error, or about to be
/// submitted, with no access to the core yet.
pub open spec fn taken_as<S: View<V = SubmissionView>>(
    request: Result<Request, Error>,
    r: Result<S, Error>,
) -> bool {
    match request {
        Ok(request) => r matches Ok(s) && s@ == (SubmissionView { request, trace: Seq::empty() }),
        Err(e) => r matches Err(x) && x == e,
    }
}

/// Whether a transfer of `len` elements at the address was taken as it was requested.
pub open spec fn taken_at<T, S: View<V = SubmissionView>>(
    core: Core,
    address: usize,
    len: nat,
    to_memory: bool,
    cyclic: bool,
    r: Result<S, Error>,
) -> bool {
    let size = len * layout::size_of::<T>();
    &&& buffer::can_lie_at::<T>(address, len)
    &&& taken_as(core.request(address as int, size as int, to_memory, cyclic), r)
}

/// Whether a transfer of a whole buffer of `len` elements was taken as it was requested, wherever
/// the buffer lies. Where elements are always aligned to the interface, only the length decides.
pub open spec fn taken_whole<T, S: View<V = SubmissionView>>(
    core: Core,
    len: nat,
    to_memory: bool,
    cyclic: bool,
    r: Result<S, Error>,
) -> bool {
    let size = len * layout::size_of::<T>();
    &&& exists|address: usize| #[trigger]
        taken_at::<T, S>(core, address, len, to_memory, cyclic, r)
    &&& layout::align_of::<T>() as int % core.width as int == 0 ==> (r is Ok <==> 1 <= size
        <= core.max_bytes())
}

/// The access that disables the core, which stops a running transfer.
pub open spec fn disabling() -> Access {
    Access::Write(Register::Control, 0)
}

/// The accesses that enable a disabled core and keep its interrupts masked.
pub open spec fn enabling() -> Seq<Access> {
    seq![
        Access::Write(Register::Control, 0),
        Access::Write(Register::Control, 1),
        Access::Write(Register::IrqMask, 3),
    ]
}

/// The accesses that put a transfer into the queue of the core.
pub open spec fn queueing(request: Request) -> Seq<Access> {
    seq![
        Access::Write(
            if request.to_memory {
                Register::DestAddress
            } else {
                Register::SrcAddress
            },
            request.address,
        ),
        Access::Write(
            if request.to_memory {
                Register::DestStride
            } else {
                Register::SrcStride
            },
            0,
        ),
        Access::Write(Register::XLength, request.x_length),
        Access::Write(Register::YLength, 0),
        Access::Write(Register::StartTransfer, 1),
    ]
}

/// The accesses that clear what the core reported of earlier transfers, given the value that is
/// read from the interrupt source register. Only transfers into memory are finished by what the
/// core reports, so only these clear it.
pub open spec fn clearing(request: Request, source: u32) -> Seq<Access> {
    if request.to_memory {
        seq![Access::Read(Register::IrqSource), Access::Write(Register::IrqPending, source)]
    } else {
        seq![]
    }
}

/// All accesses of a submission, given the values that are read from the control register, the
/// transfer submission register and the interrupt source register. A core that is enabled
/// already is left alone, and nothing is put into a full queue. Otherwise a transfer into memory
/// clears the interrupt sources before it is described, so what they report later is of this
/// transfer. A transfer from memory does not touch them, and `source` has no effect.
pub open spec fn submitting(request: Request, control: u32, queue: u32, source: u32) -> Seq<
    Access,
> {
    seq![
        Access::Write(
            Register::Flags,
            if request.cyclic {
                1
            } else {
                0
            },
        ),
        Access::Read(Register::Control),
    ] + (if fields::bit(control, 0) {
        seq![]
    } else {
        enabling()
    }) + seq![Access::Read(Register::StartTransfer)] + (if fields::bit(queue, 0) {
        seq![]
    } else {
        clearing(request, source) + queueing(request)
    })
}

/// A submission: its transfer and the accesses that were performed so far.
pub struct SubmissionView {
    pub request: Request,
    pub trace: Seq<Exchange>,
}

impl SubmissionView {
    /// The value that was read from the control register.
    pub open spec fn control(self) -> u32 {
        bus::reply_at(self.trace, 1)
    }

    /// The place of the read of the transfer submission register.
    pub open spec fn queue_place(self) -> int {
        if fields::bit(self.control(), 0) {
            2
        } else {
            5
        }
    }

    /// The value that was read from the transfer submission register.
    pub open spec fn queue(self) -> u32 {
        bus::reply_at(self.trace, self.queue_place())
    }

    /// The value that was read from the interrupt source register, for a transfer into memory.
    pub open spec fn source(self) -> u32 {
        bus::reply_at(self.trace, self.queue_place() + 1)
    }

    /// All accesses of the submission, as far as the values that were read tell.
    pub open spec fn program(self) -> Seq<Access> {
        submitting(self.request, self.control(), self.queue(), self.source())
    }

    /// Whether the accesses that were performed are those of the program, up to here.
    pub open spec fn on_program(self) -> bool {
        &&& self.trace.len() <= self.program().len()
        &&& bus::accesses(self.trace) == self.program().take(self.trace.len() as int)
    }

    /// Whether there are accesses left, and those that were performed are as they should be.
    pub open spec fn running(self) -> bool {
        &&& self.on_program()
        &&& self.trace.len() < self.program().len()
    }

    /// The access that comes next.
    pub open spec fn next(self) -> Access {
        self.program()[self.trace.len() as int]
    }

    /// The submission after its next access.
    pub open spec fn after(self, reply: u32) -> SubmissionView {
        SubmissionView {
            request: self.request,
            trace: self.trace.push(Exchange { access: self.next(), reply }),
        }
    }

    /// What follows from the reply to the next access. The submission ends with its program,
    /// and fails if the queue was full.
    pub open spec fn step(self, reply: u32) -> Progress<SubmissionView, Result<(), Error>> {
        let after = self.after(reply);
        if after.trace.len() < after.program().len() {
            Progress::Pending(after)
        } else if fields::bit(after.queue(), 0) {
            Progress::Done(Err(Error::QueueFull))
        } else {
            Progress::Done(Ok(()))
        }
    }
}

/// A submission performs the accesses of its program, in order and without any other. This
/// holds from the start, and every step keeps it. When the submission is over, it has performed
/// all of them, which are thirteen at most.
pub proof fn law_submission_stays_on_program(submission: SubmissionView, reply: u32)
    ensures
        submission.program().len() <= 13,
        submission.trace.len() == 0 ==> submission.on_program(),
        submission.on_program() && submission.trace.len() < submission.program().len()
            ==> submission.after(reply).on_program(),
        submission.on_program() && submission.trace.len() < submission.program().len()
            && submission.step(reply) is Done ==> bus::accesses(submission.after(reply).trace)
            == submission.after(reply).program(),
{
    let after = submission.after(reply);
    let n = submission.trace.len() as int;
    if submission.on_program() && n < submission.program().len() {
        assert(after.trace.drop_last() =~= submission.trace);
        assert forall|i: int| 0 <= i <= n implies after.program()[i] == submission.program()[i] by {
            if 1 < n {
                assert(after.control() == submission.control());
            }
        }
        assert(n + 1 <= after.program().len());
        assert forall|i: int| 0 <= i <= n implies bus::accesses(after.trace)[i]
            == after.program()[i] by {
            if i < n {
                assert(bus::accesses(submission.trace)[i] == submission.program().take(n)[i]);
            }
        }
        assert(bus::accesses(after.trace) =~= after.program().take(n + 1));
        if submission.step(reply) is Done {
            assert(after.program().take(n + 1) =~= after.program());
        }
    } else if n == 0 {
        assert(bus::accesses(submission.trace) =~= submission.program().take(0));
    }
}

/// A submission goes on after every access but two: it ends well with the write that submits the
/// transfer, and it fails when the queue reads as full. Each access is recorded with its reply,
/// and the request stays the same.
pub proof fn law_submission_ends(submission: SubmissionView, reply: u32)
    requires
        submission.running(),
    ensures
        submission.after(reply).request == submission.request,
        submission.after(reply).trace == submission.trace.push(
            Exchange { access: submission.next(), reply },
        ),
        submission.step(reply) == Progress::<SubmissionView, Result<(), Error>>::Done(Ok(()))
            <==> submission.next() == Access::Write(Register::StartTransfer, 1),
        submission.step(reply) == Progress::<SubmissionView, Result<(), Error>>::Done(
            Err(Error::QueueFull),
        ) <==> submission.next() == Access::Read(Register::StartTransfer) && reply % 2 == 1,
        submission.step(reply) is Done || submission.step(reply) == Progress::<
            SubmissionView,
            Result<(), Error>,
        >::Pending(submission.after(reply)),
        submission.step(reply) matches Progress::Done(r) ==> r is Ok || r == Err::<(), Error>(
            Error::QueueFull,
        ),
{
    law_submission_stays_on_program(submission, reply);
    fields::law_bit_is_a_binary_digit(reply);
    let after = submission.after(reply);
    let n = submission.trace.len() as int;
    if n >= 2 {
        assert(after.control() == submission.control());
    }
    if n > submission.queue_place() && n >= 2 {
        assert(after.queue() == submission.queue());
        assert(submission.queue_place() < n);
    }
}

/// What the core was told when a submission ends well, over the accesses that were performed: all
/// bytes of this very request at its address on its memory side, in one row, repeating as
/// requested. The other side is not touched. Nothing is described before the queue was found not
/// full, and the transfer is submitted once, at the very end, to an enabled core.
pub proof fn law_accepted_submission(submission: SubmissionView, reply: u32)
    requires
        submission.running(),
        submission.step(reply) == Progress::<SubmissionView, Result<(), Error>>::Done(Ok(())),
    ensures
        ({
            let request = submission.request;
            let trace = submission.after(reply).trace;
            let all = bus::accesses(trace);
            let enabled = trace[1].reply % 2 == 1;
            let queue: int = if enabled {
                2
            } else {
                5
            };
            let (address, stride, other_address, other_stride) = if request.to_memory {
                (
                    Register::DestAddress,
                    Register::DestStride,
                    Register::SrcAddress,
                    Register::SrcStride,
                )
            } else {
                (
                    Register::SrcAddress,
                    Register::SrcStride,
                    Register::DestAddress,
                    Register::DestStride,
                )
            };
            &&& bus::last_write(all, Register::XLength) == Some(request.x_length)
            &&& bus::last_write(all, Register::YLength) == Some(0u32)
            &&& bus::last_write(all, address) == Some(request.address)
            &&& bus::last_write(all, stride) == Some(0u32)
            &&& bus::last_write(all, other_address) == None::<u32>
            &&& bus::last_write(all, other_stride) == None::<u32>
            &&& bus::last_write(all, Register::Flags) == Some(
                if request.cyclic {
                    1u32
                } else {
                    0u32
                },
            )
            &&& bus::last_write(all, Register::Control) == if enabled {
                None
            } else {
                Some(1u32)
            }
            &&& bus::last_write(all, Register::IrqMask) == if enabled {
                None
            } else {
                Some(3u32)
            }
            &&& bus::last_write(all, Register::IrqPending) == if request.to_memory {
                Some(trace[queue + 1].reply)
            } else {
                None
            }
            &&& bus::last_write(all, Register::StartTransfer) == Some(1u32)
            &&& trace[1].access == Access::Read(Register::Control)
            &&& queue < trace.len()
            &&& trace[queue].access == Access::Read(Register::StartTransfer)
            &&& trace[queue].reply % 2 == 0
            &&& request.to_memory ==> trace[queue + 1].access == Access::Read(Register::IrqSource)
            &&& trace.last().access == Access::Write(Register::StartTransfer, 1)
        }),
{
    law_submission_stays_on_program(submission, reply);
    law_submission_ends(submission, reply);
    let after = submission.after(reply);
    let trace = after.trace;
    let all = bus::accesses(trace);
    assert(all == submitting(submission.request, after.control(), after.queue(), after.source()));
    law_accepted_transfer(submission.request, after.control(), after.queue(), after.source());
    law_core_is_enabled_once(submission.request, after.control(), after.queue(), after.source());
    fields::law_bit_is_a_binary_digit(after.control());
    fields::law_bit_is_a_binary_digit(after.queue());
    let q = after.queue_place();
    assert(all[1] == trace[1].access);
    assert(all[q] == trace[q].access);
    if submission.request.to_memory {
        assert(all[q + 1] == clearing(submission.request, after.source())[0]);
        assert(all[q + 1] == trace[q + 1].access);
    }
    bus::lemma_last_write_at(all, Register::Flags, 0);
    bus::lemma_last_write_at(all, Register::StartTransfer, all.len() - 1);
    if !fields::bit(after.control(), 0) {
        bus::lemma_last_write_at(all, Register::Control, 3);
        bus::lemma_last_write_at(all, Register::IrqMask, 4);
    }
}

/// A submission that fails on a full queue has put nothing into it: it wrote the flags, and
/// enabled the core where it was disabled, and read the queue last.
pub proof fn law_refused_submission(submission: SubmissionView, reply: u32)
    requires
        submission.running(),
        submission.step(reply) is Done,
        submission.step(reply) != Progress::<SubmissionView, Result<(), Error>>::Done(Ok(())),
    ensures
        ({
            let trace = submission.after(reply).trace;
            let enabled = trace[1].reply % 2 == 1;
            &&& trace.last().access == Access::Read(Register::StartTransfer)
            &&& trace.last().reply % 2 == 1
            &&& trace[1].access == Access::Read(Register::Control)
            &&& trace.len() == if enabled {
                3nat
            } else {
                6nat
            }
            &&& trace[0].access == Access::Write(
                Register::Flags,
                if submission.request.cyclic {
                    1
                } else {
                    0
                },
            )
            &&& !enabled ==> {
                &&& trace[2].access == Access::Write(Register::Control, 0)
                &&& trace[3].access == Access::Write(Register::Control, 1)
                &&& trace[4].access == Access::Write(Register::IrqMask, 3)
            }
        }),
{
    law_submission_stays_on_program(submission, reply);
    law_submission_ends(submission, reply);
    let after = submission.after(reply);
    let trace = after.trace;
    let all = bus::accesses(trace);
    fields::law_bit_is_a_binary_digit(after.control());
    assert(all[0] == trace[0].access);
    assert(all[1] == trace[1].access);
    if !fields::bit(after.control(), 0) {
        assert(all[2] == trace[2].access);
        assert(all[3] == trace[3].access);
        assert(all[4] == trace[4].access);
    }
}

/// The order of the accesses of an accepted submission, each with the value that the request or
/// an earlier reply gives. A core that was read as disabled is enabled in three accesses, and a
/// transfer into memory clears what was read from the interrupt sources in two.
pub proof fn law_accepted_submission_in_order(submission: SubmissionView, reply: u32)
    requires
        submission.running(),
        submission.step(reply) == Progress::<SubmissionView, Result<(), Error>>::Done(Ok(())),
    ensures
        ({
            let request = submission.request;
            let trace = submission.after(reply).trace;
            let enabled = trace[1].reply % 2 == 1;
            let queue: int = if enabled {
                2
            } else {
                5
            };
            let described: int = if request.to_memory {
                queue + 3
            } else {
                queue + 1
            };
            &&& trace.len() == described + 5
            &&& trace[0].access is Write && trace[0].access->Write_0 == Register::Flags
            &&& trace[1].access == Access::Read(Register::Control)
            &&& !enabled ==> {
                &&& trace[2].access == Access::Write(Register::Control, 0)
                &&& trace[3].access == Access::Write(Register::Control, 1)
                &&& trace[4].access == Access::Write(Register::IrqMask, 3)
            }
            &&& trace[queue].access == Access::Read(Register::StartTransfer)
            &&& request.to_memory ==> {
                &&& trace[queue + 1].access == Access::Read(Register::IrqSource)
                &&& trace[queue + 2].access == Access::Write(
                    Register::IrqPending,
                    trace[queue + 1].reply,
                )
            }
            &&& trace[described].access == if request.to_memory {
                Access::Write(Register::DestAddress, request.address)
            } else {
                Access::Write(Register::SrcAddress, request.address)
            }
            &&& trace[described + 1].access == if request.to_memory {
                Access::Write(Register::DestStride, 0)
            } else {
                Access::Write(Register::SrcStride, 0)
            }
            &&& trace[described + 2].access == Access::Write(Register::XLength, request.x_length)
            &&& trace[described + 3].access == Access::Write(Register::YLength, 0)
            &&& trace[described + 4].access == Access::Write(Register::StartTransfer, 1)
        }),
{
    law_submission_stays_on_program(submission, reply);
    law_submission_ends(submission, reply);
    let after = submission.after(reply);
    let request = submission.request;
    let trace = after.trace;
    let all = bus::accesses(trace);
    fields::law_bit_is_a_binary_digit(after.control());
    let q = after.queue_place();
    let d: int = q + 1 + clearing(request, after.source()).len();
    assert(all[d] == queueing(request)[0]);
    assert(all[d + 1] == queueing(request)[1]);
    assert(all[d + 2] == queueing(request)[2]);
    assert(all[d + 3] == queueing(request)[3]);
    assert(all[d + 4] == queueing(request)[4]);
    if request.to_memory {
        assert(all[q + 1] == clearing(request, after.source())[0]);
        assert(all[q + 2] == clearing(request, after.source())[1]);
    }
    assert forall|i: int| 0 <= i < trace.len() implies #[trigger] trace[i].access == all[i] by {}
}

/// After a write the reply has no effect: whatever it is, the submission ends alike or goes on
/// with the same access.
pub proof fn law_submission_ignores_write_replies(submission: SubmissionView, a: u32, b: u32)
    requires
        submission.running(),
        submission.next() is Write,
    ensures
        submission.step(a) is Done <==> submission.step(b) is Done,
        submission.step(a) is Done ==> submission.step(a) == submission.step(b),
        submission.step(a) is Pending ==> submission.after(a).next() == submission.after(b).next(),
{
    law_submission_ends(submission, a);
    law_submission_ends(submission, b);
    let n = submission.trace.len() as int;
    let q = submission.queue_place();
    if n >= 2 {
        assert(submission.after(a).control() == submission.control());
        assert(submission.after(b).control() == submission.control());
    }
    if n != q {
        assert(submission.after(a).queue() == submission.after(b).queue());
    }
    if n != q + 1 {
        assert(submission.after(a).source() == submission.after(b).source());
    }
}

/// The access of a submission that comes next.
#[derive(Clone, Copy, Debug)]
enum Stage {
    Flags,
    ReadControl,
    Disable,
    Enable,
    MaskInterrupts,
    ReadQueue,
    ReadSource,
    ClearSource,
    Address,
    Stride,
    XLength,
    YLength,
    Start,
}

/// A transfer that is being submitted. The core gets it when its accesses have been performed.
#[must_use]
pub struct Submission {
    request: Request,
    stage: Stage,
    source: u32,
    trace: Ghost<Seq<Exchange>>,
}

impl View for Submission {
    type V = SubmissionView;

    closed spec fn view(&self) -> SubmissionView {
        SubmissionView { request: self.request, trace: self.trace@ }
    }
}

impl Submission {
    /// How many accesses come before this one.
    spec fn place(self) -> int {
        let queue_place = self@.queue_place();
        let described = queue_place + 1 + clearing(self.request, 0).len();
        match self.stage {
            Stage::Flags => 0,
            Stage::ReadControl => 1,
            Stage::Disable => 2,
            Stage::Enable => 3,
            Stage::MaskInterrupts => 4,
            Stage::ReadQueue => queue_place,
            Stage::ReadSource => queue_place + 1,
            Stage::ClearSource => queue_place + 2,
            Stage::Address => described,
            Stage::Stride => described + 1,
            Stage::XLength => described + 2,
            Stage::YLength => described + 3,
            Stage::Start => described + 4,
        }
    }

    #[verifier::type_invariant]
    spec fn wf(self) -> bool {
        &&& self.trace@.len() == self.place()
        &&& self.trace@.len() < self@.program().len()
        &&& self@.on_program()
        &&& (self.stage is Disable || self.stage is Enable || self.stage is MaskInterrupts)
            ==> !fields::bit(self@.control(), 0)
        &&& self.stage is ReadQueue ==> self.trace@.len() >= 2
        &&& (self.stage is ReadSource || self.stage is ClearSource) ==> self.request.to_memory
        &&& self.stage is ClearSource ==> self.source == self@.source()
    }

    /// The access to perform next.
    pub fn access(&self) -> (r: Access)
        ensures
            r == self@.next(),
            self@.running(),
    {
        proof {
            use_type_invariant(self);
            lemma_field_values();
        }
        match self.stage {
            Stage::Flags => Access::Write(
                Register::Flags,
                Flags::default().with_cyclic(self.request.cyclic).raw_value(),
            ),
            Stage::ReadControl => Access::Read(Register::Control),
            Stage::Disable => Access::Write(Register::Control, Control::default().raw_value()),
            Stage::Enable => Access::Write(
                Register::Control,
                Control::default().with_enable(true).raw_value(),
            ),
            // Keep the interrupts masked: completion is polled through the raw source register
            Stage::MaskInterrupts => Access::Write(
                Register::IrqMask,
                Irq::default().with_start_of_transfer(true).with_end_of_transfer(true).raw_value(),
            ),
            Stage::ReadQueue => Access::Read(Register::StartTransfer),
            // What is still reported of an earlier transfer must not end this one
            Stage::ReadSource => Access::Read(Register::IrqSource),
            Stage::ClearSource => Access::Write(
                Register::IrqPending,
                Irq::new_with_raw_value(self.source).raw_value(),
            ),
            Stage::Address => if self.request.to_memory {
                Access::Write(Register::DestAddress, self.request.address)
            } else {
                Access::Write(Register::SrcAddress, self.request.address)
            },
            Stage::Stride => if self.request.to_memory {
                Access::Write(Register::DestStride, 0)
            } else {
                Access::Write(Register::SrcStride, 0)
            },
            Stage::XLength => Access::Write(Register::XLength, self.request.x_length),
            Stage::YLength => Access::Write(Register::YLength, 0),
            Stage::Start => Access::Write(
                Register::StartTransfer,
                StartTransfer::default().with_submit(true).raw_value(),
            ),
        }
    }

    /// Goes on after the access was performed. `reply` is the value that was read, and has no
    /// effect after a write.
    pub fn resume(self, reply: u32) -> (r: Progress<Submission, Result<(), Error>>)
        ensures
            match self@.step(reply) {
                Progress::Pending(v) => r matches Progress::Pending(s) && s@ == v,
                Progress::Done(result) => r matches Progress::Done(x) && x == result,
            },
            self@.running(),
            r matches Progress::Pending(s) ==> s@.running() && s@.request == self@.request
                && s@.trace == self@.trace.push(Exchange { access: self@.next(), reply }),
            r matches Progress::Done(x) ==> (x is Ok <==> self@.next() == Access::Write(
                Register::StartTransfer,
                1,
            )),
            r matches Progress::Done(x) ==> (x == Err::<(), Error>(Error::QueueFull)
                <==> self@.next() == Access::Read(Register::StartTransfer) && reply % 2 == 1),
    {
        proof {
            use_type_invariant(&self);
            law_submission_stays_on_program(self@, reply);
            law_submission_ends(self@, reply);
        }
        let mut source: u32 = self.source;
        let stage = match self.stage {
            Stage::Flags => Stage::ReadControl,
            Stage::ReadControl => if Control::new_with_raw_value(reply).enable() {
                Stage::ReadQueue
            } else {
                Stage::Disable
            },
            Stage::Disable => Stage::Enable,
            Stage::Enable => Stage::MaskInterrupts,
            Stage::MaskInterrupts => Stage::ReadQueue,
            Stage::ReadQueue => if StartTransfer::new_with_raw_value(reply).submit() {
                return Progress::Done(Err(Error::QueueFull));
            } else if self.request.to_memory {
                Stage::ReadSource
            } else {
                Stage::Address
            },
            Stage::ReadSource => {
                source = reply;
                Stage::ClearSource
            },
            Stage::ClearSource => Stage::Address,
            Stage::Address => Stage::Stride,
            Stage::Stride => Stage::XLength,
            Stage::XLength => Stage::YLength,
            Stage::YLength => Stage::Start,
            Stage::Start => {
                return Progress::Done(Ok(()));
            },
        };
        let trace: Ghost<Seq<Exchange>> = Ghost(self@.after(reply).trace);
        Progress::Pending(Submission { request: self.request, stage, source, trace })
    }
}

/// A transfer that is being started. It turns into a running transfer of type `T` when the core
/// accepts it. Dropping it releases the buffer, but does not stop the core: once the last access
/// has been performed, the caller has to resume it to get the transfer.
#[must_use]
pub struct Starting<T> {
    submission: Submission,
    transfer: T,
}

impl<T> View for Starting<T> {
    type V = SubmissionView;

    closed spec fn view(&self) -> SubmissionView {
        self.submission@
    }
}

impl<T> Starting<T> {
    /// The transfer that runs once the core has accepted it.
    pub closed spec fn transfer(self) -> T {
        self.transfer
    }

    /// Starts `transfer` with a whole buffer, which the transfer borrows. The elements of the
    /// buffer are not touched.
    pub(crate) fn new<'a, E>(
        core: &Core,
        buffer: Placed<'a, E>,
        to_memory: bool,
        cyclic: bool,
        transfer: T,
    ) -> (r: Result<Self, Error>) where T: Borrows<'a>
        requires
            core.wf(),
            buffer::can_lie_at::<E>(buffer.address(), buffer.elements().len()),
        ensures
            taken_at::<E, Self>(
                *core,
                buffer.address(),
                buffer.elements().len(),
                to_memory,
                cyclic,
                r,
            ),
            taken_whole::<E, Self>(*core, buffer.elements().len(), to_memory, cyclic, r),
            r matches Ok(s) ==> {
                &&& s.transfer() == transfer
                &&& s@.request.address as int == buffer.address() as int % 0x1_0000_0000
                &&& s@.request.x_length + 1 == buffer.elements().len() * layout::size_of::<E>()
                &&& s@.request.to_memory == to_memory
                &&& s@.request.cyclic == cyclic
                &&& s@.trace.len() == 0
            },
    {
        let address: usize = buffer.get_address();
        let size: usize = buffer.get_size();
        proof {
            if layout::align_of::<E>() as int % core.width as int == 0 {
                buffer::lemma_aligned::<E>(address as int, core.width as int);
                lemma_low_address_alignment(address, core.width);
            }
        }
        let ghost len = buffer.elements().len();
        let r = match core.submit(address, size, to_memory, cyclic) {
            Ok(submission) => Ok(Starting { submission, transfer }),
            Err(e) => Err(e),
        };
        assert(taken_at::<E, Self>(*core, address, len, to_memory, cyclic, r));
        r
    }

    /// The access to perform next.
    pub fn access(&self) -> (r: Access)
        ensures
            r == self@.next(),
            self@.running(),
    {
        self.submission.access()
    }

    /// Goes on after the access was performed. `reply` is the value that was read, and has no
    /// effect after a write.
    pub fn resume(self, reply: u32) -> (r: Progress<Starting<T>, Result<T, Error>>)
        ensures
            match self@.step(reply) {
                Progress::Pending(v) => r matches Progress::Pending(s) && s@ == v && s.transfer()
                    == self.transfer(),
                Progress::Done(Ok(())) => r matches Progress::Done(Ok(t)) && t == self.transfer(),
                Progress::Done(Err(e)) => r matches Progress::Done(Err(x)) && x == e,
            },
            self@.running(),
            r matches Progress::Pending(s) ==> s@.running() && s@.request == self@.request
                && s@.trace == self@.trace.push(Exchange { access: self@.next(), reply }),
            r matches Progress::Done(x) ==> (x is Ok <==> self@.next() == Access::Write(
                Register::StartTransfer,
                1,
            )),
    {
        let Starting { submission, transfer } = self;
        match submission.resume(reply) {
            Progress::Pending(submission) => Progress::Pending(Starting { submission, transfer }),
            Progress::Done(Ok(())) => Progress::Done(Ok(transfer)),
            Progress::Done(Err(e)) => Progress::Done(Err(e)),
        }
    }
}

/// A running transfer that is being stopped. It still borrows the buffer, until it is resumed after
/// its access was performed.
#[must_use]
pub struct Stopping<'a> {
    access: Access,
    borrow: PhantomData<&'a mut [u8]>,
}

impl<'a> View for Stopping<'a> {
    type V = Access;

    /// The access that stops the transfer.
    closed spec fn view(&self) -> Access {
        self.access
    }
}

impl<'a> Stopping<'a> {
    /// Stops a transfer of the core.
    pub(crate) fn new(core: Core) -> (r: Self)
        ensures
            r@ == disabling(),
            r@ == Access::Write(Register::Control, 0),
    {
        Stopping { access: core.disable(), borrow: PhantomData }
    }

    /// The access to perform next.
    pub fn access(&self) -> (r: Access)
        ensures
            r == self@,
    {
        self.access
    }

    /// Goes on after the access was performed, which releases the buffer. The access is a write,
    /// so `reply` has no effect.
    pub fn resume(self, reply: u32) -> (r: Progress<Stopping<'a>, ()>)
        ensures
            r == Progress::<Stopping<'a>, ()>::Done(()),
    {
        Progress::Done(())
    }
}

/// An accepted transfer is described to the core on its memory side alone: its address, one row
/// of its length and whether it repeats. A transfer into memory clears the interrupt sources that
/// were read, and one from memory clears none. The core is enabled when the transfer is submitted,
/// which is the last access and the only one that submits.
pub proof fn law_accepted_transfer(request: Request, control: u32, queue: u32, source: u32)
    requires
        !fields::bit(queue, 0),
    ensures
        ({
            let all = submitting(request, control, queue, source);
            let (address, stride, other_address, other_stride) = if request.to_memory {
                (
                    Register::DestAddress,
                    Register::DestStride,
                    Register::SrcAddress,
                    Register::SrcStride,
                )
            } else {
                (
                    Register::SrcAddress,
                    Register::SrcStride,
                    Register::DestAddress,
                    Register::DestStride,
                )
            };
            &&& bus::last_write(all, address) == Some(request.address)
            &&& bus::last_write(all, stride) == Some(0u32)
            &&& bus::last_write(all, other_address) == None::<u32>
            &&& bus::last_write(all, other_stride) == None::<u32>
            &&& bus::last_write(all, Register::XLength) == Some(request.x_length)
            &&& bus::last_write(all, Register::YLength) == Some(0u32)
            &&& bus::last_write(all, Register::Flags) matches Some(flags) && fields::bit(flags, 0)
                == request.cyclic
            &&& bus::last_write(all, Register::IrqPending) == if request.to_memory {
                Some(source)
            } else {
                None::<u32>
            }
            &&& match bus::last_write(all, Register::Control) {
                Some(written) => fields::bit(written, 0),
                None => fields::bit(control, 0),
            }
            &&& all.last() == Access::Write(Register::StartTransfer, 1)
            &&& forall|i: int|
                0 <= i < all.len() - 1 ==> !bus::writes_to(
                    #[trigger] all[i],
                    Register::StartTransfer,
                )
        }),
{
    let all = submitting(request, control, queue, source);
    let q: int = if fields::bit(control, 0) {
        2
    } else {
        5
    };
    let d: int = q + 1 + clearing(request, source).len();
    assert(all[d] == queueing(request)[0]);
    assert(all[d + 1] == queueing(request)[1]);
    assert(all[d + 2] == queueing(request)[2]);
    assert(all[d + 3] == queueing(request)[3]);
    assert(all[d + 4] == queueing(request)[4]);
    if request.to_memory {
        assert(all[q + 2] == clearing(request, source)[1]);
        bus::lemma_last_write_at(all, Register::IrqPending, q + 2);
        bus::lemma_last_write_at(all, Register::DestAddress, d);
        bus::lemma_last_write_at(all, Register::DestStride, d + 1);
        bus::lemma_no_last_write(all, Register::SrcAddress);
        bus::lemma_no_last_write(all, Register::SrcStride);
    } else {
        bus::lemma_no_last_write(all, Register::IrqPending);
        bus::lemma_last_write_at(all, Register::SrcAddress, d);
        bus::lemma_last_write_at(all, Register::SrcStride, d + 1);
        bus::lemma_no_last_write(all, Register::DestAddress);
        bus::lemma_no_last_write(all, Register::DestStride);
    }
    bus::lemma_last_write_at(all, Register::XLength, d + 2);
    bus::lemma_last_write_at(all, Register::YLength, d + 3);
    bus::lemma_last_write_at(all, Register::Flags, 0);
    assert(fields::bit(1, 0) && !fields::bit(0, 0)) by (bit_vector);
    if fields::bit(control, 0) {
        bus::lemma_no_last_write(all, Register::Control);
    } else {
        bus::lemma_last_write_at(all, Register::Control, 3);
    }
}

/// A core that was disabled is enabled with both interrupts masked. A core that was enabled
/// already keeps its control register and its interrupt mask.
pub proof fn law_core_is_enabled_once(request: Request, control: u32, queue: u32, source: u32)
    ensures
        ({
            let all = submitting(request, control, queue, source);
            if fields::bit(control, 0) {
                &&& bus::last_write(all, Register::Control) == None::<u32>
                &&& bus::last_write(all, Register::IrqMask) == None::<u32>
            } else {
                &&& bus::last_write(all, Register::Control) matches Some(written) && fields::bit(
                    written,
                    0,
                )
                &&& bus::last_write(all, Register::IrqMask) matches Some(mask) && fields::bit(
                    mask,
                    0,
                ) && fields::bit(mask, 1)
            }
        }),
{
    let all = submitting(request, control, queue, source);
    if fields::bit(control, 0) {
        bus::lemma_no_last_write(all, Register::Control);
        bus::lemma_no_last_write(all, Register::IrqMask);
    } else {
        bus::lemma_last_write_at(all, Register::Control, 3);
        bus::lemma_last_write_at(all, Register::IrqMask, 4);
        assert(fields::bit(1, 0) && fields::bit(3, 0) && fields::bit(3, 1)) by (bit_vector);
    }
}

/// Nothing of a transfer is put into a full queue, nothing is submitted, and what the core
/// reported stays reported.
pub proof fn law_full_queue_is_left_alone(request: Request, control: u32, queue: u32, source: u32)
    requires
        fields::bit(queue, 0),
    ensures
        ({
            let all = submitting(request, control, queue, source);
            &&& all.last() == Access::Read(Register::StartTransfer)
            &&& bus::last_write(all, Register::DestAddress) == None::<u32>
            &&& bus::last_write(all, Register::DestStride) == None::<u32>
            &&& bus::last_write(all, Register::SrcAddress) == None::<u32>
            &&& bus::last_write(all, Register::SrcStride) == None::<u32>
            &&& bus::last_write(all, Register::XLength) == None::<u32>
            &&& bus::last_write(all, Register::YLength) == None::<u32>
            &&& bus::last_write(all, Register::StartTransfer) == None::<u32>
            &&& bus::last_write(all, Register::IrqPending) == None::<u32>
        }),
{
    let all = submitting(request, control, queue, source);
    bus::lemma_no_last_write(all, Register::DestAddress);
    bus::lemma_no_last_write(all, Register::DestStride);
    bus::lemma_no_last_write(all, Register::SrcAddress);
    bus::lemma_no_last_write(all, Register::SrcStride);
    bus::lemma_no_last_write(all, Register::XLength);
    bus::lemma_no_last_write(all, Register::YLength);
    bus::lemma_no_last_write(all, Register::StartTransfer);
    bus::lemma_no_last_write(all, Register::IrqPending);
}

/// The core can do every transfer at an aligned address that is not empty and not longer than
/// its longest one, and no other. It is told all of the bytes, at an aligned address with the low
/// 32 bits of the one that was asked for.
pub proof fn law_request_is_the_buffer(
    core: Core,
    address: int,
    size: int,
    to_memory: bool,
    cyclic: bool,
)
    requires
        core.wf(),
        0 <= address <= usize::MAX,
    ensures
        core.request(address, size, to_memory, cyclic) is Ok <==> 1 <= size <= core.max_bytes()
            && address % core.width as int == 0,
        core.max_bytes() == core.max_length + 1,
        core.request(address, size, to_memory, cyclic) == Err::<Request, Error>(
            Error::InvalidLength,
        ) <==> size < 1 || size > core.max_length + 1,
        core.request(address, size, to_memory, cyclic) == Err::<Request, Error>(Error::Misaligned)
            <==> 1 <= size <= core.max_length + 1 && address % core.width as int != 0,
        core.request(address, size, to_memory, cyclic) matches Ok(request) ==> {
            &&& request.x_length + 1 == size
            &&& request.x_length <= core.max_length
            &&& request.address == address % 0x1_0000_0000
            &&& request.address as int % core.width as int == 0
            &&& request.to_memory == to_memory
            &&& request.cyclic == cyclic
        },
{
    lemma_low_address_alignment(address as usize, core.width);
}

/// A whole buffer that was taken is told to the core with the low 32 bits of its address and with
/// all of its bytes, before any access. It is refused for its length exactly if it is empty or too
/// long, and otherwise for its alignment only.
pub proof fn law_taken_buffer<T, S: View<V = SubmissionView>>(
    core: Core,
    address: usize,
    len: nat,
    to_memory: bool,
    cyclic: bool,
    r: Result<S, Error>,
)
    requires
        core.width > 0,
        taken_at::<T, S>(core, address, len, to_memory, cyclic, r),
    ensures
        ({
            let size = len * layout::size_of::<T>();
            &&& r is Ok <==> 1 <= size <= core.max_length + 1 && (address as int % 0x1_0000_0000)
                % core.width as int == 0
            &&& r matches Err(e) ==> e == if 1 <= size <= core.max_length + 1 {
                Error::Misaligned
            } else {
                Error::InvalidLength
            }
            &&& r matches Ok(s) ==> {
                &&& s@.request.address as int == address as int % 0x1_0000_0000
                &&& s@.request.x_length + 1 == size
                &&& s@.request.to_memory == to_memory
                &&& s@.request.cyclic == cyclic
                &&& s@.trace.len() == 0
            }
        }),
{
}

/// A whole buffer is taken at some address at which it can lie. Where its elements are always
/// aligned to the interface, only its length decides.
pub proof fn law_taken_whole<T, S: View<V = SubmissionView>>(
    core: Core,
    len: nat,
    to_memory: bool,
    cyclic: bool,
    r: Result<S, Error>,
)
    requires
        taken_whole::<T, S>(core, len, to_memory, cyclic, r),
    ensures
        exists|address: usize|
            buffer::can_lie_at::<T>(address, len) && #[trigger] taken_at::<T, S>(
                core,
                address,
                len,
                to_memory,
                cyclic,
                r,
            ),
        layout::align_of::<T>() as int % core.width as int == 0 ==> (r is Ok <==> 1 <= len
            * layout::size_of::<T>() <= core.max_length + 1),
{
    let address = choose|address: usize| #[trigger]
        taken_at::<T, S>(core, address, len, to_memory, cyclic, r);
    assert(taken_at::<T, S>(core, address, len, to_memory, cyclic, r));
}

/// The register values that a submission writes.
proof fn lemma_field_values()
    ensures
        fields::put_bit(0, 0, true) == 1,
        fields::put_bit(0, 0, false) == 0,
        fields::put_bit(fields::put_bit(0, 0, true), 1, true) == 3,
{
    assert(fields::put_bit(0, 0, true) == 1) by (bit_vector);
    assert(fields::put_bit(0, 0, false) == 0) by (bit_vector);
    assert(fields::put_bit(fields::put_bit(0, 0, true), 1, true) == 3) by (bit_vector);
}

} // verus!
