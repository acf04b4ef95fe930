//! Detecting the capabilities of a core.
use vstd::arithmetic::{div_mod, power2};
use vstd::prelude::*;

use crate::bus;
use crate::bus::{Access, Exchange, Progress};
use crate::regs::fields;
use crate::regs::fields::{Flags, InterfaceDescription};
use crate::regs::Register;
use crate::submission;

verus! {

/// The capabilities of a core, as values.
pub struct ProbeView {
    /// Whether the core can repeat a transfer in hardware.
    pub hw_cyclic: bool,
    /// Longest transfer in bytes minus one.
    pub max_length: u32,
    /// Whether the destination of the core is memory mapped.
    pub dest_mem_mapped: bool,
    /// Whether the source of the core is memory mapped.
    pub src_mem_mapped: bool,
    /// Bytes per beat of the destination interface.
    pub width_dest: u32,
    /// Bytes per beat of the source interface.
    pub width_src: u32,
}

/// The capabilities that follow from what the registers kept: the flags after the cyclic flag
/// alone was written, the length and the two addresses after all ones were written, and the
/// interface description.
pub open spec fn capabilities(
    flags: u32,
    x_length: u32,
    dest_address: u32,
    src_address: u32,
    interface: u32,
) -> ProbeView {
    ProbeView {
        hw_cyclic: flags == 1,
        max_length: x_length,
        dest_mem_mapped: dest_address != 0,
        src_mem_mapped: src_address != 0,
        width_dest: power2::pow2(fields::nibble(interface, 0) as nat) as u32,
        width_src: power2::pow2(fields::nibble(interface, 8) as nat) as u32,
    }
}

/// Both interfaces of every core have a power of two of bytes per beat, the one whose logarithm
/// the interface description gives.
pub proof fn law_probed_widths(
    flags: u32,
    x_length: u32,
    dest_address: u32,
    src_address: u32,
    interface: u32,
)
    ensures
        ({
            let probe = capabilities(flags, x_length, dest_address, src_address, interface);
            &&& probe.width_dest == power2::pow2(fields::nibble(interface, 0) as nat)
            &&& probe.width_src == power2::pow2(fields::nibble(interface, 8) as nat)
            &&& submission::is_width(probe.width_dest)
            &&& submission::is_width(probe.width_src)
        }),
{
    assert(fields::nibble(interface, 0) < 16) by (bit_vector);
    assert(fields::nibble(interface, 8) < 16) by (bit_vector);
    lemma_power_is_width(fields::nibble(interface, 0) as nat);
    lemma_power_is_width(fields::nibble(interface, 8) as nat);
}

/// Each capability follows from one register value: the core repeats transfers if the flags were
/// kept as written, the length that was kept is the longest one, an interface is memory mapped if
/// its address kept any bit, and the widths are the powers of two that two digits in base 16 of the
/// interface description give.
pub proof fn law_capabilities(
    flags: u32,
    x_length: u32,
    dest_address: u32,
    src_address: u32,
    interface: u32,
)
    ensures
        ({
            let probe = capabilities(flags, x_length, dest_address, src_address, interface);
            &&& probe.hw_cyclic == (flags == 1)
            &&& probe.max_length == x_length
            &&& probe.dest_mem_mapped == (dest_address != 0)
            &&& probe.src_mem_mapped == (src_address != 0)
            &&& probe.width_dest == power2::pow2((interface % 16) as nat)
            &&& probe.width_src == power2::pow2((interface as int / 256 % 16) as nat)
        }),
{
    law_probed_widths(flags, x_length, dest_address, src_address, interface);
    fields::law_nibble_is_a_digit(interface);
}

/// A detection finds what sticks. Where each register keeps the bits of a mask, the core repeats
/// transfers if the cyclic flag is among them, its longest transfer is the mask of the length, and
/// an interface is memory mapped if its address keeps any bit.
pub proof fn law_probe_finds_what_sticks(
    flags_mask: u32,
    length_mask: u32,
    dest_mask: u32,
    src_mask: u32,
    interface: u32,
)
    ensures
        ({
            let probe = capabilities(
                1 & flags_mask,
                u32::MAX & length_mask,
                u32::MAX & dest_mask,
                u32::MAX & src_mask,
                interface,
            );
            &&& probe.hw_cyclic == fields::bit(flags_mask, 0)
            &&& probe.max_length == length_mask
            &&& probe.dest_mem_mapped == (dest_mask != 0)
            &&& probe.src_mem_mapped == (src_mask != 0)
        }),
{
    assert((1 & flags_mask == 1) == fields::bit(flags_mask, 0)) by (bit_vector);
    assert(u32::MAX & length_mask == length_mask) by (bit_vector);
    assert(u32::MAX & dest_mask == dest_mask) by (bit_vector);
    assert(u32::MAX & src_mask == src_mask) by (bit_vector);
}

/// The capabilities of a core.
pub struct Probe {
    hw_cyclic: bool,
    max_length: u32,
    dest_mem_mapped: bool,
    src_mem_mapped: bool,
    width_dest: u32,
    width_src: u32,
}

impl View for Probe {
    type V = ProbeView;

    closed spec fn view(&self) -> ProbeView {
        ProbeView {
            hw_cyclic: self.hw_cyclic,
            max_length: self.max_length,
            dest_mem_mapped: self.dest_mem_mapped,
            src_mem_mapped: self.src_mem_mapped,
            width_dest: self.width_dest,
            width_src: self.width_src,
        }
    }
}

/// The powers of two up to 32768 are widths.
proof fn lemma_power_is_width(n: nat)
    requires
        n < 16,
    ensures
        power2::pow2(n) <= u32::MAX,
        submission::is_width(power2::pow2(n) as u32),
{
    let rest = (15 - n) as nat;
    power2::lemma2_to64();
    power2::lemma_pow2_pos(n);
    power2::lemma_pow2_adds(rest, n);
    div_mod::lemma_mod_multiples_basic(power2::pow2(rest) as int, power2::pow2(n) as int);
}

/// The bytes per beat of an interface with this logarithm.
fn width(log2: u8) -> (r: u32)
    requires
        log2 < 16,
    ensures
        r == power2::pow2(log2 as nat),
        submission::is_width(r),
{
    proof {
        lemma_power_is_width(log2 as nat);
        vstd::bits::lemma_u32_pow2_no_overflow(log2 as nat);
        vstd::bits::lemma_u32_shl_is_mul(1, log2 as u32);
    }
    1u32 << (log2 as u32)
}

impl Probe {
    #[verifier::type_invariant]
    spec fn wf(self) -> bool {
        submission::is_width(self.width_dest) && submission::is_width(self.width_src)
    }

    /// The capabilities of a core that kept these register values: the flags after the cyclic
    /// flag alone was written, the length and the two addresses after all ones were written, and
    /// the interface description.
    pub fn new(
        flags: Flags,
        x_length: u32,
        dest_address: u32,
        src_address: u32,
        interface: InterfaceDescription,
    ) -> (r: Self)
        ensures
            r@ == capabilities(flags@, x_length, dest_address, src_address, interface@),
            r@.hw_cyclic == (flags@ == 1),
            r@.max_length == x_length,
            r@.dest_mem_mapped == (dest_address != 0),
            r@.src_mem_mapped == (src_address != 0),
            r@.width_dest == power2::pow2((interface@ % 16) as nat),
            r@.width_src == power2::pow2((interface@ as int / 256 % 16) as nat),
    {
        proof {
            law_capabilities(flags@, x_length, dest_address, src_address, interface@);
            assert(fields::put_bit(0, 0, true) == 1) by (bit_vector);
        }
        Probe {
            hw_cyclic: flags.raw_value() == Flags::default().with_cyclic(true).raw_value(),
            // The maximum transfer length is what sticks when writing all ones
            max_length: x_length,
            // A memory-mapped interface has address bits that stick
            dest_mem_mapped: dest_address != 0,
            src_mem_mapped: src_address != 0,
            width_dest: width(interface.bytes_per_beat_dest_log2()),
            width_src: width(interface.bytes_per_beat_src_log2()),
        }
    }

    /// Whether the core can repeat a transfer in hardware.
    pub fn hw_cyclic(&self) -> (r: bool)
        ensures
            r == self@.hw_cyclic,
    {
        self.hw_cyclic
    }

    /// Longest transfer in bytes minus one.
    pub fn max_length(&self) -> (r: u32)
        ensures
            r == self@.max_length,
    {
        self.max_length
    }

    /// Whether the destination of the core is memory mapped.
    pub fn dest_mem_mapped(&self) -> (r: bool)
        ensures
            r == self@.dest_mem_mapped,
    {
        self.dest_mem_mapped
    }

    /// Whether the source of the core is memory mapped.
    pub fn src_mem_mapped(&self) -> (r: bool)
        ensures
            r == self@.src_mem_mapped,
    {
        self.src_mem_mapped
    }

    /// Bytes per beat of the destination interface.
    pub fn width_dest(&self) -> (r: u32)
        ensures
            r == self@.width_dest,
            submission::is_width(r),
    {
        proof {
            use_type_invariant(self);
        }
        self.width_dest
    }

    /// Bytes per beat of the source interface.
    pub fn width_src(&self) -> (r: u32)
        ensures
            r == self@.width_src,
            submission::is_width(r),
    {
        proof {
            use_type_invariant(self);
        }
        self.width_src
    }
}

/// All accesses of a detection, given the flags that the core had before.
pub open spec fn probing(flags: u32) -> Seq<Access> {
    seq![
        Access::Read(Register::Flags),
        Access::Write(Register::Flags, 1),
        Access::Read(Register::Flags),
        Access::Write(Register::Flags, flags),
        Access::Write(Register::XLength, u32::MAX),
        Access::Read(Register::XLength),
        Access::Write(Register::DestAddress, u32::MAX),
        Access::Read(Register::DestAddress),
        Access::Write(Register::SrcAddress, u32::MAX),
        Access::Read(Register::SrcAddress),
        Access::Read(Register::InterfaceDescription),
    ]
}

/// A detection: the accesses that were performed so far.
pub struct ProbingView {
    pub trace: Seq<Exchange>,
}

impl ProbingView {
    /// All accesses of the detection, as far as the values that were read tell.
    pub open spec fn program(self) -> Seq<Access> {
        probing(bus::reply_at(self.trace, 0))
    }

    /// Whether the accesses that were performed are those of the program, up to here.
    pub open spec fn on_program(self) -> bool {
        &&& self.trace.len() <= self.program().len()
        &&& bus::accesses(self.trace) == self.program().take(self.trace.len() as int)
    }

    /// Whether there are accesses left, and those that were performed are as they should be.
    pub open spec fn running(self) -> bool {
        &&& self.on_program()
        &&& self.trace.len() < self.program().len()
    }

    /// The access that comes next.
    pub open spec fn next(self) -> Access {
        self.program()[self.trace.len() as int]
    }

    /// The detection after its next access.
    pub open spec fn after(self, reply: u32) -> ProbingView {
        ProbingView { trace: self.trace.push(Exchange { access: self.next(), reply }) }
    }

    /// The capabilities that follow from the values that were read.
    pub open spec fn result(self) -> ProbeView {
        capabilities(
            bus::reply_at(self.trace, 2),
            bus::reply_at(self.trace, 5),
            bus::reply_at(self.trace, 7),
            bus::reply_at(self.trace, 9),
            bus::reply_at(self.trace, 10),
        )
    }

    /// What follows from the reply to the next access. The detection ends with its program.
    pub open spec fn step(self, reply: u32) -> Progress<ProbingView, ProbeView> {
        let after = self.after(reply);
        if after.trace.len() < after.program().len() {
            Progress::Pending(after)
        } else {
            Progress::Done(after.result())
        }
    }
}

/// A detection performs the accesses of its program, in order and without any other. This holds
/// from the start, and every step keeps it. When the detection is over, it has performed all of
/// them, which are eleven at most.
pub proof fn law_probing_stays_on_program(probing: ProbingView, reply: u32)
    ensures
        probing.program().len() <= 11,
        probing.trace.len() == 0 ==> probing.on_program(),
        probing.on_program() && probing.trace.len() < probing.program().len() ==> probing.after(
            reply,
        ).on_program(),
        probing.on_program() && probing.trace.len() < probing.program().len() && probing.step(
            reply,
        ) is Done ==> bus::accesses(probing.after(reply).trace) == probing.after(reply).program(),
{
    let after = probing.after(reply);
    let n = probing.trace.len() as int;
    if probing.on_program() && n < probing.program().len() {
        assert forall|i: int| 0 <= i <= n implies bus::accesses(after.trace)[i]
            == after.program()[i] by {
            if i < n {
                assert(bus::accesses(probing.trace)[i] == probing.program().take(n)[i]);
            }
        }
        assert(bus::accesses(after.trace) =~= after.program().take(n + 1));
        if probing.step(reply) is Done {
            assert(after.program().take(n + 1) =~= after.program());
        }
    } else if n == 0 {
        assert(bus::accesses(probing.trace) =~= probing.program().take(0));
    }
}

/// A detection is over with the read of the interface description, and goes on after every other
/// access. Each access is recorded with its reply. What comes out follows from the replies to the
/// reads: the flags after the cyclic flag alone was written, the length and the addresses after all
/// ones were written, and the interface description. The flags that were read first are written
/// back.
pub proof fn law_probing_ends(probing: ProbingView, reply: u32)
    requires
        probing.running(),
    ensures
        probing.after(reply).trace == probing.trace.push(
            Exchange { access: probing.next(), reply },
        ),
        probing.step(reply) is Done <==> probing.next() == Access::Read(
            Register::InterfaceDescription,
        ),
        probing.step(reply) is Done || probing.step(reply) == Progress::<
            ProbingView,
            ProbeView,
        >::Pending(probing.after(reply)),
        probing.step(reply) matches Progress::Done(probe) ==> {
            let trace = probing.after(reply).trace;
            &&& trace.len() == 11
            &&& trace[0].access == Access::Read(Register::Flags)
            &&& trace[1].access == Access::Write(Register::Flags, 1)
            &&& trace[2].access == Access::Read(Register::Flags)
            &&& probe.hw_cyclic == (trace[2].reply == 1)
            &&& trace[3].access == Access::Write(Register::Flags, trace[0].reply)
            &&& trace[4].access == Access::Write(Register::XLength, u32::MAX)
            &&& trace[5].access == Access::Read(Register::XLength)
            &&& probe.max_length == trace[5].reply
            &&& trace[6].access == Access::Write(Register::DestAddress, u32::MAX)
            &&& trace[7].access == Access::Read(Register::DestAddress)
            &&& probe.dest_mem_mapped == (trace[7].reply != 0)
            &&& trace[8].access == Access::Write(Register::SrcAddress, u32::MAX)
            &&& trace[9].access == Access::Read(Register::SrcAddress)
            &&& probe.src_mem_mapped == (trace[9].reply != 0)
            &&& trace[10].access == Access::Read(Register::InterfaceDescription)
            &&& trace[10].reply == reply
            &&& probe.width_dest == power2::pow2((reply % 16) as nat)
            &&& probe.width_src == power2::pow2((reply as int / 256 % 16) as nat)
        },
{
    law_probing_stays_on_program(probing, reply);
    let after = probing.after(reply);
    let all = bus::accesses(after.trace);
    assert forall|i: int| 0 <= i < after.trace.len() implies #[trigger] after.trace[i].access
        == all[i] by {}
    if probing.step(reply) is Done {
        law_capabilities(
            after.trace[2].reply,
            after.trace[5].reply,
            after.trace[7].reply,
            after.trace[9].reply,
            after.trace[10].reply,
        );
    }
}

/// Whether the register keeps the bits of a mask: what is read from it after a write is what was
/// written last, as far as the mask goes.
pub open spec fn keeps(trace: Seq<Exchange>, register: Register, mask: u32) -> bool {
    forall|i: int, j: int|
        0 <= i < j < trace.len() && #[trigger] trace[j].access == Access::Read(register) && (
        #[trigger] trace[i].access is Write) && trace[i].access->Write_0 == register && (forall|
            k: int,
        |
            i < k < j ==> !bus::writes_to(#[trigger] trace[k].access, register)) ==> trace[j].reply
            == trace[i].access->Write_1 & mask
}

/// A whole detection on registers that keep the bits of masks finds these masks: the core repeats
/// transfers if it keeps the cyclic flag, its longest transfer is what the length keeps, and an
/// interface is memory mapped if its address keeps any bit.
pub proof fn law_detection_finds_what_sticks(
    probing: ProbingView,
    reply: u32,
    flags_mask: u32,
    length_mask: u32,
    dest_mask: u32,
    src_mask: u32,
)
    requires
        probing.running(),
        probing.step(reply) is Done,
        keeps(probing.after(reply).trace, Register::Flags, flags_mask),
        keeps(probing.after(reply).trace, Register::XLength, length_mask),
        keeps(probing.after(reply).trace, Register::DestAddress, dest_mask),
        keeps(probing.after(reply).trace, Register::SrcAddress, src_mask),
    ensures
        probing.step(reply) matches Progress::Done(probe) && {
            &&& probe.hw_cyclic <==> flags_mask % 2 == 1
            &&& probe.max_length == length_mask
            &&& probe.dest_mem_mapped <==> dest_mask != 0
            &&& probe.src_mem_mapped <==> src_mask != 0
        },
{
    law_probing_ends(probing, reply);
    law_probe_finds_what_sticks(flags_mask, length_mask, dest_mask, src_mask, reply);
    fields::law_bit_is_a_binary_digit(flags_mask);
    let trace = probing.after(reply).trace;
    assert(trace[2].reply == trace[1].access->Write_1 & flags_mask);
    assert(trace[5].reply == trace[4].access->Write_1 & length_mask);
    assert(trace[7].reply == trace[6].access->Write_1 & dest_mask);
    assert(trace[9].reply == trace[8].access->Write_1 & src_mask);
}

/// After a write the reply has no effect: the detection goes on with the same access whatever it
/// is.
pub proof fn law_probing_ignores_write_replies(probing: ProbingView, a: u32, b: u32)
    requires
        probing.running(),
        probing.next() is Write,
    ensures
        probing.step(a) is Pending,
        probing.step(b) is Pending,
        probing.after(a).next() == probing.after(b).next(),
{
    law_probing_ends(probing, a);
    law_probing_ends(probing, b);
}

/// A detection leaves the flags as they were, and writes neither to the control register nor to
/// the interrupt registers nor to the queue.
pub proof fn law_probing_restores_flags(flags: u32)
    ensures
        bus::last_write(probing(flags), Register::Flags) == Some(flags),
        bus::last_write(probing(flags), Register::Control) == None::<u32>,
        bus::last_write(probing(flags), Register::IrqMask) == None::<u32>,
        bus::last_write(probing(flags), Register::IrqPending) == None::<u32>,
        bus::last_write(probing(flags), Register::StartTransfer) == None::<u32>,
{
    let all = probing(flags);
    bus::lemma_last_write_at(all, Register::Flags, 3);
    bus::lemma_no_last_write(all, Register::Control);
    bus::lemma_no_last_write(all, Register::IrqMask);
    bus::lemma_no_last_write(all, Register::IrqPending);
    bus::lemma_no_last_write(all, Register::StartTransfer);
}

/// The access of a detection that comes next.
#[derive(Clone, Copy, Debug)]
enum Stage {
    ReadFlags,
    SetCyclic,
    ReadCyclic,
    RestoreFlags,
    FillLength,
    ReadLength,
    FillDestAddress,
    ReadDestAddress,
    FillSrcAddress,
    ReadSrcAddress,
    ReadInterface,
}

/// A detection of the capabilities of a core.
#[must_use]
pub struct Probing {
    stage: Stage,
    initial_flags: u32,
    cyclic_flags: u32,
    x_length: u32,
    dest_address: u32,
    src_address: u32,
    trace: Ghost<Seq<Exchange>>,
}

impl View for Probing {
    type V = ProbingView;

    closed spec fn view(&self) -> ProbingView {
        ProbingView { trace: self.trace@ }
    }
}

impl Probing {
    /// How many accesses come before this one.
    spec fn place(self) -> int {
        match self.stage {
            Stage::ReadFlags => 0,
            Stage::SetCyclic => 1,
            Stage::ReadCyclic => 2,
            Stage::RestoreFlags => 3,
            Stage::FillLength => 4,
            Stage::ReadLength => 5,
            Stage::FillDestAddress => 6,
            Stage::ReadDestAddress => 7,
            Stage::FillSrcAddress => 8,
            Stage::ReadSrcAddress => 9,
            Stage::ReadInterface => 10,
        }
    }

    #[verifier::type_invariant]
    spec fn wf(self) -> bool {
        &&& self.trace@.len() == self.place()
        &&& self@.on_program()
        &&& self.initial_flags == bus::reply_at(self.trace@, 0)
        &&& self.cyclic_flags == bus::reply_at(self.trace@, 2)
        &&& self.x_length == bus::reply_at(self.trace@, 5)
        &&& self.dest_address == bus::reply_at(self.trace@, 7)
        &&& self.src_address == bus::reply_at(self.trace@, 9)
    }

    /// Starts to detect the capabilities of a core.
    pub fn new() -> (r: Self)
        ensures
            r@.trace.len() == 0,
            r@.running(),
    {
        let trace: Ghost<Seq<Exchange>> = Ghost(Seq::empty());
        proof {
            law_probing_stays_on_program(ProbingView { trace: trace@ }, 0);
        }
        Probing {
            stage: Stage::ReadFlags,
            initial_flags: 0,
            cyclic_flags: 0,
            x_length: 0,
            dest_address: 0,
            src_address: 0,
            trace,
        }
    }

    /// The access to perform next.
    pub fn access(&self) -> (r: Access)
        ensures
            r == self@.next(),
            self@.running(),
    {
        proof {
            use_type_invariant(self);
            assert(fields::put_bit(0, 0, true) == 1) by (bit_vector);
        }
        match self.stage {
            // Check if a hardware cyclic transfer is possible, then restore the flags
            Stage::ReadFlags => Access::Read(Register::Flags),
            Stage::SetCyclic => Access::Write(
                Register::Flags,
                Flags::default().with_cyclic(true).raw_value(),
            ),
            Stage::ReadCyclic => Access::Read(Register::Flags),
            Stage::RestoreFlags => Access::Write(Register::Flags, self.initial_flags),
            Stage::FillLength => Access::Write(Register::XLength, u32::MAX),
            Stage::ReadLength => Access::Read(Register::XLength),
            Stage::FillDestAddress => Access::Write(Register::DestAddress, u32::MAX),
            Stage::ReadDestAddress => Access::Read(Register::DestAddress),
            Stage::FillSrcAddress => Access::Write(Register::SrcAddress, u32::MAX),
            Stage::ReadSrcAddress => Access::Read(Register::SrcAddress),
            Stage::ReadInterface => Access::Read(Register::InterfaceDescription),
        }
    }

    /// Goes on after the access was performed. `reply` is the value that was read, and has no
    /// effect after a write.
    pub fn resume(self, reply: u32) -> (r: Progress<Probing, Probe>)
        ensures
            match self@.step(reply) {
                Progress::Pending(v) => r matches Progress::Pending(p) && p@ == v,
                Progress::Done(v) => r matches Progress::Done(p) && p@ == v,
            },
            self@.running(),
            r matches Progress::Pending(p) ==> p@.running() && p@.trace == self@.trace.push(
                Exchange { access: self@.next(), reply },
            ),
            r matches Progress::Done(p) ==> {
                &&& self@.next() == Access::Read(Register::InterfaceDescription)
                &&& self@.trace.len() == 10
                &&& p@.hw_cyclic == (self@.trace[2].reply == 1)
                &&& p@.max_length == self@.trace[5].reply
                &&& p@.dest_mem_mapped == (self@.trace[7].reply != 0)
                &&& p@.src_mem_mapped == (self@.trace[9].reply != 0)
                &&& p@.width_dest == power2::pow2((reply % 16) as nat)
                &&& p@.width_src == power2::pow2((reply as int / 256 % 16) as nat)
            },
    {
        proof {
            use_type_invariant(&self);
            law_probing_stays_on_program(self@, reply);
            law_probing_ends(self@, reply);
        }
        let mut initial_flags: u32 = self.initial_flags;
        let mut cyclic_flags: u32 = self.cyclic_flags;
        let mut x_length: u32 = self.x_length;
        let mut dest_address: u32 = self.dest_address;
        let mut src_address: u32 = self.src_address;
        let stage = match self.stage {
            Stage::ReadFlags => {
                initial_flags = reply;
                Stage::SetCyclic
            },
            Stage::SetCyclic => Stage::ReadCyclic,
            Stage::ReadCyclic => {
                cyclic_flags = reply;
                Stage::RestoreFlags
            },
            Stage::RestoreFlags => Stage::FillLength,
            Stage::FillLength => Stage::ReadLength,
            Stage::ReadLength => {
                x_length = reply;
                Stage::FillDestAddress
            },
            Stage::FillDestAddress => Stage::ReadDestAddress,
            Stage::ReadDestAddress => {
                dest_address = reply;
                Stage::FillSrcAddress
            },
            Stage::FillSrcAddress => Stage::ReadSrcAddress,
            Stage::ReadSrcAddress => {
                src_address = reply;
                Stage::ReadInterface
            },
            Stage::ReadInterface => {
                return Progress::Done(
                    Probe::new(
                        Flags::new_with_raw_value(cyclic_flags),
                        x_length,
                        dest_address,
                        src_address,
                        InterfaceDescription::new_with_raw_value(reply),
                    ),
                );
            },
        };
        let trace: Ghost<Seq<Exchange>> = Ghost(self@.after(reply).trace);
        Progress::Pending(
            Probing {
                stage,
                initial_flags,
                cyclic_flags,
                x_length,
                dest_address,
                src_address,
                trace,
            },
        )
    }
}

} // verus!
