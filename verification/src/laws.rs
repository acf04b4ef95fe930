//! What holds of all operations on a core.
use vstd::prelude::*;

use crate::bus;
use crate::bus::{Access, Progress};
use crate::probe;
use crate::probe::ProbingView;
use crate::regs::fields;
use crate::regs::Register;
use crate::rx;
use crate::rx::FinishingView;
use crate::submission;
use crate::submission::{Request, SubmissionView};

verus! {

/// No operation writes to a register that can only be read, whatever values are read.
pub proof fn law_accesses_are_permitted(
    request: Request,
    control: u32,
    queue: u32,
    source: u32,
    flags: u32,
    first: u32,
    second: u32,
)
    ensures
        bus::permitted(probe::probing(flags)),
        bus::permitted(submission::submitting(request, control, queue, source)),
        bus::permitted(rx::finishing(first, second)),
        bus::permitted(seq![submission::disabling()]),
{
}

/// The interrupts of the core stay masked: no operation unmasks one, whatever values are read.
pub proof fn law_interrupts_stay_masked(
    request: Request,
    control: u32,
    queue: u32,
    source: u32,
    flags: u32,
    first: u32,
    second: u32,
)
    ensures
        bus::keeps_masked(probe::probing(flags)),
        bus::keeps_masked(submission::submitting(request, control, queue, source)),
        bus::keeps_masked(rx::finishing(first, second)),
        bus::keeps_masked(seq![submission::disabling()]),
{
    assert(fields::bit(3, 0) && fields::bit(3, 1)) by (bit_vector);
}

/// Whatever state an operation is in, its next access writes to one of the registers that can be
/// written, if it writes at all, and never unmasks an interrupt.
pub proof fn law_next_write(
    submission: SubmissionView,
    probing: ProbingView,
    finishing: FinishingView,
    register: Register,
    value: u32,
)
    requires
        ({
            let write = Access::Write(register, value);
            ||| submission.running() && submission.next() == write
            ||| probing.running() && probing.next() == write
            ||| finishing.running() && finishing.next() == write
        }),
    ensures
        register != Register::Version,
        register != Register::PeripheralId,
        register != Register::Scratch,
        register != Register::Identification,
        register != Register::InterfaceDescription,
        register != Register::IrqSource,
        register != Register::TransferId,
        register == Register::IrqMask ==> value % 4 == 3,
{
    let n = submission.trace.len() as int;
    let q = submission.queue_place();
    let request = submission.request;
    if submission.running() && n > q {
        let tail = submission::clearing(request, submission.source()) + submission::queueing(
            request,
        );
        assert(submission.next() == tail[n - q - 1]);
    }
}

/// Stopping a transfer disables the core, and the next transfer on a core that kept the value
/// enables it again.
pub proof fn law_stopped_core_is_enabled_again(request: Request, queue: u32, source: u32)
    ensures
        submission::disabling() matches Access::Write(register, control) && {
            &&& register == Register::Control
            &&& control == 0
            &&& !fields::bit(control, 0)
            &&& bus::last_write(
                submission::submitting(request, control, queue, source),
                Register::Control,
            ) matches Some(written) && fields::bit(written, 0)
        },
{
    assert(!fields::bit(0, 0)) by (bit_vector);
    submission::law_core_is_enabled_once(request, 0, queue, source);
}

/// A transfer into memory that was just submitted is not finished, whatever the core reported
/// before, of a transfer that was given up for example: nothing of it is reported any more. As long
/// as the core reports nothing new, trying to finish the transfer gives it back.
pub proof fn law_new_transfer_is_not_finished(
    request: Request,
    control: u32,
    queue: u32,
    source: u32,
)
    requires
        request.to_memory,
        !fields::bit(queue, 0),
    ensures
        ({
            let reported = bus::latched(
                source,
                submission::submitting(request, control, queue, source),
            );
            let start = FinishingView { trace: Seq::empty() };
            &&& reported == 0
            &&& !rx::finished(reported)
            &&& start.next() == Access::Read(Register::IrqSource)
            &&& start.step(reported) == Progress::<FinishingView, bool>::Done(false)
        }),
{
    let all = submission::submitting(request, control, queue, source);
    let q: int = if fields::bit(control, 0) {
        2
    } else {
        5
    };
    assert(all[q + 2] == submission::clearing(request, source)[1]);
    bus::lemma_latched_cleared(source, all, q + 2);
    assert(!fields::bit(0, 0)) by (bit_vector);
}

/// Neither stopping a core nor submitting a transfer from memory clears what the core reported.
/// That is left to the next submission of a transfer into memory.
pub proof fn law_reports_are_kept(
    request: Request,
    control: u32,
    queue: u32,
    unread: u32,
    source: u32,
)
    requires
        !request.to_memory,
    ensures
        bus::latched(source, seq![submission::disabling()]) == source,
        bus::latched(source, submission::submitting(request, control, queue, unread)) == source,
{
    bus::lemma_latched_unchanged(source, seq![submission::disabling()]);
    bus::lemma_latched_unchanged(source, submission::submitting(request, control, queue, unread));
}

} // verus!
