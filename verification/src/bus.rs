//! Register accesses, one at a time.
//!
//! An operation of the driver says which access comes next. Its caller performs the access on
//! the registers of the core and resumes the operation with the value that was read. After a
//! write there is no such value, and whatever the operation is resumed with has no effect.
use vstd::prelude::*;

use crate::regs::fields;
use crate::regs::Register;

verus! {

/// One access to a register of the core.
#[derive(Clone, Copy, Debug, PartialEq, Eq, Structural)]
pub enum Access {
    /// Reads the register.
    Read(Register),
    /// Writes the value to the register.
    Write(Register, u32),
}

/// What an operation answers when it is resumed.
pub enum Progress<P, T> {
    /// There is another access to perform.
    Pending(P),
    /// The operation is over, with this result.
    Done(T),
}

/// An access that was performed, with the value that the operation was resumed with.
pub struct Exchange {
    pub access: Access,
    pub reply: u32,
}

/// The reply to the access at place `i`, or 0 where that access has not been performed yet.
pub open spec fn reply_at(trace: Seq<Exchange>, i: int) -> u32 {
    if 0 <= i < trace.len() {
        trace[i].reply
    } else {
        0
    }
}

/// The accesses of a trace, in order.
pub open spec fn accesses(trace: Seq<Exchange>) -> Seq<Access> {
    trace.map_values(|e: Exchange| e.access)
}

/// The value that the accesses write to the register last, if they write to it.
pub open spec fn last_write(accesses: Seq<Access>, register: Register) -> Option<u32>
    decreases accesses.len(),
{
    if accesses.len() == 0 {
        None
    } else {
        match accesses.last() {
            Access::Write(r, value) if r == register => Some(value),
            _ => last_write(accesses.drop_last(), register),
        }
    }
}

/// Whether the access writes to the register.
pub open spec fn writes_to(access: Access, register: Register) -> bool {
    access matches Access::Write(r, _) && r == register
}

/// The last write to a register is the one that no other write to it follows.
pub(crate) proof fn lemma_last_write_at(accesses: Seq<Access>, register: Register, i: int)
    requires
        0 <= i < accesses.len(),
        writes_to(accesses[i], register),
        forall|j: int| i < j < accesses.len() ==> !writes_to(#[trigger] accesses[j], register),
    ensures
        last_write(accesses, register) == Some(accesses[i]->Write_1),
    decreases accesses.len(),
{
    if i < accesses.len() - 1 {
        assert(!writes_to(accesses[accesses.len() - 1], register));
        lemma_last_write_at(accesses.drop_last(), register, i);
    }
}

/// Where nothing is written to a register, there is no last write to it.
pub(crate) proof fn lemma_no_last_write(accesses: Seq<Access>, register: Register)
    requires
        forall|j: int| 0 <= j < accesses.len() ==> !writes_to(#[trigger] accesses[j], register),
    ensures
        last_write(accesses, register) == None::<u32>,
    decreases accesses.len(),
{
    if accesses.len() > 0 {
        assert(!writes_to(accesses[accesses.len() - 1], register));
        lemma_no_last_write(accesses.drop_last(), register);
    }
}

/// The interrupt sources that are still reported after the accesses, of those in `source`: a
/// write to the pending register clears the bits that it sets.
pub open spec fn latched(source: u32, accesses: Seq<Access>) -> u32
    decreases accesses.len(),
{
    if accesses.len() == 0 {
        source
    } else {
        let before = latched(source, accesses.drop_last());
        match accesses.last() {
            Access::Write(Register::IrqPending, cleared) => before & !cleared,
            _ => before,
        }
    }
}

/// Interrupt sources stay reported as long as the pending register is not written.
pub(crate) proof fn lemma_latched_unchanged(source: u32, accesses: Seq<Access>)
    requires
        forall|j: int|
            0 <= j < accesses.len() ==> !writes_to(#[trigger] accesses[j], Register::IrqPending),
    ensures
        latched(source, accesses) == source,
    decreases accesses.len(),
{
    if accesses.len() > 0 {
        assert(!writes_to(accesses[accesses.len() - 1], Register::IrqPending));
        lemma_latched_unchanged(source, accesses.drop_last());
    }
}

/// Once all interrupt sources that were reported have been written to the pending register, none
/// of them is reported any more.
pub(crate) proof fn lemma_latched_cleared(source: u32, accesses: Seq<Access>, i: int)
    requires
        0 <= i < accesses.len(),
        accesses[i] == Access::Write(Register::IrqPending, source),
        forall|j: int|
            0 <= j < accesses.len() && j != i ==> !writes_to(
                #[trigger] accesses[j],
                Register::IrqPending,
            ),
    ensures
        latched(source, accesses) == 0,
    decreases accesses.len(),
{
    if i < accesses.len() - 1 {
        assert(!writes_to(accesses[accesses.len() - 1], Register::IrqPending));
        lemma_latched_cleared(source, accesses.drop_last(), i);
    } else {
        lemma_latched_unchanged(source, accesses.drop_last());
        assert(source & !source == 0) by (bit_vector);
    }
}

/// The accesses of a trace are those that were performed, one for one.
pub proof fn law_accesses(trace: Seq<Exchange>)
    ensures
        accesses(trace).len() == trace.len(),
        forall|i: int| 0 <= i < trace.len() ==> #[trigger] accesses(trace)[i] == trace[i].access,
{
}

/// The last write to a register is a write to it that no other one follows. There is none exactly
/// if nothing is written to the register.
pub proof fn law_last_write(accesses: Seq<Access>, register: Register)
    ensures
        match last_write(accesses, register) {
            Some(value) => exists|i: int|
                0 <= i < accesses.len() && #[trigger] accesses[i] == Access::Write(register, value)
                    && forall|j: int|
                    i < j < accesses.len() ==> (#[trigger] accesses[j] matches Access::Write(r, _)
                        ==> r != register),
            None => forall|j: int|
                0 <= j < accesses.len() ==> (#[trigger] accesses[j] matches Access::Write(r, _)
                    ==> r != register),
        },
    decreases accesses.len(),
{
    if accesses.len() > 0 {
        let n = accesses.len() - 1;
        let before = accesses.drop_last();
        law_last_write(before, register);
        if writes_to(accesses[n], register) {
            assert(accesses[n] == Access::Write(register, accesses[n]->Write_1));
        } else if last_write(before, register) is Some {
            let value = last_write(before, register)->0;
            let i = choose|i: int|
                0 <= i < before.len() && #[trigger] before[i] == Access::Write(register, value)
                    && forall|j: int|
                    i < j < before.len() ==> (#[trigger] before[j] matches Access::Write(r, _) ==> r
                        != register);
            assert(accesses[i] == Access::Write(register, value));
            assert forall|j: int| i < j < accesses.len() implies (
            #[trigger] accesses[j] matches Access::Write(r, _) ==> r != register) by {
                if j < n {
                    assert(before[j] == accesses[j]);
                }
            }
        } else {
            assert forall|j: int| 0 <= j < accesses.len() implies (
            #[trigger] accesses[j] matches Access::Write(r, _) ==> r != register) by {
                if j < n {
                    assert(before[j] == accesses[j]);
                }
            }
        }
    }
}

/// A source is still reported exactly if it was reported and no write to the pending register has
/// its bit set.
pub proof fn law_latched(source: u32, accesses: Seq<Access>, n: u32)
    requires
        n < 32,
    ensures
        fields::bit(latched(source, accesses), n) <==> fields::bit(source, n) && forall|i: int|
            0 <= i < accesses.len() ==> (#[trigger] accesses[i] matches Access::Write(
                Register::IrqPending,
                cleared,
            ) ==> !fields::bit(cleared, n)),
    decreases accesses.len(),
{
    if accesses.len() > 0 {
        let last = accesses.len() - 1;
        let before = accesses.drop_last();
        law_latched(source, before, n);
        let old = latched(source, before);
        if writes_to(accesses[last], Register::IrqPending) {
            let cleared = accesses[last]->Write_1;
            assert(accesses[last] == Access::Write(Register::IrqPending, cleared));
            assert(fields::bit(old & !cleared, n) == (fields::bit(old, n) && !fields::bit(
                cleared,
                n,
            ))) by (bit_vector)
                requires
                    n < 32,
            ;
        }
        assert forall|i: int| 0 <= i < last implies #[trigger] accesses[i] == before[i] by {}
        assert forall|i: int| 0 <= i < last implies #[trigger] before[i] == accesses[i] by {}
    }
}

/// Whether the accesses write only to registers that can be written.
pub open spec fn permitted(accesses: Seq<Access>) -> bool {
    forall|i: int|
        0 <= i < accesses.len() ==> (#[trigger] accesses[i] matches Access::Write(r, _)
            ==> !r.read_only())
}

/// Whether the accesses leave both interrupts masked that were masked before.
pub open spec fn keeps_masked(accesses: Seq<Access>) -> bool {
    forall|i: int|
        0 <= i < accesses.len() ==> (#[trigger] accesses[i] matches Access::Write(
            Register::IrqMask,
            mask,
        ) ==> fields::bit(mask, 0) && fields::bit(mask, 1))
}

} // verus!
