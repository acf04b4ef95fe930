//! # Register definitions.
use vstd::prelude::*;

pub mod fields;

verus! {

/// Bytes of the register block.
pub const BLOCK_SIZE: usize = 0x428;

/// The registers of the core.
#[derive(Clone, Copy, Debug, PartialEq, Eq, Structural)]
pub enum Register {
    /// Core version.
    Version,
    /// Peripheral ID.
    PeripheralId,
    /// Scratch register.
    Scratch,
    /// Identification, reads `DMAC` as ASCII.
    Identification,
    /// Interface description: the widths of the source and destination interfaces.
    InterfaceDescription,
    /// Interrupt mask. A set bit masks the interrupt.
    IrqMask,
    /// Pending interrupts (the unmasked sources). Writing 1 clears the source bit.
    IrqPending,
    /// Interrupt sources, latched regardless of the mask.
    IrqSource,
    /// Control register.
    Control,
    /// ID of the last submitted transfer.
    TransferId,
    /// Transfer submission register.
    StartTransfer,
    /// Flags of the next transfer.
    Flags,
    /// Destination address of the next transfer.
    DestAddress,
    /// Source address of the next transfer.
    SrcAddress,
    /// Bytes per row of the next transfer, minus one.
    XLength,
    /// Rows of the next transfer, minus one.
    YLength,
    /// Destination stride between two rows.
    DestStride,
    /// Source stride between two rows.
    SrcStride,
}

impl Register {
    /// Where the register lies in the register block, in bytes.
    pub open spec fn spec_offset(&self) -> usize {
        match *self {
            Register::Version => 0x00,
            Register::PeripheralId => 0x04,
            Register::Scratch => 0x08,
            Register::Identification => 0x0C,
            Register::InterfaceDescription => 0x10,
            Register::IrqMask => 0x80,
            Register::IrqPending => 0x84,
            Register::IrqSource => 0x88,
            Register::Control => 0x400,
            Register::TransferId => 0x404,
            Register::StartTransfer => 0x408,
            Register::Flags => 0x40C,
            Register::DestAddress => 0x410,
            Register::SrcAddress => 0x414,
            Register::XLength => 0x418,
            Register::YLength => 0x41C,
            Register::DestStride => 0x420,
            Register::SrcStride => 0x424,
        }
    }

    /// Where the register lies in the register block, in bytes.
    #[verifier::when_used_as_spec(spec_offset)]
    pub fn offset(&self) -> (r: usize)
        ensures
            r == self.offset(),
    {
        match *self {
            Register::Version => 0x00,
            Register::PeripheralId => 0x04,
            Register::Scratch => 0x08,
            Register::Identification => 0x0C,
            Register::InterfaceDescription => 0x10,
            Register::IrqMask => 0x80,
            Register::IrqPending => 0x84,
            Register::IrqSource => 0x88,
            Register::Control => 0x400,
            Register::TransferId => 0x404,
            Register::StartTransfer => 0x408,
            Register::Flags => 0x40C,
            Register::DestAddress => 0x410,
            Register::SrcAddress => 0x414,
            Register::XLength => 0x418,
            Register::YLength => 0x41C,
            Register::DestStride => 0x420,
            Register::SrcStride => 0x424,
        }
    }

    /// Whether the core only offers the register for reading.
    pub open spec fn read_only(self) -> bool {
        ||| self is Version
        ||| self is PeripheralId
        ||| self is Identification
        ||| self is InterfaceDescription
        ||| self is IrqSource
        ||| self is TransferId
    }
}

/// Every register is an aligned 32 bit word within the register block, and no two overlap.
pub proof fn law_register_layout(a: Register, b: Register)
    ensures
        a.offset() % 4 == 0,
        a.offset() + 4 <= BLOCK_SIZE,
        a != b ==> a.offset() + 4 <= b.offset() || b.offset() + 4 <= a.offset(),
{
}

/// The registers lie in three blocks of consecutive words.
pub proof fn law_register_blocks()
    ensures
        Register::Version.offset() == 0,
        Register::PeripheralId.offset() == Register::Version.offset() + 4,
        Register::Scratch.offset() == Register::PeripheralId.offset() + 4,
        Register::Identification.offset() == Register::Scratch.offset() + 4,
        Register::InterfaceDescription.offset() == Register::Identification.offset() + 4,
        Register::IrqMask.offset() == 0x80,
        Register::IrqPending.offset() == Register::IrqMask.offset() + 4,
        Register::IrqSource.offset() == Register::IrqPending.offset() + 4,
        Register::Control.offset() == 0x400,
        Register::TransferId.offset() == Register::Control.offset() + 4,
        Register::StartTransfer.offset() == Register::TransferId.offset() + 4,
        Register::Flags.offset() == Register::StartTransfer.offset() + 4,
        Register::DestAddress.offset() == Register::Flags.offset() + 4,
        Register::SrcAddress.offset() == Register::DestAddress.offset() + 4,
        Register::XLength.offset() == Register::SrcAddress.offset() + 4,
        Register::YLength.offset() == Register::XLength.offset() + 4,
        Register::DestStride.offset() == Register::YLength.offset() + 4,
        Register::SrcStride.offset() == Register::DestStride.offset() + 4,
        BLOCK_SIZE == Register::SrcStride.offset() + 4,
{
}

} // verus!
