//! Errors of the drivers.
use vstd::prelude::*;

verus! {

/// Errors of the DMAC drivers.
#[derive(Debug, Clone, Copy, PartialEq, Eq, Structural)]
pub enum Error {
    /// Neither the source nor the destination of the core is memory mapped.
    UnsupportedInterfaces,
    /// The core does not go in the direction of the driver type, or can not repeat transfers in
    /// hardware.
    WrongCore,
    /// The transfer is empty or longer than the core supports.
    InvalidLength,
    /// The address is not aligned to the width of the interface.
    Misaligned,
    /// The transfer queue of the core is full.
    QueueFull,
}

impl Error {
    /// The error in words.
    pub fn message(&self) -> (r: &'static str)
        ensures
            r@ == (match *self {
                Error::UnsupportedInterfaces =>
                    "neither the source nor the destination is memory mapped"@,
                Error::WrongCore => "the core does not have the direction or the mode of this driver"@,
                Error::InvalidLength => "the transfer is empty or too long"@,
                Error::Misaligned => "the address is not aligned to the interface width"@,
                Error::QueueFull => "the transfer queue is full"@,
            }),
    {
        match *self {
            Error::UnsupportedInterfaces => "neither the source nor the destination is memory mapped",
            Error::WrongCore => "the core does not have the direction or the mode of this driver",
            Error::InvalidLength => "the transfer is empty or too long",
            Error::Misaligned => "the address is not aligned to the interface width",
            Error::QueueFull => "the transfer queue is full",
        }
    }
}

} // verus!
