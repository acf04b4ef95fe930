use axi_dmac::bus::{Access, Progress};
use axi_dmac::probe::{Probe, Probing};
use axi_dmac::regs::fields::{Control, Flags, InterfaceDescription, Irq, StartTransfer};
use axi_dmac::regs::{Register, BLOCK_SIZE};
use axi_dmac::rx::{RxDmac, RxTransfer};
use axi_dmac::submission::{Core, Starting, Stopping};
use axi_dmac::tx::TxDmac;
use axi_dmac::Error;

/// A buffer aligned for the 8 byte interfaces of the test cores.
struct Buffer([u32; 68]);

impl Buffer {
    fn new() -> Buffer {
        Buffer([0; 68])
    }

    /// 64 words at a multiple of 16 bytes.
    fn words(&mut self) -> &mut [u32] {
        let skip = (16 - self.0.as_ptr() as usize % 16) % 16 / 4;
        &mut self.0[skip..skip + 64]
    }
}

/// Registers that keep what is written to them, except for the bits outside of `mask`. The test
/// plays the part of the core.
struct Hardware {
    words: Vec<u32>,
    mask: Vec<u32>,
    log: Vec<Access>,
}

impl Hardware {
    fn new() -> Hardware {
        Hardware {
            words: vec![0; BLOCK_SIZE / 4],
            mask: vec![u32::MAX; BLOCK_SIZE / 4],
            log: vec![],
        }
    }

    fn read(&self, register: Register) -> u32 {
        self.words[register.offset() / 4]
    }

    fn set(&mut self, register: Register, value: u32) {
        self.words[register.offset() / 4] = value;
    }

    fn limit(&mut self, register: Register, mask: u32) {
        self.mask[register.offset() / 4] = mask;
    }

    /// The core reports the interrupt sources `source`.
    fn report(&mut self, source: Irq) {
        self.set(Register::IrqSource, source.raw_value());
    }

    /// Performs an access. After a write, the reply is a value that must not matter.
    fn perform(&mut self, access: Access) -> u32 {
        self.log.push(access);
        match access {
            Access::Read(register) => self.read(register),
            Access::Write(register, value) => {
                let mask = self.mask[register.offset() / 4];
                self.set(register, value & mask);
                0xDEAD_BEEF
            }
        }
    }

    fn control(&self) -> Control {
        Control::new_with_raw_value(self.read(Register::Control))
    }

    fn start_transfer(&self) -> StartTransfer {
        StartTransfer::new_with_raw_value(self.read(Register::StartTransfer))
    }

    fn irq(&self, register: Register) -> Irq {
        Irq::new_with_raw_value(self.read(register))
    }

    fn flags(&self) -> Flags {
        Flags::new_with_raw_value(self.read(Register::Flags))
    }

    fn probe(&mut self) -> Probe {
        let mut probing = Probing::new();
        loop {
            let reply = self.perform(probing.access());
            match probing.resume(reply) {
                Progress::Pending(next) => probing = next,
                Progress::Done(probe) => return probe,
            }
        }
    }

    fn submit(
        &mut self,
        core: &Core,
        address: usize,
        size: usize,
        to_memory: bool,
        cyclic: bool,
    ) -> Result<(), Error> {
        let mut submission = core.submit(address, size, to_memory, cyclic)?;
        loop {
            let reply = self.perform(submission.access());
            match submission.resume(reply) {
                Progress::Pending(next) => submission = next,
                Progress::Done(result) => return result,
            }
        }
    }

    fn run<T>(&mut self, mut starting: Starting<T>) -> Result<T, Error> {
        loop {
            let reply = self.perform(starting.access());
            match starting.resume(reply) {
                Progress::Pending(next) => starting = next,
                Progress::Done(result) => return result,
            }
        }
    }

    fn stop(&mut self, mut stopping: Stopping<'_>) {
        loop {
            let reply = self.perform(stopping.access());
            match stopping.resume(reply) {
                Progress::Pending(next) => stopping = next,
                Progress::Done(()) => return,
            }
        }
    }

    fn try_finish<'a>(&mut self, transfer: RxTransfer<'a>) -> Result<(), RxTransfer<'a>> {
        let mut finishing = transfer.try_finish();
        loop {
            let reply = self.perform(finishing.access());
            match finishing.resume(reply) {
                Progress::Pending(next) => finishing = next,
                Progress::Done(result) => return result,
            }
        }
    }
}

/// A running transfer on a core. Dropping it stops the core.
struct Running<'h, 'a> {
    hardware: &'h mut Hardware,
    transfer: Option<RxTransfer<'a>>,
}

impl Drop for Running<'_, '_> {
    fn drop(&mut self) {
        if let Some(transfer) = self.transfer.take() {
            self.hardware.stop(transfer.abort());
        }
    }
}

fn test_core(max_length: u32, width: u32) -> Core {
    Core { max_length, width }
}

/// A probe with the memory on the destination side, 8 bytes wide.
fn rx_probe(max_length: u32) -> Probe {
    Probe::new(
        Flags::default(),
        max_length,
        u32::MAX,
        0,
        InterfaceDescription::new_with_raw_value((2 << 8) | 3),
    )
}

/// A probe with the memory on the source side, 4 bytes wide.
fn tx_probe(max_length: u32) -> Probe {
    Probe::new(
        Flags::default().with_cyclic(true),
        max_length,
        0,
        u32::MAX,
        InterfaceDescription::new_with_raw_value((2 << 8) | 3),
    )
}

fn rx(max_length: u32) -> RxDmac {
    match RxDmac::from_probe(rx_probe(max_length)) {
        Ok(dmac) => dmac,
        Err(e) => panic!("{}", e.message()),
    }
}

fn tx(max_length: u32) -> TxDmac {
    match TxDmac::from_probe(tx_probe(max_length)) {
        Ok(dmac) => dmac,
        Err(e) => panic!("{}", e.message()),
    }
}

#[test]
fn interface_description_gives_the_widths() {
    let mut hardware = Hardware::new();
    // 8 bytes per beat at the destination, 4 at the source
    let interface = InterfaceDescription::new_with_raw_value((2 << 8) | 3);
    hardware.set(Register::InterfaceDescription, interface.raw_value());
    let probe = hardware.probe();
    assert_eq!((probe.width_dest(), probe.width_src()), (8, 4));
}

#[test]
fn transfer_is_submitted_to_the_memory_side() {
    let mut hardware = Hardware::new();
    let core = test_core(0xFFFF, 8);
    hardware.submit(&core, 0x1000_0000, 4096, true, false).unwrap();
    assert_eq!(hardware.read(Register::DestAddress), 0x1000_0000);
    assert_eq!(hardware.read(Register::DestStride), 0);
    assert_eq!(hardware.read(Register::XLength), 4095);
    assert_eq!(hardware.read(Register::YLength), 0);
    assert!(hardware.start_transfer().submit());
    // The core is enabled with the interrupts masked, and the transfer is not cyclic
    assert!(hardware.control().enable());
    assert!(hardware.irq(Register::IrqMask).start_of_transfer());
    assert!(hardware.irq(Register::IrqMask).end_of_transfer());
    assert!(!hardware.flags().cyclic());
}

#[test]
fn cyclic_transfer_sets_the_flag_and_the_source_address() {
    let mut hardware = Hardware::new();
    let core = test_core(0xFFFF, 8);
    hardware.submit(&core, 0x2000_0000, 1024, false, true).unwrap();
    assert_eq!(hardware.read(Register::SrcAddress), 0x2000_0000);
    assert_eq!(hardware.read(Register::XLength), 1023);
    assert!(hardware.flags().cyclic());
}

#[test]
fn bad_transfers_are_rejected_before_touching_the_queue() {
    let mut hardware = Hardware::new();
    let core = test_core(0xFF, 8);
    assert_eq!(
        hardware.submit(&core, 0x1000, 0, true, false),
        Err(Error::InvalidLength)
    );
    assert_eq!(
        hardware.submit(&core, 0x1000, 0x101, true, false),
        Err(Error::InvalidLength)
    );
    assert_eq!(
        hardware.submit(&core, 0x1004, 64, true, false),
        Err(Error::Misaligned)
    );
    assert!(!hardware.start_transfer().submit());
    // The core was not accessed at all
    assert!(hardware.log.is_empty());
}

#[test]
fn a_full_queue_is_reported() {
    let mut hardware = Hardware::new();
    let core = test_core(0xFFFF, 8);
    hardware.submit(&core, 0x1000, 64, true, false).unwrap();
    // The submit bit reads back as set: the queue is full
    assert_eq!(
        hardware.submit(&core, 0x1000, 64, true, false),
        Err(Error::QueueFull)
    );
}

#[test]
fn rx_transfer_finishes_when_start_and_end_are_reported() {
    let mut hardware = Hardware::new();
    let mut rx = rx(0xFFFF);
    let mut buffer = Buffer::new();
    let starting = rx.start(buffer.words()).ok().unwrap();
    let transfer = hardware.run(starting).ok().unwrap();

    // Only the start was reported
    hardware.report(Irq::default().with_start_of_transfer(true));
    let transfer = hardware.try_finish(transfer).err().unwrap();

    hardware.report(
        Irq::default()
            .with_start_of_transfer(true)
            .with_end_of_transfer(true),
    );
    assert!(hardware.try_finish(transfer).is_ok());
    // The reported bits were cleared, and the core is left enabled
    let pending = hardware.irq(Register::IrqPending);
    assert!(pending.start_of_transfer() && pending.end_of_transfer());
    assert!(hardware.control().enable());
}

#[test]
fn dropping_a_transfer_stops_the_core() {
    let mut hardware = Hardware::new();
    let mut rx = rx(0xFFFF);
    let mut buffer = Buffer::new();
    let starting = rx.start(buffer.words()).ok().unwrap();
    let transfer = hardware.run(starting).ok().unwrap();
    assert!(hardware.control().enable());
    drop(Running {
        hardware: &mut hardware,
        transfer: Some(transfer),
    });
    assert!(!hardware.control().enable());
}

#[test]
fn a_submission_to_a_disabled_core_makes_these_accesses() {
    let mut hardware = Hardware::new();
    hardware.submit(&test_core(0xFFFF, 8), 0x1000, 64, true, false).unwrap();
    assert_eq!(
        hardware.log,
        vec![
            Access::Write(Register::Flags, 0),
            Access::Read(Register::Control),
            Access::Write(Register::Control, 0),
            Access::Write(Register::Control, 1),
            Access::Write(Register::IrqMask, 3),
            Access::Read(Register::StartTransfer),
            Access::Read(Register::IrqSource),
            Access::Write(Register::IrqPending, 0),
            Access::Write(Register::DestAddress, 0x1000),
            Access::Write(Register::DestStride, 0),
            Access::Write(Register::XLength, 63),
            Access::Write(Register::YLength, 0),
            Access::Write(Register::StartTransfer, 1),
        ]
    );
}

#[test]
fn an_enabled_core_is_left_alone() {
    let mut hardware = Hardware::new();
    hardware.set(Register::Control, 3);
    hardware.set(Register::IrqSource, 0xF2);
    hardware.submit(&test_core(0xFFFF, 8), 0x1000, 64, false, true).unwrap();
    assert_eq!(
        hardware.log,
        vec![
            Access::Write(Register::Flags, 1),
            Access::Read(Register::Control),
            Access::Read(Register::StartTransfer),
            Access::Write(Register::SrcAddress, 0x1000),
            Access::Write(Register::SrcStride, 0),
            Access::Write(Register::XLength, 63),
            Access::Write(Register::YLength, 0),
            Access::Write(Register::StartTransfer, 1),
        ]
    );
    assert_eq!(hardware.read(Register::Control), 3);
    // A transfer from memory does not touch the interrupts either
    assert_eq!(hardware.read(Register::IrqPending), 0);
}

#[test]
fn an_enabled_core_clears_what_it_reported_before_a_transfer_into_memory() {
    let mut hardware = Hardware::new();
    hardware.set(Register::Control, 1);
    hardware.set(Register::IrqSource, 0xF2);
    hardware.submit(&test_core(0xFFFF, 8), 0x1000, 64, true, false).unwrap();
    assert_eq!(
        hardware.log,
        vec![
            Access::Write(Register::Flags, 0),
            Access::Read(Register::Control),
            Access::Read(Register::StartTransfer),
            Access::Read(Register::IrqSource),
            Access::Write(Register::IrqPending, 0xF2),
            Access::Write(Register::DestAddress, 0x1000),
            Access::Write(Register::DestStride, 0),
            Access::Write(Register::XLength, 63),
            Access::Write(Register::YLength, 0),
            Access::Write(Register::StartTransfer, 1),
        ]
    );
}

#[test]
fn nothing_is_put_into_a_full_queue() {
    let mut hardware = Hardware::new();
    hardware.set(Register::StartTransfer, 0xFF);
    assert_eq!(
        hardware.submit(&test_core(0xFFFF, 8), 0x1000, 64, true, false),
        Err(Error::QueueFull)
    );
    assert_eq!(hardware.log.last(), Some(&Access::Read(Register::StartTransfer)));
    assert_eq!(hardware.read(Register::DestAddress), 0);
    assert_eq!(hardware.read(Register::XLength), 0);
    assert_eq!(hardware.read(Register::StartTransfer), 0xFF);
}

#[test]
fn the_longest_transfer_is_accepted() {
    let mut hardware = Hardware::new();
    assert_eq!(rx(0xFF).max_transfer_bytes(), 0x100);
    hardware.submit(&test_core(0xFF, 8), 0x1000, 0x100, true, false).unwrap();
    assert_eq!(hardware.read(Register::XLength), 0xFF);
}

#[test]
fn lengths_are_not_cut_to_32_bits() {
    let long: u64 = (1 << 32) + 64;
    if let Ok(size) = usize::try_from(long) {
        let mut hardware = Hardware::new();
        assert_eq!(
            hardware.submit(&test_core(0xFFFF, 8), 0x1000, size, true, false),
            Err(Error::InvalidLength)
        );
        // The longest transfer of a core that keeps all 32 bits of the length
        let all = test_core(u32::MAX, 8);
        assert_eq!(tx(u32::MAX).max_transfer_bytes(), 1 << 32);
        hardware.submit(&all, 0x1000, size - 64, true, false).unwrap();
        assert_eq!(hardware.read(Register::XLength), u32::MAX);
    }
}

#[test]
fn addresses_are_used_as_32_bit_values() {
    if let Ok(address) = usize::try_from(0x12_3456_7890_u64) {
        let mut hardware = Hardware::new();
        hardware.submit(&test_core(0xFFFF, 16), address, 64, true, false).unwrap();
        assert_eq!(hardware.read(Register::DestAddress), 0x3456_7890);
    }
}

#[test]
fn the_core_gets_the_address_of_the_buffer() {
    let mut hardware = Hardware::new();
    let mut rx = rx(0xFFFF);
    let mut buffer = Buffer::new();
    let address = format!("{:p}", buffer.words().as_ptr());
    let starting = rx.start(buffer.words()).ok().unwrap();
    hardware.run(starting).ok().unwrap();
    let expected = u64::from_str_radix(&address[2..], 16).unwrap() & 0xFFFF_FFFF;
    assert_eq!(u64::from(hardware.read(Register::DestAddress)), expected);
    assert_eq!(hardware.read(Register::XLength), 255);
    assert!(!hardware.flags().cyclic());
}

#[test]
fn a_misaligned_buffer_is_refused() {
    let mut rx = rx(0xFFFF);
    let mut buffer = Buffer::new();
    assert_eq!(rx.start(&mut buffer.words()[1..]).err(), Some(Error::Misaligned));
    assert_eq!(rx.start(&mut buffer.words()[..0]).err(), Some(Error::InvalidLength));
    assert!(rx.start(&mut buffer.words()[2..]).is_ok());
}

#[test]
fn aligned_elements_are_always_accepted() {
    // The source interface is 4 bytes wide
    let mut tx = tx(0xFFFF);
    let buffer = [0u32; 5];
    for start in 0..5 {
        assert!(tx.start_cyclic(&buffer[start..]).is_ok());
    }
    assert_eq!(tx.start_cyclic(&buffer[5..]).err(), Some(Error::InvalidLength));
}

#[test]
fn a_cyclic_transfer_runs_until_it_is_stopped() {
    let mut hardware = Hardware::new();
    let mut tx = tx(0xFFFF);
    let mut buffer = Buffer::new();
    let starting = tx.start_cyclic(buffer.words()).ok().unwrap();
    let transfer = hardware.run(starting).ok().unwrap();
    assert!(hardware.flags().cyclic());
    assert_eq!(hardware.read(Register::XLength), 255);
    assert!(hardware.control().enable());
    let stopping = transfer.stop();
    assert_eq!(stopping.access(), Access::Write(Register::Control, 0));
    hardware.stop(stopping);
    assert!(!hardware.control().enable());
}

#[test]
fn start_reports_a_full_queue() {
    let mut hardware = Hardware::new();
    hardware.set(Register::StartTransfer, 1);
    let mut rx = rx(0xFFFF);
    let mut buffer = Buffer::new();
    let starting = rx.start(buffer.words()).ok().unwrap();
    assert_eq!(hardware.run(starting).err(), Some(Error::QueueFull));
}

#[test]
fn finishing_acknowledges_what_was_read() {
    let mut hardware = Hardware::new();
    let mut rx = rx(0xFFFF);
    let mut buffer = Buffer::new();
    let starting = rx.start(buffer.words()).ok().unwrap();
    let transfer = hardware.run(starting).ok().unwrap();
    assert!(!transfer.is_finished(Irq::new_with_raw_value(0)));
    assert!(!transfer.is_finished(Irq::new_with_raw_value(1)));
    assert!(!transfer.is_finished(Irq::new_with_raw_value(2)));
    assert!(transfer.is_finished(Irq::new_with_raw_value(3)));

    // An unfinished transfer causes one read and no write
    hardware.log.clear();
    hardware.report(Irq::new_with_raw_value(0xF2));
    let transfer = hardware.try_finish(transfer).err().unwrap();
    assert_eq!(hardware.log, vec![Access::Read(Register::IrqSource)]);

    hardware.log.clear();
    hardware.report(Irq::new_with_raw_value(0xF3));
    assert!(hardware.try_finish(transfer).is_ok());
    assert_eq!(
        hardware.log,
        vec![
            Access::Read(Register::IrqSource),
            Access::Read(Register::IrqSource),
            Access::Write(Register::IrqPending, 0xF3),
        ]
    );
}

#[test]
fn probing_makes_these_accesses_and_restores_the_flags() {
    let mut hardware = Hardware::new();
    hardware.set(Register::Flags, 0x1234);
    hardware.limit(Register::XLength, 0xFF_FFFF);
    hardware.limit(Register::SrcAddress, 0);
    hardware.set(Register::InterfaceDescription, 0xFF0);
    let probe = hardware.probe();
    assert_eq!(
        hardware.log,
        vec![
            Access::Read(Register::Flags),
            Access::Write(Register::Flags, 1),
            Access::Read(Register::Flags),
            Access::Write(Register::Flags, 0x1234),
            Access::Write(Register::XLength, u32::MAX),
            Access::Read(Register::XLength),
            Access::Write(Register::DestAddress, u32::MAX),
            Access::Read(Register::DestAddress),
            Access::Write(Register::SrcAddress, u32::MAX),
            Access::Read(Register::SrcAddress),
            Access::Read(Register::InterfaceDescription),
        ]
    );
    assert_eq!(hardware.read(Register::Flags), 0x1234);
    assert!(probe.hw_cyclic());
    assert_eq!(probe.max_length(), 0xFF_FFFF);
    assert!(probe.dest_mem_mapped());
    assert!(!probe.src_mem_mapped());
    assert_eq!(probe.width_dest(), 1);
    assert_eq!(probe.width_src(), 1 << 15);
    assert_eq!(RxDmac::from_probe(probe).ok().unwrap().max_transfer_bytes(), 0x100_0000);
}

#[test]
fn a_core_is_driven_in_the_direction_that_it_has() {
    // The masks of the flags, the destination address and the source address, and the errors
    let none: Option<Error> = None;
    let wrong = Some(Error::WrongCore);
    let unsupported = Some(Error::UnsupportedInterfaces);
    let cases = [
        (1, 0xFFFF_FFF8, 0, none, wrong),
        (0, 0xFFFF_FFF8, 0, none, wrong),
        (1, 0, 0xFFFF_FFF8, wrong, none),
        (0, 0, 0xFFFF_FFF8, wrong, wrong),
        (1, 0xFFFF_FFF8, 0xFFFF_FFF8, wrong, wrong),
        (1, 0, 0, unsupported, unsupported),
    ];
    for (flags, dest, src, rx_error, tx_error) in cases {
        let mut hardware = Hardware::new();
        hardware.limit(Register::Flags, flags);
        hardware.limit(Register::DestAddress, dest);
        hardware.limit(Register::SrcAddress, src);
        let probe = hardware.probe();
        assert_eq!(RxDmac::from_probe(probe).err(), rx_error);
        let probe = hardware.probe();
        assert_eq!(TxDmac::from_probe(probe).err(), tx_error);
    }
}

#[test]
fn errors_have_messages() {
    assert_eq!(
        Error::UnsupportedInterfaces.message(),
        "neither the source nor the destination is memory mapped"
    );
    assert_eq!(
        Error::WrongCore.message(),
        "the core does not have the direction or the mode of this driver"
    );
    assert_eq!(Error::InvalidLength.message(), "the transfer is empty or too long");
    assert_eq!(
        Error::Misaligned.message(),
        "the address is not aligned to the interface width"
    );
    assert_eq!(Error::QueueFull.message(), "the transfer queue is full");
}

#[test]
fn a_stopped_core_is_enabled_again() {
    let mut hardware = Hardware::new();
    let mut rx = rx(0xFFFF);
    let mut buffer = Buffer::new();
    let starting = rx.start(buffer.words()).ok().unwrap();
    let transfer = hardware.run(starting).ok().unwrap();
    hardware.stop(transfer.abort());
    assert!(!hardware.control().enable());

    // The core took the transfer out of the queue
    hardware.set(Register::StartTransfer, 0);
    let starting = rx.start(buffer.words()).ok().unwrap();
    assert!(hardware.run(starting).is_ok());
    assert!(hardware.control().enable());
    assert_eq!(hardware.read(Register::IrqMask), 3);
}

/// Performs an access on a core that clears the interrupt sources which are written to the
/// pending register.
fn perform_clearing(hardware: &mut Hardware, access: Access) -> u32 {
    if let Access::Write(Register::IrqPending, cleared) = access {
        let source = hardware.read(Register::IrqSource);
        hardware.set(Register::IrqSource, source & !cleared);
    }
    hardware.perform(access)
}

fn run_clearing<T>(hardware: &mut Hardware, mut starting: Starting<T>) -> Result<T, Error> {
    loop {
        let reply = perform_clearing(hardware, starting.access());
        match starting.resume(reply) {
            Progress::Pending(next) => starting = next,
            Progress::Done(result) => return result,
        }
    }
}

#[test]
fn a_transfer_that_was_given_up_does_not_end_the_next_one() {
    let both = Irq::default()
        .with_start_of_transfer(true)
        .with_end_of_transfer(true);
    let mut hardware = Hardware::new();
    let mut rx = rx(0xFFFF);
    let mut first = Buffer::new();
    let starting = rx.start(first.words()).ok().unwrap();
    let transfer = run_clearing(&mut hardware, starting).ok().unwrap();
    // The transfer is given up after the core reported its start and its end
    hardware.report(both);
    hardware.stop(transfer.abort());
    assert_eq!(hardware.read(Register::IrqSource), 3);

    // Nothing is reported of the next transfer yet
    hardware.set(Register::StartTransfer, 0);
    let mut second = Buffer::new();
    let starting = rx.start(second.words()).ok().unwrap();
    let transfer = run_clearing(&mut hardware, starting).ok().unwrap();
    assert_eq!(hardware.read(Register::IrqSource), 0);
    let transfer = hardware.try_finish(transfer).err().unwrap();

    hardware.report(both);
    assert!(hardware.try_finish(transfer).is_ok());
}

#[test]
fn a_full_queue_keeps_what_was_reported() {
    let mut hardware = Hardware::new();
    hardware.set(Register::StartTransfer, 1);
    hardware.set(Register::IrqSource, 3);
    let mut rx = rx(0xFFFF);
    let mut buffer = Buffer::new();
    let starting = rx.start(buffer.words()).ok().unwrap();
    assert_eq!(run_clearing(&mut hardware, starting).err(), Some(Error::QueueFull));
    assert_eq!(hardware.read(Register::IrqSource), 3);
}

#[test]
fn a_refused_buffer_keeps_its_elements() {
    let mut rx = rx(0x7F);
    let mut buffer = Buffer::new();
    buffer.words()[63] = 7;
    assert_eq!(rx.start(buffer.words()).err(), Some(Error::InvalidLength));
    assert_eq!(buffer.words()[63], 7);
    assert_eq!(buffer.words()[..63], [0; 63]);
    // The capabilities stay as they were probed
    assert_eq!(rx.max_transfer_bytes(), 0x80);
    assert!(rx.start(&mut buffer.words()[..32]).is_ok());
    assert_eq!(rx.max_transfer_bytes(), 0x80);
}
