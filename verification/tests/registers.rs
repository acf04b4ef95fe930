use axi_dmac::regs::fields::{Control, Flags, InterfaceDescription, Irq, StartTransfer};
use axi_dmac::regs::{Register, BLOCK_SIZE};

#[test]
fn registers_lie_where_the_core_has_them() {
    assert_eq!(BLOCK_SIZE, 0x428);
    assert_eq!(Register::Version.offset(), 0);
    assert_eq!(Register::InterfaceDescription.offset(), 0x10);
    assert_eq!(Register::IrqMask.offset(), 0x80);
    assert_eq!(Register::IrqSource.offset(), 0x88);
    assert_eq!(Register::Control.offset(), 0x400);
    assert_eq!(Register::StartTransfer.offset(), 0x408);
    assert_eq!(Register::Flags.offset(), 0x40C);
    assert_eq!(Register::DestAddress.offset(), 0x410);
    assert_eq!(Register::XLength.offset(), 0x418);
    assert_eq!(Register::SrcStride.offset(), 0x424);
}

#[test]
fn bits_read_back_and_keep_the_others() {
    let irq = Irq::new_with_raw_value(0xABCD_EF00);
    assert!(!irq.start_of_transfer() && !irq.end_of_transfer());
    assert_eq!(irq.with_start_of_transfer(true).raw_value(), 0xABCD_EF01);
    assert_eq!(irq.with_end_of_transfer(true).raw_value(), 0xABCD_EF02);
    assert!(irq.with_end_of_transfer(true).end_of_transfer());
    let control = Control::new_with_raw_value(u32::MAX);
    assert!(control.enable() && control.pause());
    assert_eq!(control.with_enable(false).raw_value(), 0xFFFF_FFFE);
    assert_eq!(control.with_pause(false).raw_value(), 0xFFFF_FFFD);
    assert!(!control.with_pause(false).pause());
    assert_eq!(StartTransfer::default().with_submit(true).raw_value(), 1);
    assert!(StartTransfer::new_with_raw_value(3).submit());
    assert_eq!(Flags::default().with_cyclic(true).raw_value(), 1);
    assert!(!Flags::new_with_raw_value(2).cyclic());
}

#[test]
fn the_interface_description_holds_two_nibbles() {
    let interface = InterfaceDescription::new_with_raw_value(0xFFFF_F5FA);
    assert_eq!(interface.bytes_per_beat_dest_log2(), 0xA);
    assert_eq!(interface.bytes_per_beat_src_log2(), 5);
    assert_eq!(interface.raw_value(), 0xFFFF_F5FA);
    assert_eq!(InterfaceDescription::default().bytes_per_beat_src_log2(), 0);
}

#[test]
fn registers_do_not_overlap() {
    let registers = [
        Register::Version,
        Register::PeripheralId,
        Register::Scratch,
        Register::Identification,
        Register::InterfaceDescription,
        Register::IrqMask,
        Register::IrqPending,
        Register::IrqSource,
        Register::Control,
        Register::TransferId,
        Register::StartTransfer,
        Register::Flags,
        Register::DestAddress,
        Register::SrcAddress,
        Register::XLength,
        Register::YLength,
        Register::DestStride,
        Register::SrcStride,
    ];
    for pair in registers.windows(2) {
        assert_eq!(pair[0].offset() % 4, 0);
        assert!(pair[0].offset() + 4 <= pair[1].offset());
    }
    assert_eq!(Register::SrcStride.offset() + 4, BLOCK_SIZE);
}
