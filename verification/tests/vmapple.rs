use nextcore_ise::vmapple::{
    VfVmappleMachine, BDIF_READY, UART_FR_RXFE, UART_FR_TXFE, VMAPPLE_AES_BASE, VMAPPLE_CONFIG_BASE,
    VMAPPLE_FIRMWARE_BASE, VMAPPLE_PCIE_ECAM_BASE, VMAPPLE_PCIE_MMIO_BASE, VMAPPLE_PCIE_MMIO_BYTES,
    VMAPPLE_PVPANIC_BASE, VMAPPLE_UART_BASE,
};

#[test]
fn graph_has_fixed_guest_visible_devices_and_reset() {
    let mut machine = VfVmappleMachine::new(2, 0x4000_0000, 0x1234).unwrap();
    assert!(machine.valid());
    assert_eq!(machine.read(VMAPPLE_CONFIG_BASE, 4), Some(2));
    assert_eq!(machine.read(VMAPPLE_CONFIG_BASE + 0x018, 8), Some(0x1234));
    assert_eq!(machine.read(VMAPPLE_UART_BASE + 0x018, 4), Some(u64::from(UART_FR_TXFE | UART_FR_RXFE)));
    assert!(machine.write(VMAPPLE_UART_BASE, 1, b'V' as u64));
    assert_eq!(machine.uart_last_byte, b'V');
    assert!(machine.write(VMAPPLE_PVPANIC_BASE, 2, 1));
    assert_eq!(machine.pvpanic_state, 1);
    assert_eq!(machine.read(VMAPPLE_AES_BASE, 4), Some(0));
    assert_eq!(machine.read(VMAPPLE_PCIE_ECAM_BASE, 4), Some(0));
    assert!(!machine.write(VMAPPLE_AES_BASE, 4, 1));
    assert!(!machine.write(VMAPPLE_PCIE_MMIO_BASE, 4, 1));
    let generation = machine.reset_generation;
    machine.reset();
    assert!(machine.reset_generation > generation);
    assert_eq!(machine.pvpanic_state, 0);
    assert_eq!(machine.storage_state, BDIF_READY);
}

#[test]
fn invalid_width_alignment_and_unknown_registers_fail_closed() {
    let mut machine = VfVmappleMachine::new(1, 0x4000_0000, 0).unwrap();
    assert_eq!(machine.read(VMAPPLE_UART_BASE + 1, 4), None);
    assert_eq!(machine.read(VMAPPLE_UART_BASE, 16), None);
    assert!(!machine.write(VMAPPLE_CONFIG_BASE, 4, 1));
    assert!(!machine.write(VMAPPLE_UART_BASE + 4, 4, 1));
    assert!(!machine.write(VMAPPLE_FIRMWARE_BASE, 4, 1));
    assert_eq!(machine.read(VMAPPLE_PCIE_MMIO_BASE + VMAPPLE_PCIE_MMIO_BYTES, 4), None);
    assert_eq!(machine.read(0xdead_0000, 4), None);
}

#[test]
fn machine_rejects_zero_or_too_many_cpus() {
    assert!(VfVmappleMachine::new(0, 0x4000_0000, 0).is_none());
    assert!(VfVmappleMachine::new(33, 0x4000_0000, 0).is_none());
}
