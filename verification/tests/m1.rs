use nextcore_ise::m1::{
    crc32, M1DeviceKind, M1DisplayFault, M1DisplayFormat, M1DmaAccess, M1DmaFault, M1MachineGraph, M1MmioFault,
    M1RecoveryFault, M1RecoveryTransport, M1StorageFault, DISPLAY_SOURCE, M1_COUNTER_FREQUENCY, M1_CPU_COUNT,
    M1_DART_GRANULE, M1_INTERRUPT_SOURCES, M1_LOGICAL_AIC_BASE, M1_LOGICAL_DART_BASE, M1_LOGICAL_DISPLAY_BASE,
    M1_LOGICAL_FIRMWARE_BASE, M1_LOGICAL_RECOVERY_BASE, M1_LOGICAL_STORAGE_BASE, M1_LOGICAL_TIMER_BASE,
    M1_LOGICAL_UART_BASE, M1_RECOVERY_HEADER_BYTES, M1_SOC_T8103, M1_STORAGE_BLOCK_BYTES, RECOVERY_SOURCE,
    STORAGE_SOURCE, TIMER_SOURCE,
};

#[test]
fn graph_is_m1_only_and_reset_is_synchronous() {
    let mut graph = M1MachineGraph::new(0x20_000);
    assert!(graph.valid());
    assert!(!graph.runtime_active);
    assert_eq!(graph.identity.soc_id, M1_SOC_T8103);
    assert_eq!(graph.identity.cpu_count, M1_CPU_COUNT);
    assert!(graph.device_ready(M1DeviceKind::Aic));
    assert!(graph.device_ready(M1DeviceKind::Dart));
    let generation = graph.reset_generation;
    graph.timer.counter = 99;
    graph.display.frame_count = 2;
    graph.reset();
    assert!(graph.reset_generation > generation);
    assert_eq!(graph.timer.counter, 0);
    assert_eq!(graph.display.frame_count, 0);
    assert!(!graph.handoff.prepared);
    assert!(!graph.runtime_active);
}

#[test]
fn runtime_activation_wires_contract_sources_to_cpu_zero() {
    let mut graph = M1MachineGraph::new(0x20_000);
    assert!(graph.activate_runtime());
    assert!(graph.runtime_active);
    assert_eq!(graph.aic.targets[TIMER_SOURCE as usize], 1);
    assert_eq!(graph.aic.targets[STORAGE_SOURCE as usize], 1);
    assert_eq!(graph.aic.targets[DISPLAY_SOURCE as usize], 1);
    assert_eq!(graph.aic.targets[RECOVERY_SOURCE as usize], 1);
    assert_eq!(graph.take_interrupt(0), None);
    assert!(graph.sync_guest_timer(3, 0, 0));
    assert_eq!(graph.timer.counter, 3);
    assert_eq!(graph.take_interrupt(0), None);
    assert!(graph.sync_guest_timer(4, 1, 4));
    assert_eq!(graph.take_interrupt(0), Some(TIMER_SOURCE));
}

#[test]
fn dart_mapping_executes_bounded_dma_and_invalidates() {
    let mut graph = M1MachineGraph::new(0x4000);
    let mut guest = [0u8; 0x4000];
    guest[0..4].copy_from_slice(b"M1!!");
    assert_eq!(graph.map_dma(7, 0x10_000, 0, M1_DART_GRANULE, M1DmaAccess::Bidirectional), Ok(()));
    let mut destination = [0u8; 4];
    assert_eq!(graph.dma_read(7, 0x10_000, &mut destination, &guest), Ok(()));
    assert_eq!(&destination, b"M1!!");
    assert_eq!(graph.dma_write(7, 0x10_004, b"DMA!", &mut guest), Ok(()));
    assert_eq!(&guest[4..8], b"DMA!");
    assert_eq!(
        graph.map_dma(7, 0x10_000, 0x1000, M1_DART_GRANULE, M1DmaAccess::DeviceReadGuest),
        Err(M1DmaFault::Overlap)
    );
    assert!(graph.unmap_dma(7, 0x10_000, M1_DART_GRANULE));
    assert_eq!(graph.dma_read(7, 0x10_000, &mut destination, &guest), Err(M1DmaFault::Unmapped));
}

#[test]
fn dart_permissions_and_ram_bounds_are_distinct() {
    let mut graph = M1MachineGraph::new(0x2000);
    assert_eq!(graph.map_dma(1, 0x4000, 0x1000, M1_DART_GRANULE, M1DmaAccess::DeviceReadGuest), Ok(()));
    let mut ram = [0u8; 0x2000];
    let mut out = [0u8; 4];
    assert_eq!(graph.dma_write(1, 0x4000, b"nope", &mut ram), Err(M1DmaFault::Permission));
    assert_eq!(graph.dma_read(1, 0x5000, &mut out, &ram), Err(M1DmaFault::Unmapped));
    assert_eq!(
        graph.map_dma(2, 0x8000, 0x1000, 0x2000, M1DmaAccess::Bidirectional),
        Err(M1DmaFault::InvalidArguments)
    );
}

#[test]
fn timer_is_routed_through_aic_and_acknowledged() {
    let mut graph = M1MachineGraph::new(0x4000);
    assert!(graph.route_interrupt(TIMER_SOURCE, 1 << 3));
    graph.program_timer(10, true, false);
    graph.tick(9);
    assert_eq!(graph.take_interrupt(3), None);
    graph.tick(1);
    assert_eq!(graph.take_interrupt(3), Some(TIMER_SOURCE));
    assert_eq!(graph.take_interrupt(0), None);
    assert!(graph.acknowledge_interrupt(TIMER_SOURCE));
    assert_eq!(graph.take_interrupt(3), None);
}

#[test]
fn display_contract_has_mmio_and_present_irq() {
    let mut graph = M1MachineGraph::new(0x4000);
    assert_eq!(graph.present_display(), Err(M1DisplayFault::NotConfigured));
    assert_eq!(
        graph.configure_display(0x1000, 1920 * 4 * 2, 1920, 2, 1920 * 4, M1DisplayFormat::Xrgb8888),
        Ok(())
    );
    assert_eq!(graph.display_mmio_read(0x04, 4), Some(1920));
    assert_eq!(graph.display_mmio_write(0, 4, 1), Ok(()));
    assert_eq!(graph.display_mmio_read(0, 4), Some(0b111));
    assert_eq!(graph.take_interrupt(0), Some(DISPLAY_SOURCE));
}

#[test]
fn recovery_envelope_checks_length_crc_sequence_and_keeps_signature_unknown() {
    let payload = b"opaque-27-recovery-input";
    let mut frame = [0u8; M1_RECOVERY_HEADER_BYTES + 64];
    let length = M1RecoveryTransport::encode(0, 3, payload, &mut frame).unwrap();
    let mut graph = M1MachineGraph::new(0x4000);
    assert_eq!(graph.ingest_recovery(&frame[..length]), Ok(payload.len()));
    assert_eq!(graph.recovery_payload(), payload);
    assert!(!graph.recovery.signature_verified);
    assert_eq!(graph.take_interrupt(0), Some(RECOVERY_SOURCE));
    assert_eq!(graph.ingest_recovery(&frame[..length]), Err(M1RecoveryFault::Sequence));
    frame[length - 1] ^= 1;
    assert_eq!(graph.ingest_recovery(&frame[..length]), Err(M1RecoveryFault::BadChecksum));
}

#[test]
fn storage_backend_is_caller_owned_and_bounded() {
    let mut graph = M1MachineGraph::new(0x4000);
    assert!(graph.attach_storage(2, false));
    let mut backend = [0u8; M1_STORAGE_BLOCK_BYTES * 2];
    let source = [0x5au8; M1_STORAGE_BLOCK_BYTES];
    assert_eq!(graph.storage.write(1, &source, &mut backend), Ok(()));
    let mut destination = [0u8; M1_STORAGE_BLOCK_BYTES];
    assert_eq!(graph.storage.read(1, &backend, &mut destination), Ok(()));
    assert_eq!(destination, source);
    graph.storage.read_only = true;
    assert_eq!(graph.storage.write(0, &source, &mut backend), Err(M1StorageFault::ReadOnly));
}

#[test]
fn firmware_handoff_requires_in_ram_aligned_metadata() {
    let mut graph = M1MachineGraph::new(0x4000);
    assert!(graph.configure_handoff(0x100, 0x2000, 0x100));
    assert!(graph.handoff.prepared);
    assert!(!graph.handoff.signature_verified);
    assert!(!graph.configure_handoff(0x101, 0x2000, 0x100));
    assert!(!graph.configure_handoff(0x100, 0x3ff8, 0x100));
}

#[test]
fn logical_mmio_dispatch_covers_every_m1_graph_device() {
    let mut graph = M1MachineGraph::new(0x20_000);
    assert_eq!(graph.mmio_read(M1_LOGICAL_FIRMWARE_BASE, 32), Ok(u64::from(M1_SOC_T8103)));
    assert_eq!(graph.mmio_read(M1_LOGICAL_AIC_BASE + 0x08, 64), Ok(u64::MAX));
    assert_eq!(graph.mmio_read(M1_LOGICAL_TIMER_BASE + 0x18, 64), Ok(M1_COUNTER_FREQUENCY));
    assert_eq!(graph.mmio_read(M1_LOGICAL_DART_BASE, 32), Ok(0));
    assert_eq!(graph.mmio_read(M1_LOGICAL_STORAGE_BASE, 64), Ok(0));
    assert_eq!(graph.mmio_read(M1_LOGICAL_RECOVERY_BASE, 32), Ok(0));
    assert_eq!(graph.mmio_read(M1_LOGICAL_DISPLAY_BASE, 32), Ok(0));
    assert_eq!(graph.mmio_read(M1_LOGICAL_UART_BASE + 0x04, 32), Ok(1));

    assert_eq!(graph.configure_display(0x1000, 16 * 4, 4, 4, 16, M1DisplayFormat::Xrgb8888), Ok(()));
    assert_eq!(graph.mmio_write(M1_LOGICAL_DISPLAY_BASE, 32, 1), Ok(()));
    assert_eq!(graph.mmio_read(M1_LOGICAL_DISPLAY_BASE, 32), Ok(0b111));
    assert_eq!(graph.mmio_write(M1_LOGICAL_UART_BASE, 32, 0x41), Ok(()));
    assert_eq!(graph.mmio_read(M1_LOGICAL_UART_BASE, 32), Ok(0x41));
}

#[test]
fn logical_mmio_connects_timer_and_aic_semantics() {
    let mut graph = M1MachineGraph::new(0x20_000);
    assert!(graph.activate_runtime());
    assert_eq!(graph.mmio_write(M1_LOGICAL_TIMER_BASE + 0x08, 64, 7), Ok(()));
    assert_eq!(graph.mmio_write(M1_LOGICAL_TIMER_BASE + 0x10, 32, 1), Ok(()));
    graph.tick(7);
    assert_eq!(graph.mmio_read(M1_LOGICAL_AIC_BASE, 64), Ok(1));
    assert_eq!(graph.mmio_write(M1_LOGICAL_AIC_BASE + 0x10, 32, TIMER_SOURCE as u64), Ok(()));
    assert_eq!(graph.mmio_read(M1_LOGICAL_AIC_BASE, 64), Ok(0));
}

#[test]
fn logical_mmio_is_bounded_and_fail_closed() {
    let mut graph = M1MachineGraph::new(0x20_000);
    assert_eq!(graph.mmio_read(0x8000, 32), Err(M1MmioFault::Unmapped));
    assert_eq!(graph.mmio_read(M1_LOGICAL_TIMER_BASE, 16), Err(M1MmioFault::InvalidWidth));
    assert_eq!(graph.mmio_read(M1_LOGICAL_TIMER_BASE + 0xfff, 32), Err(M1MmioFault::OutOfRange));
    assert_eq!(graph.mmio_write(M1_LOGICAL_FIRMWARE_BASE, 32, 1), Err(M1MmioFault::ReadOnly));
    assert_eq!(graph.mmio_write(M1_LOGICAL_DISPLAY_BASE + 0x04, 32, 1), Err(M1MmioFault::InvalidRegister));
    assert_eq!(graph.mmio_write(M1_LOGICAL_UART_BASE, 32, 0x100), Err(M1MmioFault::InvalidRegister));
    assert_eq!(
        graph.mmio_write(M1_LOGICAL_AIC_BASE + 0x08, 64, 1 << M1_INTERRUPT_SOURCES),
        Err(M1MmioFault::InvalidRegister)
    );
    assert_eq!(graph.mmio_write(M1_LOGICAL_AIC_BASE + 0x18, 64, 0), Err(M1MmioFault::InvalidRegister));
    assert_eq!(
        graph.mmio_write(M1_LOGICAL_AIC_BASE + 0x18, 64, (1 << 8) | (1 << (8 + M1_CPU_COUNT))),
        Err(M1MmioFault::InvalidRegister)
    );
}

#[test]
fn crc32_matches_the_standard_check_value() {
    assert_eq!(crc32(b"123456789"), 0xcbf4_3926);
    assert_eq!(crc32(b""), 0);
}

#[test]
fn recovery_frame_round_trips_payload() {
    let payload = [1u8, 2, 3, 4, 5];
    let mut frame = [0u8; 64];
    let length = M1RecoveryTransport::encode(0, 9, &payload, &mut frame).unwrap();
    assert_eq!(length, M1_RECOVERY_HEADER_BYTES + payload.len());
    let mut transport = M1RecoveryTransport::reset();
    assert_eq!(transport.ingest(&frame[..length]), Ok(payload.len()));
    assert_eq!(transport.payload(), &payload[..]);
    assert_eq!(transport.flags, 9);
    let mut small = [0u8; 8];
    assert_eq!(M1RecoveryTransport::encode(0, 0, &payload, &mut small), Err(M1RecoveryFault::OutputTooSmall));
}
