use nextcore_ise::memory_boot::MemoryRunResultV1;
use nextcore_ise::platform::{BootOptionsV2, BootResultV2, PlatformState, PROFILE_IRQ_COMPAT_V1, PROFILE_NONE};

#[test]
fn platform_abi_receipt() {
    println!(
        "VF_PLATFORM_ABI {{\"options_size\":{},\"options_align\":{},\"result_size\":{},\"result_align\":{}}}",
        core::mem::size_of::<BootOptionsV2>(),
        core::mem::align_of::<BootOptionsV2>(),
        core::mem::size_of::<BootResultV2>(),
        core::mem::align_of::<BootResultV2>()
    );
    assert_eq!(core::mem::size_of::<BootOptionsV2>(), 64);
    assert_eq!(core::mem::size_of::<BootResultV2>(), 128);
}

#[test]
fn boot_records_default_to_zero() {
    let options = BootOptionsV2::default();
    assert_eq!(options.initial_override, 0);
    let result = MemoryRunResultV1::default();
    assert_eq!(result.execution.base.retired, 0);
    assert_eq!(result.fetch_requests, 0);
}

#[test]
fn override_configuration_is_checked_and_transactional() {
    let mut state = PlatformState::reset();
    assert!(state.irq_enabled());
    assert!(state.fiq_enabled());
    assert!(!state.configure(PROFILE_NONE, 0x0020_0000));
    assert!(!state.configure(2, 0));
    assert!(!state.configure(PROFILE_IRQ_COMPAT_V1, 0x0010_0000));
    assert!(!state.configure(PROFILE_IRQ_COMPAT_V1, 0x0100_0000));
    assert_eq!((state.profile, state.override_value), (0, 0));
    assert!(state.configure(PROFILE_IRQ_COMPAT_V1, 0x0080_0000));
    assert!(!state.irq_enabled());
    assert!(state.fiq_enabled());
    assert!(state.configure(PROFILE_IRQ_COMPAT_V1, 0x0020_0000));
    assert!(state.irq_enabled());
    assert!(!state.fiq_enabled());
}
