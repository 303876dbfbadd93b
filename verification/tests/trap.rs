use nextcore_ise::trap::{TrapAction, TrapHandler, TrapType};

#[test]
fn test_handle_vex_invalid_opcode() {
    let inst_bytes = [0xC5, 0xF1, 0x58];
    let result = TrapHandler::handle_trap(TrapType::InvalidOpcode, &inst_bytes);
    assert!(result.is_ok());
    match result.unwrap() {
        TrapAction::Emulate(inst) => assert!(inst.is_avx),
        _ => panic!("expected Emulate"),
    }
}

#[test]
fn test_handle_gp_fault() {
    let result = TrapHandler::handle_trap(TrapType::GeneralProtectionFault, &[]);
    assert!(result.is_ok());
    assert!(matches!(result.unwrap(), TrapAction::Fatal(_)));
}

#[test]
fn test_handle_non_vex_passthrough() {
    let inst_bytes = [0x90];
    let result = TrapHandler::handle_trap(TrapType::InvalidOpcode, &inst_bytes);
    assert!(result.is_ok());
    assert!(matches!(result.unwrap(), TrapAction::Passthrough));
}

#[test]
fn empty_invalid_opcode_is_fatal() {
    let result = TrapHandler::handle_trap(TrapType::InvalidOpcode, &[]);
    match result.unwrap() {
        TrapAction::Fatal(message) => assert_eq!(message, "empty instruction bytes"),
        _ => panic!("expected Fatal"),
    }
}

#[test]
fn gp_fault_message_is_fixed() {
    match TrapHandler::handle_trap(TrapType::GeneralProtectionFault, &[0x90]).unwrap() {
        TrapAction::Fatal(message) => assert_eq!(message, "GP fault not recoverable"),
        _ => panic!("expected Fatal"),
    }
}
