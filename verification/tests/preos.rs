use nextcore_ise::arch::{ArchRunResult, ArchRunStatus, GuestCpuState};
use nextcore_ise::m1::M1MachineGraph;
use nextcore_ise::preos::{admission, jit_outcome, Admission};
use nextcore_ise::preos::{
    assign_error, copy_jit_result, failure_message, guest_stop_message, wrapper_failure_code, TERMINATION_DATA_ABORT,
    arch_run_outcome, run_architecture_guest, VfPreosResult, E_RESULT, PREOS_RESULT_BYTES,
    code_for_termination, empty_jit_result, jit_result_pair_valid, jit_result_valid, validate_context, PreosContext,
    ABI_VERSION, CONTEXT_BYTES, E_ABI, E_BUDGET, E_CONTEXT, E_GUEST_INPUT, E_INTERNAL, E_JIT, E_PROFILE,
    E_PROTECTION, FIXED_GUEST_RAM_BYTES, FLAG_EXPECT_GOLDEN_RESULT, MACHINE_PROFILE_M1_DIAGNOSTIC,
    MAX_EXECUTION_BUDGET, MAX_GUEST_BYTES, OK, TERMINATION_BAD_INSTRUCTION, TERMINATION_BUDGET_EXHAUSTED,
    TERMINATION_HALT, TERMINATION_INTERNAL, TERMINATION_NONE, TERMINATION_PROTECTION_FAILURE,
};

fn valid_context() -> PreosContext {
    PreosContext {
        abi_version: ABI_VERSION,
        struct_size: CONTEXT_BYTES,
        machine_profile: MACHINE_PROFILE_M1_DIAGNOSTIC,
        flags: 0,
        execution_budget: 100,
        guest_bytes: 0x1000,
        guest_size: 4,
        guest_ram: 0x2000,
        guest_ram_size: FIXED_GUEST_RAM_BYTES,
        opaque_execution_handle: 0x3000,
        trace_present: true,
        trace_opaque: 0,
        expected_x1: 0,
        expected_x3: 0,
        expected_ram_offset: 0,
        expected_ram_qword: 0,
        expected_retired: 0,
        expected_guest_pc: 0,
        reserved: [0; 3],
    }
}

#[test]
fn valid_context_is_accepted() {
    assert_eq!(validate_context(&valid_context()), OK);
}

#[test]
fn abi_and_reserved_fields_fail_closed() {
    let mut context = valid_context();
    context.abi_version += 1;
    assert_eq!(validate_context(&context), E_ABI);
    context = valid_context();
    context.reserved[1] = 1;
    assert_eq!(validate_context(&context), E_ABI);
}

#[test]
fn profile_pointer_budget_and_alignment_fail_closed() {
    let mut context = valid_context();
    context.machine_profile = 0;
    assert_eq!(validate_context(&context), E_PROFILE);
    context = valid_context();
    context.execution_budget = MAX_EXECUTION_BUDGET + 1;
    assert_eq!(validate_context(&context), E_CONTEXT);
    context = valid_context();
    context.guest_bytes = 0x1001;
    assert_eq!(validate_context(&context), E_GUEST_INPUT);
    context = valid_context();
    context.guest_size = MAX_GUEST_BYTES + 4;
    assert_eq!(validate_context(&context), E_GUEST_INPUT);
    context = valid_context();
    context.opaque_execution_handle = 0x3001;
    assert_eq!(validate_context(&context), E_CONTEXT);
}

#[test]
fn expectation_contract_is_checked() {
    let mut context = valid_context();
    context.flags = FLAG_EXPECT_GOLDEN_RESULT;
    context.expected_ram_offset = 16;
    assert_eq!(validate_context(&context), OK);
    context.expected_ram_offset = FIXED_GUEST_RAM_BYTES;
    assert_eq!(validate_context(&context), E_CONTEXT);
}

#[test]
fn termination_mapping_preserves_failure_class() {
    assert_eq!(code_for_termination(TERMINATION_BUDGET_EXHAUSTED), E_BUDGET);
    assert_eq!(code_for_termination(TERMINATION_PROTECTION_FAILURE), E_PROTECTION);
    assert_eq!(code_for_termination(TERMINATION_BAD_INSTRUCTION), E_JIT);
    assert_eq!(code_for_termination(TERMINATION_INTERNAL), E_INTERNAL);
}

#[test]
fn jit_result_terminal_pair_is_closed() {
    let mut result = empty_jit_result();
    result.jit_status = 1;
    result.termination_reason = TERMINATION_HALT;
    assert!(jit_result_valid(&result));
    assert!(jit_result_pair_valid(&result));
    result.jit_status = 0;
    assert!(!jit_result_valid(&result));
    result.jit_status = 1;
    result.termination_reason = TERMINATION_BUDGET_EXHAUSTED;
    assert!(jit_result_valid(&result));
    assert!(!jit_result_pair_valid(&result));
    result.termination_reason = TERMINATION_NONE;
    assert!(!jit_result_valid(&result));
}

#[test]
fn halt_without_golden_match_is_a_result_error() {
    let run = ArchRunResult { status: ArchRunStatus::Halt, exception: None, retired: 2, pc: 8 };
    assert_eq!(arch_run_outcome(&run, true), (OK, TERMINATION_HALT));
    assert_eq!(arch_run_outcome(&run, false), (E_RESULT, TERMINATION_HALT));
    let budget = ArchRunResult { status: ArchRunStatus::Budget, exception: None, retired: 4, pc: 16 };
    assert_eq!(arch_run_outcome(&budget, false), (E_BUDGET, TERMINATION_BUDGET_EXHAUSTED));
}

#[test]
fn architecture_guest_reports_registers_and_retirement() {
    let mut guest = [0u8; 8];
    guest[..4].copy_from_slice(&0xd28000e1u32.to_le_bytes());
    guest[4..].copy_from_slice(&0xd4400000u32.to_le_bytes());
    let mut ram = vec![0u8; FIXED_GUEST_RAM_BYTES as usize];
    let mut cpu = GuestCpuState::reset(0);
    let mut graph = M1MachineGraph::new(FIXED_GUEST_RAM_BYTES);
    let mut result = VfPreosResult {
        abi_version: ABI_VERSION,
        struct_size: PREOS_RESULT_BYTES,
        code: -1,
        termination_reason: 0,
        retired_instruction_count: 0,
        guest_pc: 0,
        fault_instruction: 0,
        reserved0: 0,
        result_x0: 0,
        result_x1: 0,
        result_x3: 0,
        reserved: [0; 3],
    };
    let mut context = valid_context();
    context.flags = FLAG_EXPECT_GOLDEN_RESULT;
    context.expected_x1 = 7;
    context.expected_retired = 2;
    context.expected_guest_pc = 8;
    context.expected_ram_offset = 16;
    let code = run_architecture_guest(&context, &guest, &mut ram, &mut cpu, &mut graph, &mut result);
    assert_eq!(result.result_x1, 7);
    assert_eq!(result.retired_instruction_count, 2);
    assert_eq!(result.guest_pc, 8);
    assert_eq!(result.termination_reason, TERMINATION_HALT);
    assert_eq!(code, OK);
}

#[test]
fn trace_lines_name_the_failure_and_the_stop() {
    assert_eq!(failure_message(E_BUDGET), "VF: PREOS_FAIL code=BUDGET\r\n");
    assert_eq!(failure_message(12345), "VF: PREOS_FAIL code=JIT\r\n");
    assert_eq!(guest_stop_message(TERMINATION_DATA_ABORT), "VF: GUEST_STOP reason=DATA_ABORT\r\n");
    assert_eq!(guest_stop_message(TERMINATION_NONE), "VF: GUEST_STOP reason=INTERNAL\r\n");
}

#[test]
fn wrapper_failures_keep_their_class() {
    assert_eq!(wrapper_failure_code(E_ABI, TERMINATION_HALT), E_ABI);
    assert_eq!(wrapper_failure_code(E_INTERNAL, TERMINATION_PROTECTION_FAILURE), E_INTERNAL);
    assert_eq!(wrapper_failure_code(E_JIT, TERMINATION_PROTECTION_FAILURE), E_PROTECTION);
    assert_eq!(wrapper_failure_code(E_BUDGET, TERMINATION_BUDGET_EXHAUSTED), E_JIT);
}

#[test]
fn jit_outcome_is_copied_without_touching_the_code() {
    let mut jit = empty_jit_result();
    jit.termination_reason = TERMINATION_HALT;
    jit.retired_instruction_count = 3;
    jit.guest_pc = 12;
    jit.result_x1 = 99;
    let mut result = VfPreosResult {
        abi_version: ABI_VERSION,
        struct_size: PREOS_RESULT_BYTES,
        code: 0,
        termination_reason: 0,
        retired_instruction_count: 0,
        guest_pc: 0,
        fault_instruction: 0,
        reserved0: 0,
        result_x0: 0,
        result_x1: 0,
        result_x3: 0,
        reserved: [0; 3],
    };
    copy_jit_result(&mut result, &jit);
    assert_eq!((result.retired_instruction_count, result.guest_pc, result.result_x1), (3, 12, 99));
    assert_eq!(result.code, 0);
    assign_error(&mut result, E_RESULT, TERMINATION_HALT);
    assert_eq!((result.code, result.termination_reason), (E_RESULT, TERMINATION_HALT));
}

#[test]
fn admission_checks_run_in_order_with_their_codes() {
    assert_eq!(admission(false, false, false, false, false, OK), Admission::Unrecorded(E_CONTEXT));
    assert_eq!(admission(true, false, true, true, true, OK), Admission::Unrecorded(E_ABI));
    assert_eq!(admission(true, true, false, true, true, OK), Admission::Unrecorded(E_ABI));
    assert_eq!(admission(true, true, true, false, false, E_PROFILE), Admission::Recorded(E_CONTEXT));
    assert_eq!(admission(true, true, true, true, false, E_PROFILE), Admission::Recorded(E_ABI));
    assert_eq!(admission(true, true, true, true, true, E_PROFILE), Admission::Recorded(E_PROFILE));
    assert_eq!(admission(true, true, true, true, true, OK), Admission::Admitted);
}

#[test]
fn jit_outcome_succeeds_only_on_a_golden_halt() {
    assert_eq!(jit_outcome(OK, true, TERMINATION_HALT, true), (OK, TERMINATION_HALT));
    assert_eq!(jit_outcome(OK, true, TERMINATION_HALT, false), (E_RESULT, TERMINATION_HALT));
    assert_eq!(jit_outcome(OK, false, TERMINATION_HALT, true), (E_INTERNAL, TERMINATION_INTERNAL));
    assert_eq!(jit_outcome(OK, true, TERMINATION_BUDGET_EXHAUSTED, true), (E_BUDGET, TERMINATION_BUDGET_EXHAUSTED));
    assert_eq!(
        jit_outcome(E_JIT, false, TERMINATION_PROTECTION_FAILURE, true),
        (E_PROTECTION, TERMINATION_PROTECTION_FAILURE)
    );
    assert_eq!(jit_outcome(E_ABI, false, TERMINATION_HALT, true), (E_ABI, TERMINATION_HALT));
    assert_eq!(jit_outcome(E_JIT, true, TERMINATION_HALT, true), (E_JIT, TERMINATION_HALT));
}
