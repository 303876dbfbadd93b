//! The preOS entry's decisions: context validation, the JIT result
//! contract, and the mapping from guest terminations to result codes.
//! Addresses are plain integers here; the C ABI structures and the calls
//! through them belong to the embedding.
use vstd::prelude::*;
use crate::arch::{
    ArchRunResult, ArchRunStatus, ExceptionKind, GuestBus, GuestCpuState, fresh_run, le_value, ran, read_u64, run_input_invalid,
    run_reported,
};
use crate::m1::{M1GuestBus, M1MachineGraph};
use crate::mmu::mmu_wf;

verus! {

pub const ABI_VERSION: u32 = 1;
pub const MACHINE_PROFILE_M1_DIAGNOSTIC: u32 = 0x4d31_4430;
pub const MAX_GUEST_BYTES: u64 = 65_536;
pub const FIXED_GUEST_RAM_BYTES: u64 = 65_536;
pub const MAX_EXECUTION_BUDGET: u64 = 100_000;
/// Byte sizes of the C ABI records.
pub const CONTEXT_BYTES: u32 = 152;
pub const JIT_RESULT_BYTES: u32 = 88;
pub const PREOS_RESULT_BYTES: u32 = 88;

pub const OK: i32 = 0;
pub const E_ABI: i32 = 1;
pub const E_CONTEXT: i32 = 2;
pub const E_PROFILE: i32 = 3;
pub const E_GUEST_INPUT: i32 = 4;
pub const E_MACHINE_INIT: i32 = 5;
pub const E_JIT: i32 = 6;
pub const E_BUDGET: i32 = 7;
pub const E_PROTECTION: i32 = 8;
pub const E_INTERNAL: i32 = 9;
pub const E_RESULT: i32 = 10;
pub const E_UNSUPPORTED: i32 = 11;

pub const FLAG_EXPECT_GOLDEN_RESULT: u32 = 0x0000_0001;
pub const FLAG_REQUEST_EXCEPTION_MODEL: u32 = 0x0000_0100;
pub const FLAG_REQUEST_PRIVILEGED_STATE: u32 = 0x0000_0200;
pub const FLAG_REQUEST_SYSTEM_REGISTERS: u32 = 0x0000_0400;
pub const FLAG_REQUEST_MMU: u32 = 0x0000_0800;
pub const FLAG_REQUEST_TLB: u32 = 0x0000_1000;
pub const FLAG_REQUEST_ATOMICS: u32 = 0x0000_2000;
pub const FLAG_REQUEST_SMP: u32 = 0x0000_4000;
pub const FLAG_REQUEST_TIMER: u32 = 0x0000_8000;
pub const FLAG_REQUEST_PAUTH: u32 = 0x0001_0000;
/// Every architectural feature request: such a run goes to the reference
/// core instead of the JIT fast path.
pub const REQUESTED_ARCHITECTURE_FEATURES: u32 = 0x0001_ff00;
pub const KNOWN_FLAGS: u32 = 0x0001_ff01;

pub const TERMINATION_NONE: u32 = 0;
pub const TERMINATION_HALT: u32 = 1;
pub const TERMINATION_BAD_INSTRUCTION: u32 = 2;
pub const TERMINATION_FETCH_FAULT: u32 = 3;
pub const TERMINATION_DATA_FAULT: u32 = 4;
pub const TERMINATION_BUDGET_EXHAUSTED: u32 = 5;
pub const TERMINATION_PROTECTION_FAILURE: u32 = 6;
pub const TERMINATION_CODE_BUFFER_FULL: u32 = 7;
pub const TERMINATION_WRAPPER_REJECTED: u32 = 8;
pub const TERMINATION_INTERNAL: u32 = 9;
pub const TERMINATION_UNSUPPORTED: u32 = 10;
pub const TERMINATION_UNDEFINED_INSTRUCTION: u32 = 11;
pub const TERMINATION_PRIVILEGE_FAULT: u32 = 12;
pub const TERMINATION_TRANSLATION_FAULT: u32 = 13;
pub const TERMINATION_PERMISSION_FAULT: u32 = 14;
pub const TERMINATION_ALIGNMENT_FAULT: u32 = 15;
pub const TERMINATION_SYSTEM_REGISTER_TRAP: u32 = 16;
pub const TERMINATION_TIMER_INTERRUPT: u32 = 17;
pub const TERMINATION_EXTERNAL_INTERRUPT: u32 = 18;
pub const TERMINATION_INSTRUCTION_ABORT: u32 = 19;
pub const TERMINATION_DATA_ABORT: u32 = 20;

/// The preOS context with its addresses as integers and the trace callback
/// reduced to whether one is present.
#[derive(Clone, Copy, Debug, PartialEq, Eq)]
pub struct PreosContext {
    pub abi_version: u32,
    pub struct_size: u32,
    pub machine_profile: u32,
    pub flags: u32,
    pub execution_budget: u64,
    pub guest_bytes: usize,
    pub guest_size: u64,
    pub guest_ram: usize,
    pub guest_ram_size: u64,
    pub opaque_execution_handle: usize,
    pub trace_present: bool,
    pub trace_opaque: usize,
    pub expected_x1: u64,
    pub expected_x3: u64,
    pub expected_ram_offset: u64,
    pub expected_ram_qword: u64,
    pub expected_retired: u64,
    pub expected_guest_pc: u64,
    pub reserved: [u64; 3],
}

#[derive(Clone, Copy, Debug, PartialEq, Eq)]
pub struct VfJitResult {
    pub abi_version: u32,
    pub struct_size: u32,
    pub jit_status: i32,
    pub termination_reason: u32,
    pub retired_instruction_count: u64,
    pub guest_pc: u64,
    pub fault_instruction: u32,
    pub reserved0: u32,
    pub result_x0: u64,
    pub result_x1: u64,
    pub result_x3: u64,
    pub reserved: [u64; 3],
}

#[derive(Clone, Copy, Debug, PartialEq, Eq)]
pub struct VfPreosResult {
    pub abi_version: u32,
    pub struct_size: u32,
    pub code: i32,
    pub termination_reason: u32,
    pub retired_instruction_count: u64,
    pub guest_pc: u64,
    pub fault_instruction: u32,
    pub reserved0: u32,
    pub result_x0: u64,
    pub result_x1: u64,
    pub result_x3: u64,
    pub reserved: [u64; 3],
}

pub open spec fn spec_zero_words(words: [u64; 3]) -> bool {
    words@[0] == 0 && words@[1] == 0 && words@[2] == 0
}

pub fn zero_words(words: &[u64; 3]) -> (b: bool)
    ensures
        b == spec_zero_words(*words),
{
    words[0] == 0 && words[1] == 0 && words[2] == 0
}

/// A non-null, aligned span of `minimum` to `maximum` bytes that does not
/// wrap the address space.
pub fn valid_span(pointer: usize, bytes: u64, minimum: u64, maximum: u64, alignment: usize) -> (b: bool)
    ensures
        b == (pointer != 0 && minimum <= bytes <= maximum && alignment != 0 && pointer & (alignment - 1) as usize == 0
            && bytes <= usize::MAX && pointer + bytes <= usize::MAX),
{
    if pointer == 0 || bytes < minimum || bytes > maximum || alignment == 0 || pointer & (alignment - 1) != 0 || bytes
        > usize::MAX as u64 {
        return false;
    }
    pointer.checked_add(bytes as usize).is_some()
}

/// Golden expectations: only known flags; without the golden flag every
/// expectation is zero; with it the RAM offset is 8-byte aligned and a
/// whole doubleword of guest RAM.
pub open spec fn spec_expected_fields_valid(c: PreosContext) -> bool {
    if c.flags & !KNOWN_FLAGS != 0 {
        false
    } else if c.flags & FLAG_EXPECT_GOLDEN_RESULT == 0 {
        c.expected_x1 == 0 && c.expected_x3 == 0 && c.expected_ram_offset == 0 && c.expected_ram_qword == 0
            && c.expected_retired == 0 && c.expected_guest_pc == 0
    } else {
        c.expected_ram_offset % 8 == 0 && c.expected_ram_offset <= crate::arch::sat_sub(c.guest_ram_size, 8)
    }
}

pub fn expected_result_fields_valid(context: &PreosContext) -> (b: bool)
    ensures
        b == spec_expected_fields_valid(*context),
{
    if context.flags & !KNOWN_FLAGS != 0 {
        return false;
    }
    if context.flags & FLAG_EXPECT_GOLDEN_RESULT == 0 {
        return context.expected_x1 == 0 && context.expected_x3 == 0 && context.expected_ram_offset == 0
            && context.expected_ram_qword == 0 && context.expected_retired == 0 && context.expected_guest_pc == 0;
    }
    proof {
        let o = context.expected_ram_offset;
        assert(o & 7 == o % 8) by {
            crate::bits::lemma_u64_bits(o);
        }
    }
    if context.expected_ram_offset & 7 != 0 {
        return false;
    }
    context.expected_ram_offset <= context.guest_ram_size.saturating_sub(8)
}

/// The validation verdict, checked in order: ABI header and reserved
/// words, profile, flags, budget, guest image, then RAM, handle, trace and
/// expectations.
pub open spec fn spec_validate_context(c: PreosContext) -> i32 {
    if c.abi_version != ABI_VERSION || c.struct_size != CONTEXT_BYTES || !spec_zero_words(c.reserved) {
        E_ABI
    } else if c.machine_profile != MACHINE_PROFILE_M1_DIAGNOSTIC {
        E_PROFILE
    } else if c.flags & !KNOWN_FLAGS != 0 {
        E_ABI
    } else if c.execution_budget == 0 || c.execution_budget > MAX_EXECUTION_BUDGET {
        E_CONTEXT
    } else if !(c.guest_bytes != 0 && 4 <= c.guest_size <= MAX_GUEST_BYTES && c.guest_bytes & 3 == 0 && c.guest_size
        <= usize::MAX && c.guest_bytes + c.guest_size <= usize::MAX) || c.guest_size % 4 != 0 {
        E_GUEST_INPUT
    } else if !(c.guest_ram != 0 && c.guest_ram_size == FIXED_GUEST_RAM_BYTES && c.guest_ram & 7 == 0
        && c.guest_ram_size <= usize::MAX && c.guest_ram + c.guest_ram_size <= usize::MAX)
        || c.opaque_execution_handle == 0 || c.opaque_execution_handle % 8 != 0 || !c.trace_present
        || !spec_expected_fields_valid(c) {
        E_CONTEXT
    } else {
        OK
    }
}

pub fn validate_context(context: &PreosContext) -> (code: i32)
    ensures
        code == spec_validate_context(*context),
{
    if context.abi_version != ABI_VERSION || context.struct_size != CONTEXT_BYTES || !zero_words(&context.reserved) {
        return E_ABI;
    }
    if context.machine_profile != MACHINE_PROFILE_M1_DIAGNOSTIC {
        return E_PROFILE;
    }
    if context.flags & !KNOWN_FLAGS != 0 {
        return E_ABI;
    }
    if context.execution_budget == 0 || context.execution_budget > MAX_EXECUTION_BUDGET {
        return E_CONTEXT;
    }
    proof {
        let s = context.guest_size;
        assert(s & 3 == s % 4) by {
            crate::bits::lemma_u64_bits(s);
        }
        let h = context.opaque_execution_handle;
        assert(h & 7 == h % 8) by {
            crate::bits::lemma_u64_bits(h as u64);
        }
    }
    if !valid_span(context.guest_bytes, context.guest_size, 4, MAX_GUEST_BYTES, 4) || (context.guest_size & 3) != 0 {
        return E_GUEST_INPUT;
    }
    if !valid_span(context.guest_ram, context.guest_ram_size, FIXED_GUEST_RAM_BYTES, FIXED_GUEST_RAM_BYTES, 8)
        || context.opaque_execution_handle == 0 || (context.opaque_execution_handle & 7) != 0 || !context.trace_present
        || !expected_result_fields_valid(context) {
        return E_CONTEXT;
    }
    OK
}

/// A result record as the caller must hand it in: ABI v1 and all zero.
pub open spec fn spec_result_storage_valid(r: VfPreosResult) -> bool {
    &&& r.abi_version == ABI_VERSION && r.struct_size == PREOS_RESULT_BYTES
    &&& r.code == 0 && r.termination_reason == TERMINATION_NONE
    &&& r.retired_instruction_count == 0 && r.guest_pc == 0 && r.fault_instruction == 0 && r.reserved0 == 0
    &&& r.result_x0 == 0 && r.result_x1 == 0 && r.result_x3 == 0
    &&& spec_zero_words(r.reserved)
}

pub fn result_storage_valid(result: &VfPreosResult) -> (b: bool)
    ensures
        b == spec_result_storage_valid(*result),
{
    result.abi_version == ABI_VERSION && result.struct_size == PREOS_RESULT_BYTES && result.code == 0
        && result.termination_reason == TERMINATION_NONE && result.retired_instruction_count == 0 && result.guest_pc
        == 0 && result.fault_instruction == 0 && result.reserved0 == 0 && result.result_x0 == 0 && result.result_x1
        == 0 && result.result_x3 == 0 && zero_words(&result.reserved)
}

/// A failure may be traced only through a callback selected from a
/// context whose stable header and reserved words are valid.
pub fn failure_trace_is_safe(context: &PreosContext) -> (b: bool)
    ensures
        b == (context.abi_version == ABI_VERSION && context.struct_size == CONTEXT_BYTES && spec_zero_words(
            context.reserved,
        ) && context.trace_present),
{
    context.abi_version == ABI_VERSION && context.struct_size == CONTEXT_BYTES && zero_words(&context.reserved)
        && context.trace_present
}

pub fn empty_jit_result() -> (r: VfJitResult)
    ensures
        r.abi_version == ABI_VERSION && r.struct_size == JIT_RESULT_BYTES,
        r.jit_status == 0 && r.termination_reason == TERMINATION_NONE,
        r.retired_instruction_count == 0 && r.guest_pc == 0 && r.fault_instruction == 0 && r.reserved0 == 0,
        r.result_x0 == 0 && r.result_x1 == 0 && r.result_x3 == 0,
        spec_zero_words(r.reserved),
{
    VfJitResult {
        abi_version: ABI_VERSION,
        struct_size: JIT_RESULT_BYTES,
        jit_status: 0,
        termination_reason: TERMINATION_NONE,
        retired_instruction_count: 0,
        guest_pc: 0,
        fault_instruction: 0,
        reserved0: 0,
        result_x0: 0,
        result_x1: 0,
        result_x3: 0,
        reserved: [0; 3],
    }
}

/// The JIT's terminal statuses; its internal continuation value never
/// crosses the wrapper.
pub fn jit_status_valid(status: i32) -> (b: bool)
    ensures
        b == (1 <= status <= 17),
{
    1 <= status && status <= 17
}

pub fn termination_valid(reason: u32) -> (b: bool)
    ensures
        b == (TERMINATION_HALT <= reason <= TERMINATION_DATA_ABORT),
{
    TERMINATION_HALT <= reason && reason <= TERMINATION_DATA_ABORT
}

pub open spec fn spec_jit_result_valid(r: VfJitResult) -> bool {
    &&& r.abi_version == ABI_VERSION && r.struct_size == JIT_RESULT_BYTES
    &&& 1 <= r.jit_status <= 17
    &&& TERMINATION_HALT <= r.termination_reason <= TERMINATION_DATA_ABORT
    &&& r.reserved0 == 0 && spec_zero_words(r.reserved)
}

pub fn jit_result_valid(result: &VfJitResult) -> (b: bool)
    ensures
        b == spec_jit_result_valid(*result),
{
    result.abi_version == ABI_VERSION && result.struct_size == JIT_RESULT_BYTES && jit_status_valid(result.jit_status)
        && termination_valid(result.termination_reason) && result.reserved0 == 0 && zero_words(&result.reserved)
}

/// The termination each terminal JIT status must carry: statuses 1-7 name
/// halt, bad instruction, fetch fault, data fault, budget, code-buffer
/// full and protection; 8-17 name undefined instruction through data abort.
pub open spec fn paired_termination(status: i32) -> Option<u32> {
    if status == 1 {
        Some(TERMINATION_HALT)
    } else if status == 2 {
        Some(TERMINATION_BAD_INSTRUCTION)
    } else if status == 3 {
        Some(TERMINATION_FETCH_FAULT)
    } else if status == 4 {
        Some(TERMINATION_DATA_FAULT)
    } else if status == 5 {
        Some(TERMINATION_BUDGET_EXHAUSTED)
    } else if status == 6 {
        Some(TERMINATION_CODE_BUFFER_FULL)
    } else if status == 7 {
        Some(TERMINATION_PROTECTION_FAILURE)
    } else if 8 <= status <= 17 {
        Some((status + 3) as u32)
    } else {
        None
    }
}

pub fn jit_result_pair_valid(result: &VfJitResult) -> (b: bool)
    ensures
        b == (paired_termination(result.jit_status) == Some(result.termination_reason)),
{
    let status = result.jit_status;
    let reason = result.termination_reason;
    if status == 1 {
        reason == TERMINATION_HALT
    } else if status == 2 {
        reason == TERMINATION_BAD_INSTRUCTION
    } else if status == 3 {
        reason == TERMINATION_FETCH_FAULT
    } else if status == 4 {
        reason == TERMINATION_DATA_FAULT
    } else if status == 5 {
        reason == TERMINATION_BUDGET_EXHAUSTED
    } else if status == 6 {
        reason == TERMINATION_CODE_BUFFER_FULL
    } else if status == 7 {
        reason == TERMINATION_PROTECTION_FAILURE
    } else if 8 <= status && status <= 17 {
        reason == (status + 3) as u32
    } else {
        false
    }
}

/// The entry's result code for a guest termination.
pub open spec fn spec_code_for_termination(reason: u32) -> i32 {
    if reason == TERMINATION_BUDGET_EXHAUSTED {
        E_BUDGET
    } else if reason == TERMINATION_PROTECTION_FAILURE {
        E_PROTECTION
    } else if reason == TERMINATION_BAD_INSTRUCTION || reason == TERMINATION_FETCH_FAULT || reason
        == TERMINATION_DATA_FAULT || reason == TERMINATION_CODE_BUFFER_FULL || reason == TERMINATION_WRAPPER_REJECTED
        || reason == TERMINATION_INSTRUCTION_ABORT || reason == TERMINATION_DATA_ABORT {
        E_JIT
    } else if reason == TERMINATION_UNSUPPORTED || (TERMINATION_UNDEFINED_INSTRUCTION <= reason
        <= TERMINATION_EXTERNAL_INTERRUPT) {
        E_UNSUPPORTED
    } else {
        E_INTERNAL
    }
}

pub fn code_for_termination(reason: u32) -> (code: i32)
    ensures
        code == spec_code_for_termination(reason),
{
    if reason == TERMINATION_BUDGET_EXHAUSTED {
        E_BUDGET
    } else if reason == TERMINATION_PROTECTION_FAILURE {
        E_PROTECTION
    } else if reason == TERMINATION_BAD_INSTRUCTION || reason == TERMINATION_FETCH_FAULT || reason
        == TERMINATION_DATA_FAULT || reason == TERMINATION_CODE_BUFFER_FULL || reason == TERMINATION_WRAPPER_REJECTED
        || reason == TERMINATION_INSTRUCTION_ABORT || reason == TERMINATION_DATA_ABORT {
        E_JIT
    } else if reason == TERMINATION_UNSUPPORTED || (TERMINATION_UNDEFINED_INSTRUCTION <= reason && reason
        <= TERMINATION_EXTERNAL_INTERRUPT) {
        E_UNSUPPORTED
    } else {
        E_INTERNAL
    }
}

/// The termination a reference-core exception reports.
pub open spec fn spec_termination_for_arch_exception(kind: ExceptionKind) -> u32 {
    match kind {
        ExceptionKind::UndefinedInstruction => TERMINATION_UNDEFINED_INSTRUCTION,
        ExceptionKind::PrivilegedInstruction => TERMINATION_PRIVILEGE_FAULT,
        ExceptionKind::InstructionAbort => TERMINATION_INSTRUCTION_ABORT,
        ExceptionKind::DataAbort => TERMINATION_DATA_ABORT,
        ExceptionKind::TranslationFault => TERMINATION_TRANSLATION_FAULT,
        ExceptionKind::PermissionFault => TERMINATION_PERMISSION_FAULT,
        ExceptionKind::AlignmentFault => TERMINATION_ALIGNMENT_FAULT,
        ExceptionKind::SystemRegisterTrap => TERMINATION_SYSTEM_REGISTER_TRAP,
        ExceptionKind::TimerInterrupt => TERMINATION_TIMER_INTERRUPT,
        ExceptionKind::ExternalInterrupt => TERMINATION_EXTERNAL_INTERRUPT,
        ExceptionKind::GuestHalt => TERMINATION_HALT,
        ExceptionKind::SupervisorCall => TERMINATION_UNSUPPORTED,
    }
}

pub fn termination_for_arch_exception(kind: ExceptionKind) -> (t: u32)
    ensures
        t == spec_termination_for_arch_exception(kind),
{
    match kind {
        ExceptionKind::UndefinedInstruction => TERMINATION_UNDEFINED_INSTRUCTION,
        ExceptionKind::PrivilegedInstruction => TERMINATION_PRIVILEGE_FAULT,
        ExceptionKind::InstructionAbort => TERMINATION_INSTRUCTION_ABORT,
        ExceptionKind::DataAbort => TERMINATION_DATA_ABORT,
        ExceptionKind::TranslationFault => TERMINATION_TRANSLATION_FAULT,
        ExceptionKind::PermissionFault => TERMINATION_PERMISSION_FAULT,
        ExceptionKind::AlignmentFault => TERMINATION_ALIGNMENT_FAULT,
        ExceptionKind::SystemRegisterTrap => TERMINATION_SYSTEM_REGISTER_TRAP,
        ExceptionKind::TimerInterrupt => TERMINATION_TIMER_INTERRUPT,
        ExceptionKind::ExternalInterrupt => TERMINATION_EXTERNAL_INTERRUPT,
        ExceptionKind::GuestHalt => TERMINATION_HALT,
        ExceptionKind::SupervisorCall => TERMINATION_UNSUPPORTED,
    }
}

/// A halted run matches the golden expectations (X1, X3, the doubleword
/// at the expected RAM offset, the retired count and the PC), or none
/// were asked for.
pub open spec fn spec_golden_matches(c: PreosContext, r: VfPreosResult, ram_value: u64) -> bool {
    c.flags & FLAG_EXPECT_GOLDEN_RESULT == 0 || (r.result_x1 == c.expected_x1 && r.result_x3 == c.expected_x3
        && ram_value == c.expected_ram_qword && r.retired_instruction_count == c.expected_retired && r.guest_pc
        == c.expected_guest_pc)
}

pub fn golden_result_matches(context: &PreosContext, result: &VfPreosResult, ram_value: u64) -> (b: bool)
    ensures
        b == spec_golden_matches(*context, *result, ram_value),
{
    if context.flags & FLAG_EXPECT_GOLDEN_RESULT == 0 {
        return true;
    }
    result.result_x1 == context.expected_x1 && result.result_x3 == context.expected_x3 && ram_value
        == context.expected_ram_qword && result.retired_instruction_count == context.expected_retired
        && result.guest_pc == context.expected_guest_pc
}

/// The doubleword at `offset` of guest RAM, zero past its end.
pub open spec fn ram_qword(mem: Seq<u8>, offset: u64) -> u64 {
    if offset + 8 <= mem.len() { le_value(mem.subrange(offset as int, offset + 8)) } else { 0 }
}

/// The code and termination a reference-core run reports.
pub open spec fn spec_arch_outcome(run: ArchRunResult, golden: bool) -> (i32, u32) {
    match run.status {
        ArchRunStatus::Halt => (if golden { OK } else { E_RESULT }, TERMINATION_HALT),
        ArchRunStatus::Budget => (E_BUDGET, TERMINATION_BUDGET_EXHAUSTED),
        ArchRunStatus::Input => (E_GUEST_INPUT, TERMINATION_NONE),
        ArchRunStatus::Wait => (E_UNSUPPORTED, TERMINATION_UNSUPPORTED),
        ArchRunStatus::Exception => {
            let t = match run.exception {
                Some(e) => spec_termination_for_arch_exception(e.kind),
                None => TERMINATION_INTERNAL,
            };
            (spec_code_for_termination(t), t)
        },
    }
}

pub fn arch_run_outcome(run: &ArchRunResult, golden: bool) -> (r: (i32, u32))
    ensures
        r == spec_arch_outcome(*run, golden),
{
    match run.status {
        ArchRunStatus::Halt => (if golden { OK } else { E_RESULT }, TERMINATION_HALT),
        ArchRunStatus::Budget => (E_BUDGET, TERMINATION_BUDGET_EXHAUSTED),
        ArchRunStatus::Input => (E_GUEST_INPUT, TERMINATION_NONE),
        ArchRunStatus::Wait => (E_UNSUPPORTED, TERMINATION_UNSUPPORTED),
        ArchRunStatus::Exception => {
            let t = match run.exception {
                Some(e) => termination_for_arch_exception(e.kind),
                None => TERMINATION_INTERNAL,
            };
            (code_for_termination(t), t)
        },
    }
}

/// A run of `guest` on the reference core from `s`, behind an M1 bus over
/// graph `g` and RAM `ram`, that ended in `n`: refused as input with the
/// CPU unchanged (always so for an invalid state, image or budget), or run
/// with a fresh budget from the image loaded at guest address zero (see
/// `ran`).
pub open spec fn guest_ran(s: GuestCpuState, g: M1MachineGraph, ram: Seq<u8>, guest: Seq<u8>, budget: u64, n: GuestCpuState, run: ArchRunResult) -> bool {
    &&& run_input_invalid(s, guest.len(), budget) ==> run.status == ArchRunStatus::Input && n == s
    &&& run.status == ArchRunStatus::Input && n == s || {
        &&& !run_input_invalid(s, guest.len(), budget)
        &&& run_reported(fresh_run(s), n, budget, run)
        &&& exists|b0: M1GuestBus, loaded: M1GuestBus, b1: M1GuestBus|
            #![trigger b0.spec_loaded(loaded, guest, true), ran(fresh_run(s), loaded, n, b1, budget, run)]
            b0.graph_view() == g && b0.mem() == ram && !b0.timer_mmio_dirty && b0.spec_loaded(loaded, guest, true)
                && ran(fresh_run(s), loaded, n, b1, budget, run)
    }
}

/// Run a guest on the reference core behind the M1 bus and fill the
/// result record: retirement, PC, X0/X1/X3 and the faulting word, then
/// the code and termination of `spec_arch_outcome`.  An exception stop
/// reports its termination and leaves the record's code alone.
pub fn run_architecture_guest(
    context: &PreosContext,
    guest: &[u8],
    ram: &mut [u8],
    cpu: &mut GuestCpuState,
    graph: &mut M1MachineGraph,
    result: &mut VfPreosResult,
) -> (code: i32)
    requires
        mmu_wf(old(cpu).mmu),
        old(cpu).affinity < 64,
    ensures
        final(result).retired_instruction_count == final(cpu).retired,
        final(result).guest_pc == final(cpu).pc,
        final(result).result_x0 == final(cpu).x@[0],
        final(result).result_x1 == final(cpu).x@[1],
        final(result).result_x3 == final(cpu).x@[3],
        exists|run: ArchRunResult, golden: bool|
            #[trigger] spec_arch_outcome(run, golden) == (code, final(result).termination_reason) && run.retired
                == final(cpu).retired && run.pc == final(cpu).pc && (run.status == ArchRunStatus::Halt ==> golden
                == spec_golden_matches(*context, *final(result), ram_qword(final(ram)@, context.expected_ram_offset)))
                && (run.status == ArchRunStatus::Exception ==> final(result).code == old(result).code) && (run.status
                != ArchRunStatus::Exception ==> final(result).code == code) && final(result).fault_instruction == (
                match run.exception {
                    Some(e) => e.instruction,
                    None => 0u32,
                }) && guest_ran(
                *old(cpu),
                *old(graph),
                old(ram)@,
                guest@,
                context.execution_budget,
                *final(cpu),
                run,
            ),
{
    let run = {
        let mut bus = M1GuestBus::new(graph, ram);
        let ghost b0 = bus;
        let run = cpu.run_bounded_with_bus(guest, &mut bus, context.execution_budget);
        proof {
            if !(run.status == ArchRunStatus::Input && *cpu == *old(cpu)) {
                let loaded = choose|loaded: M1GuestBus| #[trigger] b0.spec_loaded(loaded, guest@, true) && ran(
                    fresh_run(*old(cpu)),
                    loaded,
                    *cpu,
                    bus,
                    context.execution_budget,
                    run,
                );
                assert(b0.spec_loaded(loaded, guest@, true) && ran(fresh_run(*old(cpu)), loaded, *cpu, bus, context.execution_budget, run));
            }
            assert(guest_ran(*old(cpu), *old(graph), old(ram)@, guest@, context.execution_budget, *cpu, run));
        }
        run
    };
    result.retired_instruction_count = run.retired;
    result.guest_pc = run.pc;
    result.result_x0 = cpu.x[0];
    result.result_x1 = cpu.x[1];
    result.result_x3 = cpu.x[3];
    result.fault_instruction = match run.exception {
        Some(e) => e.instruction,
        None => 0,
    };
    let golden = match run.status {
        ArchRunStatus::Halt => {
            let ram_value = match read_u64(ram, context.expected_ram_offset) {
                Some(v) => v,
                None => 0,
            };
            golden_result_matches(context, result, ram_value)
        },
        _ => true,
    };
    let (code, termination) = arch_run_outcome(&run, golden);
    result.termination_reason = termination;
    match run.status {
        ArchRunStatus::Exception => {},
        _ => result.code = code,
    }
    assert(spec_arch_outcome(run, golden) == (code, termination));
    code
}

/// The trace line reporting a failure code.
pub open spec fn spec_failure_message(code: i32) -> Seq<char> {
    if code == E_ABI {
        "VF: PREOS_FAIL code=ABI\r\n"@
    } else if code == E_CONTEXT {
        "VF: PREOS_FAIL code=CONTEXT\r\n"@
    } else if code == E_PROFILE {
        "VF: PREOS_FAIL code=PROFILE\r\n"@
    } else if code == E_GUEST_INPUT {
        "VF: PREOS_FAIL code=GUEST_INPUT\r\n"@
    } else if code == E_MACHINE_INIT {
        "VF: PREOS_FAIL code=MACHINE_INIT\r\n"@
    } else if code == E_BUDGET {
        "VF: PREOS_FAIL code=BUDGET\r\n"@
    } else if code == E_PROTECTION {
        "VF: PREOS_FAIL code=PROTECTION\r\n"@
    } else if code == E_RESULT {
        "VF: PREOS_FAIL code=RESULT\r\n"@
    } else if code == E_UNSUPPORTED {
        "VF: PREOS_FAIL code=UNSUPPORTED\r\n"@
    } else if code == E_INTERNAL {
        "VF: PREOS_FAIL code=INTERNAL\r\n"@
    } else {
        "VF: PREOS_FAIL code=JIT\r\n"@
    }
}

pub fn failure_message(code: i32) -> (m: &'static str)
    ensures
        m@ == spec_failure_message(code),
{
    if code == E_ABI {
        "VF: PREOS_FAIL code=ABI\r\n"
    } else if code == E_CONTEXT {
        "VF: PREOS_FAIL code=CONTEXT\r\n"
    } else if code == E_PROFILE {
        "VF: PREOS_FAIL code=PROFILE\r\n"
    } else if code == E_GUEST_INPUT {
        "VF: PREOS_FAIL code=GUEST_INPUT\r\n"
    } else if code == E_MACHINE_INIT {
        "VF: PREOS_FAIL code=MACHINE_INIT\r\n"
    } else if code == E_BUDGET {
        "VF: PREOS_FAIL code=BUDGET\r\n"
    } else if code == E_PROTECTION {
        "VF: PREOS_FAIL code=PROTECTION\r\n"
    } else if code == E_RESULT {
        "VF: PREOS_FAIL code=RESULT\r\n"
    } else if code == E_UNSUPPORTED {
        "VF: PREOS_FAIL code=UNSUPPORTED\r\n"
    } else if code == E_INTERNAL {
        "VF: PREOS_FAIL code=INTERNAL\r\n"
    } else {
        "VF: PREOS_FAIL code=JIT\r\n"
    }
}

/// The trace line reporting why the guest stopped.
pub open spec fn spec_guest_stop_message(reason: u32) -> Seq<char> {
    if reason == TERMINATION_BAD_INSTRUCTION {
        "VF: GUEST_STOP reason=BAD_INSTRUCTION\r\n"@
    } else if reason == TERMINATION_FETCH_FAULT {
        "VF: GUEST_STOP reason=FETCH_FAULT\r\n"@
    } else if reason == TERMINATION_DATA_FAULT {
        "VF: GUEST_STOP reason=DATA_FAULT\r\n"@
    } else if reason == TERMINATION_BUDGET_EXHAUSTED {
        "VF: GUEST_STOP reason=BUDGET_EXHAUSTED\r\n"@
    } else if reason == TERMINATION_PROTECTION_FAILURE {
        "VF: GUEST_STOP reason=PROTECTION\r\n"@
    } else if reason == TERMINATION_CODE_BUFFER_FULL {
        "VF: GUEST_STOP reason=CODE_BUFFER_FULL\r\n"@
    } else if reason == TERMINATION_WRAPPER_REJECTED {
        "VF: GUEST_STOP reason=WRAPPER_REJECTED\r\n"@
    } else if reason == TERMINATION_UNDEFINED_INSTRUCTION {
        "VF: GUEST_STOP reason=UNDEFINED_INSTRUCTION\r\n"@
    } else if reason == TERMINATION_PRIVILEGE_FAULT {
        "VF: GUEST_STOP reason=PRIVILEGE_FAULT\r\n"@
    } else if reason == TERMINATION_TRANSLATION_FAULT {
        "VF: GUEST_STOP reason=TRANSLATION_FAULT\r\n"@
    } else if reason == TERMINATION_PERMISSION_FAULT {
        "VF: GUEST_STOP reason=PERMISSION_FAULT\r\n"@
    } else if reason == TERMINATION_ALIGNMENT_FAULT {
        "VF: GUEST_STOP reason=ALIGNMENT_FAULT\r\n"@
    } else if reason == TERMINATION_SYSTEM_REGISTER_TRAP {
        "VF: GUEST_STOP reason=SYSTEM_REGISTER_TRAP\r\n"@
    } else if reason == TERMINATION_TIMER_INTERRUPT {
        "VF: GUEST_STOP reason=TIMER_INTERRUPT\r\n"@
    } else if reason == TERMINATION_EXTERNAL_INTERRUPT {
        "VF: GUEST_STOP reason=EXTERNAL_INTERRUPT\r\n"@
    } else if reason == TERMINATION_INSTRUCTION_ABORT {
        "VF: GUEST_STOP reason=INSTRUCTION_ABORT\r\n"@
    } else if reason == TERMINATION_DATA_ABORT {
        "VF: GUEST_STOP reason=DATA_ABORT\r\n"@
    } else {
        "VF: GUEST_STOP reason=INTERNAL\r\n"@
    }
}

pub fn guest_stop_message(reason: u32) -> (m: &'static str)
    ensures
        m@ == spec_guest_stop_message(reason),
{
    if reason == TERMINATION_BAD_INSTRUCTION {
        "VF: GUEST_STOP reason=BAD_INSTRUCTION\r\n"
    } else if reason == TERMINATION_FETCH_FAULT {
        "VF: GUEST_STOP reason=FETCH_FAULT\r\n"
    } else if reason == TERMINATION_DATA_FAULT {
        "VF: GUEST_STOP reason=DATA_FAULT\r\n"
    } else if reason == TERMINATION_BUDGET_EXHAUSTED {
        "VF: GUEST_STOP reason=BUDGET_EXHAUSTED\r\n"
    } else if reason == TERMINATION_PROTECTION_FAILURE {
        "VF: GUEST_STOP reason=PROTECTION\r\n"
    } else if reason == TERMINATION_CODE_BUFFER_FULL {
        "VF: GUEST_STOP reason=CODE_BUFFER_FULL\r\n"
    } else if reason == TERMINATION_WRAPPER_REJECTED {
        "VF: GUEST_STOP reason=WRAPPER_REJECTED\r\n"
    } else if reason == TERMINATION_UNDEFINED_INSTRUCTION {
        "VF: GUEST_STOP reason=UNDEFINED_INSTRUCTION\r\n"
    } else if reason == TERMINATION_PRIVILEGE_FAULT {
        "VF: GUEST_STOP reason=PRIVILEGE_FAULT\r\n"
    } else if reason == TERMINATION_TRANSLATION_FAULT {
        "VF: GUEST_STOP reason=TRANSLATION_FAULT\r\n"
    } else if reason == TERMINATION_PERMISSION_FAULT {
        "VF: GUEST_STOP reason=PERMISSION_FAULT\r\n"
    } else if reason == TERMINATION_ALIGNMENT_FAULT {
        "VF: GUEST_STOP reason=ALIGNMENT_FAULT\r\n"
    } else if reason == TERMINATION_SYSTEM_REGISTER_TRAP {
        "VF: GUEST_STOP reason=SYSTEM_REGISTER_TRAP\r\n"
    } else if reason == TERMINATION_TIMER_INTERRUPT {
        "VF: GUEST_STOP reason=TIMER_INTERRUPT\r\n"
    } else if reason == TERMINATION_EXTERNAL_INTERRUPT {
        "VF: GUEST_STOP reason=EXTERNAL_INTERRUPT\r\n"
    } else if reason == TERMINATION_INSTRUCTION_ABORT {
        "VF: GUEST_STOP reason=INSTRUCTION_ABORT\r\n"
    } else if reason == TERMINATION_DATA_ABORT {
        "VF: GUEST_STOP reason=DATA_ABORT\r\n"
    } else {
        "VF: GUEST_STOP reason=INTERNAL\r\n"
    }
}

/// Record a failure's code and termination in the result.
pub fn assign_error(result: &mut VfPreosResult, code: i32, termination_reason: u32)
    ensures
        *final(result) == (VfPreosResult { code, termination_reason, ..*old(result) }),
{
    result.code = code;
    result.termination_reason = termination_reason;
}

/// Copy the JIT's outcome (termination, retirement, PC, faulting word and
/// X0/X1/X3) into the preOS result; the header and code stay.
pub fn copy_jit_result(destination: &mut VfPreosResult, source: &VfJitResult)
    ensures
        *final(destination) == (VfPreosResult {
            termination_reason: source.termination_reason,
            retired_instruction_count: source.retired_instruction_count,
            guest_pc: source.guest_pc,
            fault_instruction: source.fault_instruction,
            result_x0: source.result_x0,
            result_x1: source.result_x1,
            result_x3: source.result_x3,
            ..*old(destination)
        }),
{
    destination.termination_reason = source.termination_reason;
    destination.retired_instruction_count = source.retired_instruction_count;
    destination.guest_pc = source.guest_pc;
    destination.fault_instruction = source.fault_instruction;
    destination.result_x0 = source.result_x0;
    destination.result_x1 = source.result_x1;
    destination.result_x3 = source.result_x3;
}

/// The code for a JIT wrapper failure: the ABI, context and internal codes
/// pass through, a protection stop is a protection failure, anything else
/// a JIT failure.
pub open spec fn spec_wrapper_failure_code(wrapper_code: i32, termination: u32) -> i32 {
    if wrapper_code == E_ABI || wrapper_code == E_CONTEXT || wrapper_code == E_INTERNAL {
        wrapper_code
    } else if termination == TERMINATION_PROTECTION_FAILURE {
        E_PROTECTION
    } else {
        E_JIT
    }
}

pub fn wrapper_failure_code(wrapper_code: i32, termination: u32) -> (code: i32)
    ensures
        code == spec_wrapper_failure_code(wrapper_code, termination),
{
    if wrapper_code == E_ABI || wrapper_code == E_CONTEXT || wrapper_code == E_INTERNAL {
        wrapper_code
    } else if termination == TERMINATION_PROTECTION_FAILURE {
        E_PROTECTION
    } else {
        E_JIT
    }
}

/// What the entry checks of a run decide before any machine is built.
#[derive(Clone, Copy, Debug, PartialEq, Eq, Structural)]
pub enum Admission {
    /// Refused without touching the result record.
    Unrecorded(i32),
    /// Refused with the code written to the record and no termination.
    Recorded(i32),
    /// The run may start.
    Admitted,
}

/// The entry checks in order: a missing or misaligned result record is a
/// context error and a wrong result header or storage an ABI error, neither
/// recorded; then a missing or misaligned context is a context error, a
/// wrong context header an ABI error, and a failed validation its own code,
/// each recorded.  `validation` counts only once both context checks pass.
pub open spec fn spec_admission(
    result_pointer_ok: bool,
    result_prefix_ok: bool,
    result_storage_ok: bool,
    context_pointer_ok: bool,
    context_prefix_ok: bool,
    validation: i32,
) -> Admission {
    if !result_pointer_ok {
        Admission::Unrecorded(E_CONTEXT)
    } else if !result_prefix_ok || !result_storage_ok {
        Admission::Unrecorded(E_ABI)
    } else if !context_pointer_ok {
        Admission::Recorded(E_CONTEXT)
    } else if !context_prefix_ok {
        Admission::Recorded(E_ABI)
    } else if validation != OK {
        Admission::Recorded(validation)
    } else {
        Admission::Admitted
    }
}

pub fn admission(
    result_pointer_ok: bool,
    result_prefix_ok: bool,
    result_storage_ok: bool,
    context_pointer_ok: bool,
    context_prefix_ok: bool,
    validation: i32,
) -> (a: Admission)
    ensures
        a == spec_admission(
            result_pointer_ok,
            result_prefix_ok,
            result_storage_ok,
            context_pointer_ok,
            context_prefix_ok,
            validation,
        ),
{
    if !result_pointer_ok {
        Admission::Unrecorded(E_CONTEXT)
    } else if !result_prefix_ok || !result_storage_ok {
        Admission::Unrecorded(E_ABI)
    } else if !context_pointer_ok {
        Admission::Recorded(E_CONTEXT)
    } else if !context_prefix_ok {
        Admission::Recorded(E_ABI)
    } else if validation != OK {
        Admission::Recorded(validation)
    } else {
        Admission::Admitted
    }
}

/// The code and termination a JIT run ends with: a successful call whose
/// result fails the checks is internal; a failed call keeps its mapped
/// code (see `spec_wrapper_failure_code`) and the reported termination; a
/// stop other than a halt keeps its code (see `spec_code_for_termination`);
/// a halt is a result error unless the golden values match, then success.
pub open spec fn spec_jit_outcome(wrapper_code: i32, result_valid: bool, termination: u32, golden: bool) -> (i32, u32) {
    if wrapper_code == OK && !result_valid {
        (E_INTERNAL, TERMINATION_INTERNAL)
    } else if wrapper_code != OK {
        (spec_wrapper_failure_code(wrapper_code, termination), termination)
    } else if termination != TERMINATION_HALT {
        (spec_code_for_termination(termination), termination)
    } else if !golden {
        (E_RESULT, TERMINATION_HALT)
    } else {
        (OK, TERMINATION_HALT)
    }
}

pub fn jit_outcome(wrapper_code: i32, result_valid: bool, termination: u32, golden: bool) -> (r: (i32, u32))
    ensures
        r == spec_jit_outcome(wrapper_code, result_valid, termination, golden),
{
    if wrapper_code == OK && !result_valid {
        (E_INTERNAL, TERMINATION_INTERNAL)
    } else if wrapper_code != OK {
        (wrapper_failure_code(wrapper_code, termination), termination)
    } else if termination != TERMINATION_HALT {
        (code_for_termination(termination), termination)
    } else if !golden {
        (E_RESULT, TERMINATION_HALT)
    } else {
        (OK, TERMINATION_HALT)
    }
}

/// A JIT run succeeds only when the call succeeded, its result passed the
/// checks, the guest halted and the golden values matched; every other
/// outcome carries a failure code.
pub proof fn lemma_jit_success_only_on_golden_halt(wrapper_code: i32, result_valid: bool, termination: u32, golden: bool)
    ensures
        (spec_jit_outcome(wrapper_code, result_valid, termination, golden).0 == OK) == (wrapper_code == OK && result_valid
            && termination == TERMINATION_HALT && golden),
{
    if wrapper_code == OK && result_valid && termination != TERMINATION_HALT {
        assert(spec_code_for_termination(termination) != OK);
    }
}

/// Every failure class keeps its own code: no guest termination is
/// reported as success, and each stop of the reference core maps to a
/// termination the JIT contract also accepts.
pub proof fn lemma_terminations_never_succeed(reason: u32, kind: ExceptionKind)
    ensures
        spec_code_for_termination(reason) != OK,
        TERMINATION_HALT <= spec_termination_for_arch_exception(kind) <= TERMINATION_DATA_ABORT,
{
}

} // verus!
