use nextcore_ise::arch::{
    GuestBus, ArchRunStatus, ExceptionKind, GuestCpuState, GuestException, RamBus, StepResult, SysRegFault, SystemRegister,
    CNTP_CTL_ENABLE, ESR_EC_DABT_SAME, ESR_EC_IABT_SAME, ESR_EC_UNKNOWN, ESR_FSC_TRANSLATION_L3, ESR_ISS_WNR,
    M1_COUNTER_FREQUENCY, PSTATE_I, PSTATE_MODE_MASK,
};
use nextcore_ise::exception_level::ExceptionLevel;
use nextcore_ise::mmu::Access;
use nextcore_ise::m1::{M1DisplayFormat, M1GuestBus, M1MachineGraph, M1_LOGICAL_TIMER_BASE};

fn movz(rd: u32, immediate: u32) -> u32 {
    0xd2800000 | ((immediate & 0xffff) << 5) | rd
}

fn mrs(rd: u32, reg: SystemRegister) -> u32 {
    let base = match reg {
        SystemRegister::CntpctEl0 => 0xd53b_e020,
        SystemRegister::CntvctEl0 => 0xd53b_e040,
        SystemRegister::CntpCtlEl0 => 0xd53b_e220,
        SystemRegister::CntpCvalEl0 => 0xd53b_e240,
        SystemRegister::CntpTvalEl0 => 0xd53b_e200,
        SystemRegister::CntvCtlEl0 => 0xd53b_e320,
        SystemRegister::CntvCvalEl0 => 0xd53b_e340,
        SystemRegister::CurrentEl => 0xd538_4240,
        SystemRegister::IdAa64Mmfr0El1 => 0xd538_0700,
        SystemRegister::IdAa64Isar1El1 => 0xd538_0620,
        _ => 0xd53b_e000,
    };
    base | rd
}

fn assemble(words: &[u32]) -> Vec<u8> {
    let mut code = vec![0u8; words.len() * 4];
    for (index, word) in words.iter().enumerate() {
        code[index * 4..index * 4 + 4].copy_from_slice(&word.to_le_bytes());
    }
    code
}

#[test]
fn reset_and_exception_commit_are_explicit() {
    let mut cpu = GuestCpuState::reset(3);
    assert_eq!(cpu.current_el, ExceptionLevel::El1);
    assert_eq!(cpu.pstate & PSTATE_MODE_MASK, 5);
    assert!(cpu.state_valid());
    assert_eq!(cpu.affinity, 3);
    assert_eq!(cpu.sys.cntfrq_el0, M1_COUNTER_FREQUENCY);
    cpu.raise(GuestException { kind: ExceptionKind::DataAbort, instruction: 0, syndrome: 0x25, far: 0x4000, pc: 0x1000 });
    assert_eq!(cpu.pending_exception.unwrap().kind, ExceptionKind::DataAbort);
    assert_eq!(cpu.sys.far_el1, 0x4000);
    cpu.sys.vbar_el1 = 0x8000;
    cpu.pc = 0x1000;
    assert_eq!(cpu.take_pending_exception().unwrap().kind, ExceptionKind::DataAbort);
    assert_eq!(cpu.pc, 0x8200);
    assert_eq!(cpu.current_el, ExceptionLevel::El1);
    assert_eq!(cpu.exception_vector, 0x8200);
    assert!(cpu.state_valid());
}

#[test]
fn system_register_bank_enforces_el_and_timer_contract() {
    let mut cpu = GuestCpuState::reset(0);
    assert!(cpu.write_sysreg(SystemRegister::CntpCvalEl0, 3).is_ok());
    assert!(cpu.write_sysreg(SystemRegister::CntpCtlEl0, 1).is_ok());
    cpu.advance_counter(3);
    assert_eq!(cpu.read_sysreg(SystemRegister::CntpctEl0).unwrap(), 3);
    assert!(cpu.timer.pending());
    assert!(cpu.set_exception_level(ExceptionLevel::El0 as u8));
    assert_eq!(cpu.read_sysreg(SystemRegister::SctlrEl1), Err(SysRegFault::Privilege));
}

#[test]
fn el2_and_el3_register_banks_and_vectors_are_not_el1_aliases() {
    let mut cpu = GuestCpuState::reset(0);
    assert_eq!(cpu.read_sysreg(SystemRegister::HcrEl2), Err(SysRegFault::Privilege));
    assert!(cpu.set_exception_level(ExceptionLevel::El2 as u8));
    assert!(cpu.write_sysreg(SystemRegister::HcrEl2, 1 << 27).is_ok());
    assert_eq!(cpu.read_sysreg(SystemRegister::HcrEl2).unwrap(), 1 << 27);
    assert!(cpu.write_sysreg(SystemRegister::VbarEl2, 0x8000).is_ok());
    cpu.pc = 0x1234;
    cpu.raise(GuestException { kind: ExceptionKind::DataAbort, instruction: 0, syndrome: 0x25, far: 0x4000, pc: cpu.pc });
    assert_eq!(cpu.sys.elr_el2, 0x1234);
    assert_eq!(cpu.sys.esr_el2, (ESR_EC_DABT_SAME << 26) | ESR_FSC_TRANSLATION_L3);
    assert_eq!(cpu.take_pending_exception().unwrap().kind, ExceptionKind::DataAbort);
    assert_eq!(cpu.current_el, ExceptionLevel::El2);
    assert_eq!(cpu.pc, 0x8200);
    assert!(cpu.eret().is_ok());
    assert_eq!(cpu.current_el, ExceptionLevel::El2);
    assert_eq!(cpu.pc, 0x1234);

    assert_eq!(cpu.read_sysreg(SystemRegister::ScrEl3), Err(SysRegFault::Privilege));
    assert!(cpu.set_exception_level(ExceptionLevel::El3 as u8));
    assert!(cpu.write_sysreg(SystemRegister::ScrEl3, 1).is_ok());
    assert_eq!(cpu.read_sysreg(SystemRegister::ScrEl3).unwrap(), 1);
}

#[test]
fn smp_exclusive_and_pauth_boundaries_are_explicit() {
    let mut cpu = GuestCpuState::reset(1);
    assert!(cpu.smp.set_cpu_count(4));
    assert!(cpu.smp.bring_online(1));
    cpu.smp.route_external(1 << 1);
    assert!(cpu.poll_interrupt());
    assert_eq!(cpu.pending_exception.unwrap().kind, ExceptionKind::ExternalInterrupt);
    cpu.pending_exception = None;
    cpu.exclusive.reserve(0x1000, 8, 1);
    assert!(cpu.exclusive.succeeds(0x1000, 8, 1));
    cpu.exclusive.clear_on_store(0x1004, 4);
    assert!(!cpu.exclusive.valid);
    let signed = cpu.pauth.sign(1, 2, 0, 16).unwrap();
    assert_eq!(cpu.pauth.authenticate(signed, 2, 0, 16).unwrap(), 1);
}

#[test]
fn reference_core_executes_guest_and_commits_halt() {
    let guest = assemble(&[movz(0, 7), 0xd4400000]);
    let mut ram = [0u8; 4096];
    let mut cpu = GuestCpuState::reset(0);
    let result = cpu.run_bounded(&guest, &mut ram, 4);
    assert_eq!(result.status, ArchRunStatus::Halt);
    assert_eq!(cpu.x[0], 7);
    assert_eq!(result.retired, 2);
    assert_eq!(result.pc, 8);
}

#[test]
fn reference_core_budget_is_per_bounded_invocation() {
    let guest = assemble(&[movz(0, 9), 0xd4400000]);
    let mut ram = [0u8; 4096];
    let mut cpu = GuestCpuState::reset(0);
    let first = cpu.run_bounded(&guest, &mut ram, 4);
    let second = cpu.run_bounded(&guest, &mut ram, 4);
    assert_eq!(first.status, ArchRunStatus::Halt);
    assert_eq!(second.status, ArchRunStatus::Halt);
    assert_eq!(first.retired, 2);
    assert_eq!(second.retired, 2);
    assert_eq!(cpu.x[0], 9);
}

#[test]
fn reference_core_records_exception_before_explicit_vector_take() {
    let code = 0xffff_ffffu32.to_le_bytes();
    let mut ram = [0u8; 4096];
    let mut cpu = GuestCpuState::reset(0);
    assert!(cpu.set_exception_level(ExceptionLevel::El0 as u8));
    let result = cpu.run_bounded(&code, &mut ram, 4);
    assert_eq!(result.status, ArchRunStatus::Exception);
    assert_eq!(result.exception.unwrap().kind, ExceptionKind::UndefinedInstruction);
    assert_eq!(cpu.current_el, ExceptionLevel::El0);
    assert_eq!(cpu.exception_target, Some(ExceptionLevel::El1));
    assert!(cpu.exception_from_lower_el);
    assert!(cpu.pending_exception.is_some());
    assert!(cpu.state_valid());
    assert_eq!(cpu.take_pending_exception().unwrap().kind, ExceptionKind::UndefinedInstruction);
    assert_eq!(cpu.current_el, ExceptionLevel::El1);
    assert_eq!(cpu.pc, 0x400);
    assert!(cpu.pending_exception.is_none());
    assert!(cpu.state_valid());
}

#[test]
fn reference_core_keeps_fault_instruction_distinct_from_esr() {
    let word = 0xffff_ffffu32;
    let code = word.to_le_bytes();
    let mut ram = [0u8; 4096];
    let mut cpu = GuestCpuState::reset(0);
    let result = cpu.run_bounded(&code, &mut ram, 1);
    let exception = result.exception.unwrap();
    assert_eq!(exception.kind, ExceptionKind::UndefinedInstruction);
    assert_eq!(exception.instruction, word);
    assert_eq!(exception.syndrome, ESR_EC_UNKNOWN << 26);
    assert_ne!(u64::from(exception.instruction), exception.syndrome);
}

#[test]
fn nonzero_hlt_traps_without_committing_a_next_pc() {
    let code = 0xd440_0020u32.to_le_bytes();
    let mut ram = [0u8; 64];
    let mut cpu = GuestCpuState::reset(0);
    let result = cpu.run_bounded(&code, &mut ram, 1);
    assert_eq!(result.status, ArchRunStatus::Exception);
    assert_eq!(result.pc, 0);
    let exception = result.exception.unwrap();
    assert_eq!(exception.kind, ExceptionKind::UndefinedInstruction);
    assert_eq!(exception.pc, 0);
    assert_eq!(cpu.pc, 0);
    assert_eq!(cpu.sys.elr_el1, 0);
}

#[test]
fn data_abort_syndrome_preserves_store_direction() {
    let guest = assemble(&[0xd2a2_0001, 0xf900_0020]);
    let mut ram = [0u8; 64];
    let mut cpu = GuestCpuState::reset(0);
    let result = cpu.run_bounded(&guest, &mut ram, 4);
    assert_eq!(result.status, ArchRunStatus::Exception);
    assert_eq!(result.exception.unwrap().kind, ExceptionKind::DataAbort);
    assert_eq!(cpu.sys.far_el1, 0x1000_0000);
    assert_eq!(cpu.sys.esr_el1, (ESR_EC_DABT_SAME << 26) | ESR_ISS_WNR | ESR_FSC_TRANSLATION_L3);
}

#[test]
fn reference_core_reads_counter_through_mrs() {
    let guest = assemble(&[mrs(0, SystemRegister::CntpctEl0), 0xd4400000]);
    let mut ram = [0u8; 4096];
    let mut cpu = GuestCpuState::reset(0);
    cpu.advance_counter(9);
    let result = cpu.run_bounded(&guest, &mut ram, 4);
    assert_eq!(result.status, ArchRunStatus::Halt);
    assert_eq!(cpu.x[0], 9);
}

#[test]
fn reference_core_exposes_current_el_identity_and_correct_timer_encodings() {
    let code = assemble(&[
        mrs(0, SystemRegister::CurrentEl),
        mrs(1, SystemRegister::IdAa64Mmfr0El1),
        mrs(2, SystemRegister::IdAa64Isar1El1),
        mrs(3, SystemRegister::CntpctEl0),
        0xd440_0000,
    ]);
    let mut ram = [0u8; 4096];
    let mut cpu = GuestCpuState::reset(0);
    cpu.advance_counter(10);
    let result = cpu.run_bounded(&code, &mut ram, 16);
    assert_eq!(result.status, ArchRunStatus::Halt);
    assert_eq!(cpu.x[0], 4);
    assert_eq!((cpu.x[1] >> 20) & 0xf, 1);
    assert_eq!((cpu.x[1] >> 28) & 0xf, 0);
    assert_eq!(cpu.x[2] & 0xf0, 0x10);
    assert_eq!(cpu.x[3], 13);
}

#[test]
fn reference_core_accepts_daif_spsel_and_tlbi_boundaries() {
    let code = assemble(&[0xd503_42df, 0xd503_42ff, 0xd500_41bf, 0xd508_871f, 0xd503_3f9f, 0xd503_3fdf, 0xd440_0000]);
    let mut ram = [0u8; 4096];
    let mut cpu = GuestCpuState::reset(0);
    let result = cpu.run_bounded(&code, &mut ram, 16);
    assert_eq!(result.status, ArchRunStatus::Halt);
    assert_ne!(cpu.pstate & 1, 0);
    assert_eq!(cpu.pstate & PSTATE_I, 0);
}

#[test]
fn pending_timer_interrupt_commits_exception_entry_at_instruction_boundary() {
    let guest = assemble(&[0xd503_201f, 0xd503_201f]);
    let mut ram = [0u8; 4096];
    let mut cpu = GuestCpuState::reset(0);
    cpu.sys.vbar_el1 = 0x4000;
    assert!(cpu.write_sysreg(SystemRegister::CntpCvalEl0, 1).is_ok());
    assert!(cpu.write_sysreg(SystemRegister::CntpCtlEl0, CNTP_CTL_ENABLE).is_ok());
    let result = cpu.run_bounded(&guest, &mut ram, 4);
    assert_eq!(result.status, ArchRunStatus::Exception);
    let exception = result.exception.unwrap();
    assert_eq!(exception.kind, ExceptionKind::TimerInterrupt);
    assert_eq!(exception.pc, 4);
    assert_eq!(result.retired, 1);
    assert_eq!(result.pc, 0x4280);
    assert_eq!(cpu.current_el, ExceptionLevel::El1);
    assert_eq!(cpu.sys.elr_el1, 4);
    assert_eq!(cpu.sys.spsr_el1 as u32 & PSTATE_MODE_MASK, 5);
    assert_ne!(cpu.pstate & PSTATE_I, 0);
    assert!(cpu.pending_exception.is_none());
    assert!(cpu.state_valid());
    assert!(cpu.timer.pending());
}

#[test]
fn reference_core_executes_acquire_release_exclusive_sequence() {
    let guest = assemble(&[movz(1, 0x100), 0xc85f_fc20, 0x9100_0400, 0xd503_3bbf, 0xc802_fc20, 0xd440_0000]);
    let mut ram = [0u8; 4096];
    ram[0x100..0x108].copy_from_slice(&41u64.to_le_bytes());
    let mut cpu = GuestCpuState::reset(0);
    let result = cpu.run_bounded(&guest, &mut ram, 16);
    assert_eq!(result.status, ArchRunStatus::Halt);
    assert_eq!(u64::from_le_bytes(ram[0x100..0x108].try_into().unwrap()), 42);
    assert_eq!(cpu.x[2], 0);
    assert!(!cpu.exclusive.valid);
}

#[test]
fn failed_store_exclusive_reports_failure_and_clrex_clears_reservation() {
    let guest = assemble(&[movz(1, 0x100), 0xc85f_7c20, 0xd503_3f5f, 0xc802_7c20, 0xd440_0000]);
    let mut ram = [0u8; 4096];
    ram[0x100..0x108].copy_from_slice(&41u64.to_le_bytes());
    let mut cpu = GuestCpuState::reset(0);
    let result = cpu.run_bounded(&guest, &mut ram, 16);
    assert_eq!(result.status, ArchRunStatus::Halt);
    assert_eq!(u64::from_le_bytes(ram[0x100..0x108].try_into().unwrap()), 41);
    assert_eq!(cpu.x[2], 1);
    assert!(!cpu.exclusive.valid);
}

#[test]
fn reference_core_dispatches_guest_mmio_through_the_m1_bus() {
    let code = assemble(&[
        0xd2a2_0001,
        0x9140_0821,
        movz(0, 7),
        0xf900_0420,
        0x5280_0020,
        0xb900_1020,
        0xf940_0020,
        0xd440_0000,
    ]);
    let mut ram = [0u8; 65_536];
    let mut graph = M1MachineGraph::new(ram.len() as u64);
    assert!(graph.activate_runtime());
    let mut cpu = GuestCpuState::reset(0);
    let result = {
        let mut bus = M1GuestBus::new(&mut graph, &mut ram);
        cpu.run_bounded_with_bus(&code, &mut bus, 32)
    };
    assert_eq!(result.status, ArchRunStatus::Exception, "result={:?}", result);
    assert_eq!(result.exception.unwrap().kind, ExceptionKind::TimerInterrupt);
    assert_eq!(result.retired, 7);
    assert_eq!(cpu.x[0], 6);
    assert_eq!(graph.timer.compare, 7);
    assert!(graph.timer.enabled);
    assert_eq!(graph.take_interrupt(0), Some(0));
    assert_eq!(graph.mmio_read(M1_LOGICAL_TIMER_BASE + 0x00, 64), Ok(7));
}

#[test]
fn reference_core_converts_non_timer_m1_irq_into_external_exception() {
    let code = assemble(&[0xd2a2_0001, 0x9140_1821, movz(0, 1), 0xb900_0020, 0xd440_0000]);
    let mut ram = [0u8; 65_536];
    let mut graph = M1MachineGraph::new(ram.len() as u64);
    assert!(graph.configure_display(0x1000, 0x2000, 2, 2, 8, M1DisplayFormat::Xrgb8888).is_ok());
    assert!(graph.activate_runtime());
    let mut cpu = GuestCpuState::reset(0);
    let result = {
        let mut bus = M1GuestBus::new(&mut graph, &mut ram);
        cpu.run_bounded_with_bus(&code, &mut bus, 16)
    };
    assert_eq!(result.status, ArchRunStatus::Exception);
    assert_eq!(result.exception.unwrap().kind, ExceptionKind::ExternalInterrupt);
    assert_eq!(result.retired, 4);
    assert_eq!(cpu.pc, 0x280);
    assert!(graph.take_interrupt(0).is_some());
}

#[test]
fn iboot_panic_range_data_abort_preserves_wnr_and_far() {
    let guest = assemble(&[0xd2a4_0021, 0xb900_0020, 0xd440_0000]);
    let mut ram = [0u8; 65_536];
    let mut cpu = GuestCpuState::reset(0);
    let result = cpu.run_bounded(&guest, &mut ram, 8);
    assert_eq!(result.status, ArchRunStatus::Exception);
    let exception = result.exception.unwrap();
    assert_eq!(exception.kind, ExceptionKind::DataAbort);
    assert_eq!(cpu.sys.far_el1, 0x2001_0000);
    assert_eq!(cpu.sys.esr_el1, (ESR_EC_DABT_SAME << 26) | ESR_ISS_WNR | ESR_FSC_TRANSLATION_L3);
    assert_eq!(cpu.current_el, ExceptionLevel::El1);
    assert!(cpu.pending_exception.is_some());
    cpu.sys.vbar_el1 = 0x8000;
    let taken = cpu.take_pending_exception().unwrap();
    assert_eq!(taken.kind, ExceptionKind::DataAbort);
    assert_eq!(cpu.pc, 0x8200);
    assert!(cpu.pending_exception.is_none());
    assert!(cpu.state_valid());
}

#[test]
fn iboot_panic_range_instruction_abort_classifies_fetch_fault() {
    let code = 0x1400_4000u32.to_le_bytes();
    let mut ram = [0u8; 65_536];
    let mut cpu = GuestCpuState::reset(0);
    let result = cpu.run_bounded(&code, &mut ram, 4);
    assert_eq!(result.status, ArchRunStatus::Exception);
    let exception = result.exception.unwrap();
    assert_eq!(exception.kind, ExceptionKind::InstructionAbort);
    assert_eq!(cpu.sys.esr_el1, (ESR_EC_IABT_SAME << 26) | ESR_FSC_TRANSLATION_L3);
    assert_eq!(cpu.sys.far_el1, 0x1_0000);
    assert_eq!(cpu.current_el, ExceptionLevel::El1);
    assert!(cpu.pending_exception.is_some());
}

#[test]
fn execute_one_runs_a_single_add_immediate() {
    let mut ram = [0u8; 8];
    ram[..4].copy_from_slice(&0x91000400u32.to_le_bytes());
    let mut cpu = GuestCpuState::reset(0);
    cpu.x[0] = 10;
    let result = cpu.execute_one(&mut RamBus { ram: &mut ram, base: 0 });
    assert_eq!(result, StepResult::Continue);
    assert_eq!((cpu.x[0], cpu.pc), (11, 4));
}

#[test]
fn exception_then_eret_returns_to_the_saved_state() {
    let mut cpu = GuestCpuState::reset(0);
    cpu.pc = 0x2000;
    cpu.sys.vbar_el1 = 0x8000;
    let saved = cpu.pstate;
    cpu.raise(GuestException { kind: ExceptionKind::SupervisorCall, instruction: 0xd4000001, syndrome: 0, far: 0, pc: 0x2004 });
    assert!(cpu.take_pending_exception().is_some());
    assert_eq!(cpu.pc, 0x8200);
    assert!(cpu.eret().is_ok());
    assert_eq!(cpu.pc, 0x2004);
    assert_eq!(cpu.pstate, saved);
}

#[test]
fn sysreg_write_then_read_returns_the_value() {
    let mut cpu = GuestCpuState::reset(0);
    assert!(cpu.write_sysreg(SystemRegister::MairEl1, 0x44ff).is_ok());
    assert_eq!(cpu.read_sysreg(SystemRegister::MairEl1), Ok(0x44ff));
    assert!(cpu.write_sysreg(SystemRegister::CntpctEl0, 5).is_err());
}

#[test]
fn budget_exhaustion_is_reported() {
    let guest = assemble(&[0xd503_201f, 0xd503_201f, 0xd503_201f]);
    let mut ram = [0u8; 4096];
    let mut cpu = GuestCpuState::reset(0);
    let result = cpu.run_bounded(&guest, &mut ram, 2);
    assert_eq!(result.status, ArchRunStatus::Budget);
    assert_eq!(result.retired, 2);
    assert_eq!(result.pc, 8);
}

#[test]
fn ram_bus_reads_back_what_it_wrote() {
    let mut ram = [0u8; 32];
    let mut bus = RamBus { ram: &mut ram, base: 0x1000 };
    assert!(bus.write(0x1008, 4, 0xdead_beef_1234_5678, nextcore_ise::mmu::Access::Write).is_ok());
    assert_eq!(bus.read(0x1008, 4, nextcore_ise::mmu::Access::Read), Ok(0x1234_5678));
    assert_eq!(bus.read(0x1008, 2, nextcore_ise::mmu::Access::Read), Ok(0x5678));
    assert!(bus.write(0x101e, 4, 1, nextcore_ise::mmu::Access::Write).is_err());
    assert!(bus.read(0x0fff, 1, nextcore_ise::mmu::Access::Read).is_err());
}

#[test]
fn plain_store_then_load_goes_through_the_bus() {
    // mov x1, #0x100; mov x0, #0x2a; str x0, [x1, #8]; ldr x2, [x1, #8]; hlt
    let guest = assemble(&[movz(1, 0x100), movz(0, 0x2a), 0xf900_0420, 0xf940_0422, 0xd440_0000]);
    let mut ram = [0u8; 4096];
    let mut cpu = GuestCpuState::reset(0);
    let result = cpu.run_bounded(&guest, &mut ram, 16);
    assert_eq!(result.status, ArchRunStatus::Halt);
    assert_eq!(cpu.x[2], 0x2a);
    assert_eq!(u64::from_le_bytes(ram[0x108..0x110].try_into().unwrap()), 0x2a);
}

#[test]
fn asid8_reference_selection_and_transactional_reject() {
    for sixteen in [false, true] {
        for tag in [0u64, 1, 127, 255] {
            for a1 in [false, true] {
                let mut cpu = GuestCpuState::reset(0);
                let other = 255 - tag;
                let tcr = if sixteen {
                    17 | (17 << 16) | (2 << 14) | (1 << 30) | (5 << 32)
                } else {
                    16 | (16 << 16) | (2 << 30) | (5 << 32)
                };
                cpu.write_sysreg(SystemRegister::Ttbr0El1, 0x10000000 | ((if a1 { other } else { tag }) << 48)).unwrap();
                cpu.write_sysreg(SystemRegister::Ttbr1El1, 0x10000000 | ((if a1 { tag } else { other }) << 48)).unwrap();
                cpu.write_sysreg(SystemRegister::TcrEl1, tcr | (u64::from(a1) << 22)).unwrap();
                cpu.write_sysreg(SystemRegister::SctlrEl1, 0x30d00803).unwrap();
                assert_eq!(cpu.mmu.asid, tag as u16);
                for (reg, bad) in [
                    (SystemRegister::TcrEl1, cpu.sys.tcr_el1 | 1 << 36),
                    (SystemRegister::Ttbr0El1, cpu.sys.ttbr0_el1 | 1 << 56),
                    (SystemRegister::Ttbr1El1, cpu.sys.ttbr1_el1 | 1 << 63),
                ] {
                    let before = (cpu.sys.ttbr0_el1, cpu.sys.ttbr1_el1, cpu.sys.tcr_el1, cpu.mmu.asid, cpu.pc, cpu.sp, cpu.pstate, cpu.x);
                    assert!(cpu.write_sysreg(reg, bad).is_err());
                    assert_eq!(
                        (cpu.sys.ttbr0_el1, cpu.sys.ttbr1_el1, cpu.sys.tcr_el1, cpu.mmu.asid, cpu.pc, cpu.sp, cpu.pstate, cpu.x),
                        before
                    );
                }
            }
        }
    }
}

#[test]
fn optional_tcr_bank_rejection_preserves_state_and_warm_cache() {
    for on in [false, true] {
        for combo in 1u64..16 {
            let mut cpu = GuestCpuState::reset(0x1234);
            cpu.x = [0x55; 31];
            cpu.sp = 0x8800;
            cpu.pstate = 0xf00003c5;
            cpu.write_sysreg(SystemRegister::TcrEl1, 16).unwrap();
            cpu.sys.sctlr_el1 = u64::from(on);
            cpu.sys.ttbr0_el1 = 0x1000 | (127 << 48);
            assert!(cpu.mmu.configure_tcr(0x1000, 0, 16, 127));
            let table = |pa: u64| match pa {
                0x1000 => Some(0x2003),
                0x2000 => Some(0x3003),
                0x3000 => Some(0x4003),
                0x4000 => Some(0x80000403),
                _ => None,
            };
            assert!(cpu.mmu.translate(0, Access::Read, ExceptionLevel::El1, table).is_ok());
            cpu.mmu.enabled = on;
            let before = cpu;
            assert_eq!(cpu.write_sysreg(SystemRegister::TcrEl1, 16 | (combo << 39)), Err(SysRegFault::InvalidValue));
            assert_eq!(
                (cpu.x, cpu.sp, cpu.sp_el, cpu.pc, cpu.pstate, cpu.current_el),
                (before.x, before.sp, before.sp_el, before.pc, before.pstate, before.current_el)
            );
            let (a, b) = (cpu.sys, before.sys);
            assert_eq!(
                [a.sctlr_el1, a.ttbr0_el1, a.ttbr1_el1, a.tcr_el1, a.mair_el1, a.vbar_el1, a.esr_el1, a.far_el1, a.elr_el1, a.spsr_el1, a.cntfrq_el0, a.cntpct_el0],
                [b.sctlr_el1, b.ttbr0_el1, b.ttbr1_el1, b.tcr_el1, b.mair_el1, b.vbar_el1, b.esr_el1, b.far_el1, b.elr_el1, b.spsr_el1, b.cntfrq_el0, b.cntpct_el0]
            );
            assert_eq!(
                [a.cntp_ctl_el0, a.cntp_cval_el0, a.id_aa64mmfr0_el1, a.id_aa64isar1_el1, a.cntvct_el0, a.cntv_ctl_el0, a.cntv_cval_el0, a.cntp_tval_el0, a.hcr_el2, a.cnthctl_el2, a.vbar_el2],
                [b.cntp_ctl_el0, b.cntp_cval_el0, b.id_aa64mmfr0_el1, b.id_aa64isar1_el1, b.cntvct_el0, b.cntv_ctl_el0, b.cntv_cval_el0, b.cntp_tval_el0, b.hcr_el2, b.cnthctl_el2, b.vbar_el2]
            );
            assert_eq!(
                [a.esr_el2, a.far_el2, a.elr_el2, a.spsr_el2, a.scr_el3, a.vbar_el3, a.esr_el3, a.far_el3, a.elr_el3, a.spsr_el3],
                [b.esr_el2, b.far_el2, b.elr_el2, b.spsr_el2, b.scr_el3, b.vbar_el3, b.esr_el3, b.far_el3, b.elr_el3, b.spsr_el3]
            );
            assert_eq!(cpu.mmu.asid, 127);
            assert_eq!(cpu.mmu.enabled, on);
            let mut retained = cpu.mmu;
            retained.enabled = true;
            assert!(retained
                .translate(0, Access::Read, ExceptionLevel::El1, |_| panic!("rejected TCR must preserve warm cache"))
                .is_ok());
        }
    }
}

#[test]
fn hierarchy_reference_instruction_fetch_matrix() {
    // Leaf AP01: parent00 denies EL1 fetch; parent01/10/11 remove effective EL0 writes.
    for sixteen in [false, true] {
        for parent in 0..4u64 {
            for el in [ExceptionLevel::El0, ExceptionLevel::El1] {
                let step = if sixteen { 0x4000usize } else { 0x1000 };
                let start = if sixteen { 1 } else { 0 };
                let mut ram = vec![0u8; 0x20000];
                for level in start..=3 {
                    let pa = step * (level - start + 1);
                    let d = if level == 3 {
                        0x10000u64 | 0x443
                    } else {
                        (pa + step) as u64 | 3 | if level == start { parent << 61 } else { 0 }
                    };
                    ram[pa..pa + 8].copy_from_slice(&d.to_le_bytes());
                }
                ram[0x10000..0x10004].copy_from_slice(&0x91000400u32.to_le_bytes());
                let mut cpu = GuestCpuState::reset(0);
                cpu.current_el = el;
                cpu.pstate = if el == ExceptionLevel::El0 { 0x3c0 } else { 0x3c5 };
                cpu.sys.ttbr0_el1 = step as u64;
                cpu.sys.tcr_el1 = if sixteen { 17 | (2 << 14) } else { 16 };
                cpu.sys.sctlr_el1 = 0x30d00803;
                cpu.sys.mair_el1 = 0x44;
                cpu.sync_mmu().unwrap();
                cpu.x[0] = 10;
                let before = ram.clone();
                let result = cpu.execute_one(&mut RamBus { ram: &mut ram, base: 0 });
                let allowed = el == ExceptionLevel::El0 || parent != 0;
                if allowed {
                    assert_eq!(result, StepResult::Continue);
                    assert_eq!((cpu.x[0], cpu.pc), (11, 4));
                } else {
                    assert!(matches!(result, StepResult::Exception(_)));
                    assert_eq!((cpu.x[0], cpu.pc), (10, 0));
                }
                assert_eq!(ram, before);
            }
        }
    }
}

#[test]
fn execute_one_subs_sets_carry_without_borrow() {
    let mut cpu = GuestCpuState::reset(0);
    cpu.x[0] = 5;
    let mut ram = [0u8; 16];
    ram[0..4].copy_from_slice(&0xF100_0C01u32.to_le_bytes());
    let mut bus = RamBus::new(&mut ram);
    assert_eq!(cpu.execute_one(&mut bus), StepResult::Continue);
    assert_eq!((cpu.x[1], cpu.x[0], cpu.pc), (2, 5, 4));
    assert_eq!(cpu.pstate, 0x2000_0005);
}
