//! Explicit AArch64 guest architectural state and a bounded reference core.
//!
//! A step is committed only after decode, translation and permission checks:
//! an instruction that raises an exception leaves the general registers,
//! the stack pointers, the PC and PSTATE as they were.
use vstd::prelude::*;
use crate::exception_level::{ExceptionLevel, el_index};
use crate::mmu::{
    Access, Fault as MmuFault, VfMmu, lemma_translate_with, mmu_wf, spec_select_root, tcr_admissible, tlb_cleared,
    tlb_match, translate_with, translated_mmu, walk_produces,
};
use crate::pauth::{self, PauthContext, PauthState, PauthView, step_spec};

verus! {

pub const PSTATE_N: u32 = 0x8000_0000;
pub const PSTATE_Z: u32 = 0x4000_0000;
pub const PSTATE_C: u32 = 0x2000_0000;
pub const PSTATE_V: u32 = 0x1000_0000;
pub const PSTATE_D: u32 = 0x200;
pub const PSTATE_A: u32 = 0x100;
pub const PSTATE_I: u32 = 0x80;
pub const PSTATE_F: u32 = 0x40;
pub const PSTATE_MODE_MASK: u32 = 0x0f;
pub const PSTATE_DAIF: u32 = 0x3c0;

pub const SCTLR_M: u64 = 1;
pub const SCTLR_A: u64 = 2;
pub const CNTP_CTL_ENABLE: u64 = 1;
pub const CNTP_CTL_IMASK: u64 = 2;
pub const CNTP_CTL_ISTATUS: u64 = 4;
pub const M1_COUNTER_FREQUENCY: u64 = 24_000_000;

pub const ESR_EC_UNKNOWN: u64 = 0x00;
pub const ESR_EC_SVC64: u64 = 0x15;
pub const ESR_EC_SYSREG: u64 = 0x18;
pub const ESR_EC_IABT_LOWER: u64 = 0x20;
pub const ESR_EC_IABT_SAME: u64 = 0x21;
pub const ESR_EC_DABT_LOWER: u64 = 0x24;
pub const ESR_EC_DABT_SAME: u64 = 0x25;
pub const ESR_FSC_TRANSLATION_L3: u64 = 0x07;
pub const ESR_FSC_ACCESS_FLAG_L3: u64 = 0x09;
pub const ESR_FSC_PERMISSION_L3: u64 = 0x0d;
pub const ESR_FSC_ALIGNMENT: u64 = 0x21;
pub const ESR_ISS_WNR: u64 = 0x40;
/// Private write hint carried in the low syndrome by decoder call sites.
pub const INTERNAL_ACCESS_WNR: u64 = 0x40_0000;

/// PSTATE.M[3:0] of the handler (h) stack form at each level.
pub open spec fn spec_mode_for_el(level: ExceptionLevel) -> u32 {
    match level {
        ExceptionLevel::El0 => 0,
        ExceptionLevel::El1 => 5,
        ExceptionLevel::El2 => 9,
        ExceptionLevel::El3 => 13,
    }
}

pub fn mode_for_el(level: ExceptionLevel) -> (m: u32)
    ensures
        m == spec_mode_for_el(level),
{
    match level {
        ExceptionLevel::El0 => 0,
        ExceptionLevel::El1 => 5,
        ExceptionLevel::El2 => 9,
        ExceptionLevel::El3 => 13,
    }
}

/// The level encoded by PSTATE.M[3:0] (t and h forms alike).
pub open spec fn spec_level_for_mode(mode: u32) -> Option<ExceptionLevel> {
    let m = mode & 0x0f;
    if m == 0 {
        Some(ExceptionLevel::El0)
    } else if m == 4 || m == 5 {
        Some(ExceptionLevel::El1)
    } else if m == 8 || m == 9 {
        Some(ExceptionLevel::El2)
    } else if m == 12 || m == 13 {
        Some(ExceptionLevel::El3)
    } else {
        None
    }
}

pub fn level_for_mode(mode: u32) -> (r: Option<ExceptionLevel>)
    ensures
        r == spec_level_for_mode(mode),
{
    let m = mode & PSTATE_MODE_MASK;
    if m == 0 {
        Some(ExceptionLevel::El0)
    } else if m == 4 || m == 5 {
        Some(ExceptionLevel::El1)
    } else if m == 8 || m == 9 {
        Some(ExceptionLevel::El2)
    } else if m == 12 || m == 13 {
        Some(ExceptionLevel::El3)
    } else {
        None
    }
}

#[derive(Clone, Copy, Debug, PartialEq, Eq, Structural)]
pub enum ExceptionKind {
    UndefinedInstruction,
    PrivilegedInstruction,
    InstructionAbort,
    DataAbort,
    TranslationFault,
    PermissionFault,
    AlignmentFault,
    SystemRegisterTrap,
    TimerInterrupt,
    ExternalInterrupt,
    GuestHalt,
    SupervisorCall,
}

pub open spec fn is_data_fault(kind: ExceptionKind) -> bool {
    kind == ExceptionKind::DataAbort || kind == ExceptionKind::TranslationFault || kind
        == ExceptionKind::PermissionFault || kind == ExceptionKind::AlignmentFault
}

/// The exception class a synchronous exception of `kind` taken from
/// `source_el` reports in ESR_ELx, where there is one.
pub open spec fn spec_expected_ec(kind: ExceptionKind, source_el: ExceptionLevel) -> Option<u64> {
    if kind == ExceptionKind::SupervisorCall {
        Some(ESR_EC_SVC64)
    } else if kind == ExceptionKind::SystemRegisterTrap {
        Some(ESR_EC_SYSREG)
    } else if kind == ExceptionKind::InstructionAbort {
        Some(if source_el == ExceptionLevel::El0 { ESR_EC_IABT_LOWER } else { ESR_EC_IABT_SAME })
    } else if is_data_fault(kind) {
        Some(if source_el == ExceptionLevel::El0 { ESR_EC_DABT_LOWER } else { ESR_EC_DABT_SAME })
    } else {
        None
    }
}

pub fn expected_ec(kind: ExceptionKind, source_el: ExceptionLevel) -> (r: Option<u64>)
    ensures
        r == spec_expected_ec(kind, source_el),
{
    match kind {
        ExceptionKind::SupervisorCall => Some(ESR_EC_SVC64),
        ExceptionKind::SystemRegisterTrap => Some(ESR_EC_SYSREG),
        ExceptionKind::InstructionAbort => Some(
            if source_el == ExceptionLevel::El0 {
                ESR_EC_IABT_LOWER
            } else {
                ESR_EC_IABT_SAME
            },
        ),
        ExceptionKind::DataAbort | ExceptionKind::TranslationFault | ExceptionKind::PermissionFault
        | ExceptionKind::AlignmentFault => Some(
            if source_el == ExceptionLevel::El0 {
                ESR_EC_DABT_LOWER
            } else {
                ESR_EC_DABT_SAME
            },
        ),
        _ => None,
    }
}

/// The fault status code of a data-side fault.
pub open spec fn data_fsc(kind: ExceptionKind, supplied: u64) -> u64 {
    if kind == ExceptionKind::PermissionFault {
        ESR_FSC_PERMISSION_L3
    } else if kind == ExceptionKind::AlignmentFault {
        ESR_FSC_ALIGNMENT
    } else if kind == ExceptionKind::TranslationFault && supplied & 0x3f == ESR_FSC_ACCESS_FLAG_L3 {
        ESR_FSC_ACCESS_FLAG_L3
    } else {
        ESR_FSC_TRANSLATION_L3
    }
}

/// The ESR_ELx value a guest handler sees.  A supplied value whose class
/// already agrees with the exception is kept; otherwise the syndrome is
/// built from the class, the compact ISS carried in `supplied` (SVC
/// immediate, system-register ISS, write hint, access-flag code) and a
/// level-3 fault status.
pub open spec fn spec_exception_syndrome(kind: ExceptionKind, source_el: ExceptionLevel, supplied: u64) -> u64 {
    let ec = spec_expected_ec(kind, source_el);
    if ec is Some && supplied >> 26u64 == ec->Some_0 {
        supplied
    } else if kind == ExceptionKind::SupervisorCall {
        (ESR_EC_SVC64 << 26u64) | (supplied & 0xffff)
    } else if kind == ExceptionKind::SystemRegisterTrap {
        (ESR_EC_SYSREG << 26u64) | (supplied & 0x01ff_ffff)
    } else if kind == ExceptionKind::InstructionAbort {
        (ec->Some_0 << 26u64) | ESR_FSC_TRANSLATION_L3
    } else if is_data_fault(kind) {
        let wnr = if supplied & INTERNAL_ACCESS_WNR != 0 { ESR_ISS_WNR } else { 0 };
        (ec->Some_0 << 26u64) | wnr | data_fsc(kind, supplied)
    } else if kind == ExceptionKind::UndefinedInstruction || kind == ExceptionKind::PrivilegedInstruction {
        ESR_EC_UNKNOWN << 26u64
    } else {
        0
    }
}

pub fn exception_syndrome(kind: ExceptionKind, source_el: ExceptionLevel, supplied: u64) -> (r: u64)
    ensures
        r == spec_exception_syndrome(kind, source_el, supplied),
{
    let ec = expected_ec(kind, source_el);
    if let Some(e) = ec {
        if supplied >> 26u64 == e {
            return supplied;
        }
    }
    match kind {
        ExceptionKind::SupervisorCall => (ESR_EC_SVC64 << 26u64) | (supplied & 0xffff),
        ExceptionKind::SystemRegisterTrap => (ESR_EC_SYSREG << 26u64) | (supplied & 0x01ff_ffff),
        ExceptionKind::InstructionAbort => {
            let e = if source_el == ExceptionLevel::El0 { ESR_EC_IABT_LOWER } else { ESR_EC_IABT_SAME };
            (e << 26u64) | ESR_FSC_TRANSLATION_L3
        },
        ExceptionKind::DataAbort | ExceptionKind::TranslationFault | ExceptionKind::PermissionFault
        | ExceptionKind::AlignmentFault => {
            let e = if source_el == ExceptionLevel::El0 { ESR_EC_DABT_LOWER } else { ESR_EC_DABT_SAME };
            let fsc = match kind {
                ExceptionKind::PermissionFault => ESR_FSC_PERMISSION_L3,
                ExceptionKind::AlignmentFault => ESR_FSC_ALIGNMENT,
                _ => if kind == ExceptionKind::TranslationFault && supplied & 0x3f == ESR_FSC_ACCESS_FLAG_L3 {
                    ESR_FSC_ACCESS_FLAG_L3
                } else {
                    ESR_FSC_TRANSLATION_L3
                },
            };
            let wnr = if supplied & INTERNAL_ACCESS_WNR != 0 { ESR_ISS_WNR } else { 0 };
            (e << 26u64) | wnr | fsc
        },
        ExceptionKind::UndefinedInstruction | ExceptionKind::PrivilegedInstruction => ESR_EC_UNKNOWN << 26u64,
        _ => 0,
    }
}

pub open spec fn spec_access_syndrome(access: Access) -> u64 {
    if access == Access::Write { INTERNAL_ACCESS_WNR } else { 0 }
}

pub fn access_syndrome(access: Access) -> (r: u64)
    ensures
        r == spec_access_syndrome(access),
{
    match access {
        Access::Write => INTERNAL_ACCESS_WNR,
        Access::Read | Access::Execute => 0,
    }
}

#[derive(Clone, Copy, Debug, PartialEq, Eq, Structural)]
pub struct GuestException {
    pub kind: ExceptionKind,
    /// The raw A64 word that caused a synchronous exception; zero otherwise.
    pub instruction: u32,
    pub syndrome: u64,
    pub far: u64,
    pub pc: u64,
}

#[derive(Clone, Copy, Debug, PartialEq, Eq, Structural)]
pub enum SysRegFault {
    Privilege,
    Unknown,
    ReadOnly,
    InvalidValue,
}

#[derive(Clone, Copy, Debug, PartialEq, Eq, Structural)]
pub enum SystemRegister {
    SctlrEl1,
    Ttbr0El1,
    Ttbr1El1,
    TcrEl1,
    MairEl1,
    VbarEl1,
    EsrEl1,
    FarEl1,
    ElrEl1,
    SpsrEl1,
    CntfrqEl0,
    CntpctEl0,
    CntpCtlEl0,
    CntpCvalEl0,
    CurrentEl,
    IdAa64Mmfr0El1,
    IdAa64Isar1El1,
    CntvctEl0,
    CntvCtlEl0,
    CntvCvalEl0,
    CntpTvalEl0,
    HcrEl2,
    CnthctlEl2,
    VbarEl2,
    EsrEl2,
    FarEl2,
    ElrEl2,
    SpsrEl2,
    ScrEl3,
    VbarEl3,
    EsrEl3,
    FarEl3,
    ElrEl3,
    SpsrEl3,
}

/// The register an MRS/MSR word names once its Rt field is cleared; the
/// read (0xd53.) and write (0xd51.) encodings of a register map together.
/// CurrentEL has no write encoding.
pub open spec fn spec_sysreg_of(key: u32) -> Option<SystemRegister> {
    if key == 0xd538_1000 || key == 0xd518_1000 { Some(SystemRegister::SctlrEl1) }
    else if key == 0xd538_2000 || key == 0xd518_2000 { Some(SystemRegister::Ttbr0El1) }
    else if key == 0xd538_2020 || key == 0xd518_2020 { Some(SystemRegister::Ttbr1El1) }
    else if key == 0xd538_2040 || key == 0xd518_2040 { Some(SystemRegister::TcrEl1) }
    else if key == 0xd538_a000 || key == 0xd518_a000 { Some(SystemRegister::MairEl1) }
    else if key == 0xd538_c000 || key == 0xd518_c000 { Some(SystemRegister::VbarEl1) }
    else if key == 0xd538_5200 || key == 0xd518_5200 { Some(SystemRegister::EsrEl1) }
    else if key == 0xd538_6000 || key == 0xd518_6000 { Some(SystemRegister::FarEl1) }
    else if key == 0xd538_4020 || key == 0xd518_4020 { Some(SystemRegister::ElrEl1) }
    else if key == 0xd538_4000 || key == 0xd518_4000 { Some(SystemRegister::SpsrEl1) }
    else if key == 0xd53b_e000 || key == 0xd51b_e000 { Some(SystemRegister::CntfrqEl0) }
    else if key == 0xd53b_e020 || key == 0xd51b_e020 { Some(SystemRegister::CntpctEl0) }
    else if key == 0xd53b_e220 || key == 0xd51b_e220 { Some(SystemRegister::CntpCtlEl0) }
    else if key == 0xd53b_e240 || key == 0xd51b_e240 { Some(SystemRegister::CntpCvalEl0) }
    else if key == 0xd538_4240 { Some(SystemRegister::CurrentEl) }
    else if key == 0xd538_0700 || key == 0xd518_0700 { Some(SystemRegister::IdAa64Mmfr0El1) }
    else if key == 0xd538_0620 || key == 0xd518_0620 { Some(SystemRegister::IdAa64Isar1El1) }
    else if key == 0xd53b_e040 || key == 0xd51b_e040 { Some(SystemRegister::CntvctEl0) }
    else if key == 0xd53b_e320 || key == 0xd51b_e320 { Some(SystemRegister::CntvCtlEl0) }
    else if key == 0xd53b_e340 || key == 0xd51b_e340 { Some(SystemRegister::CntvCvalEl0) }
    else if key == 0xd53b_e200 || key == 0xd51b_e200 { Some(SystemRegister::CntpTvalEl0) }
    else if key == 0xd53c_1100 || key == 0xd51c_1100 { Some(SystemRegister::HcrEl2) }
    else if key == 0xd53c_e100 || key == 0xd51c_e100 { Some(SystemRegister::CnthctlEl2) }
    else if key == 0xd53c_c000 || key == 0xd51c_c000 { Some(SystemRegister::VbarEl2) }
    else if key == 0xd53c_5200 || key == 0xd51c_5200 { Some(SystemRegister::EsrEl2) }
    else if key == 0xd53c_6000 || key == 0xd51c_6000 { Some(SystemRegister::FarEl2) }
    else if key == 0xd53c_4020 || key == 0xd51c_4020 { Some(SystemRegister::ElrEl2) }
    else if key == 0xd53c_4000 || key == 0xd51c_4000 { Some(SystemRegister::SpsrEl2) }
    else if key == 0xd53e_1100 || key == 0xd51e_1100 { Some(SystemRegister::ScrEl3) }
    else if key == 0xd53e_c000 || key == 0xd51e_c000 { Some(SystemRegister::VbarEl3) }
    else if key == 0xd53e_5200 || key == 0xd51e_5200 { Some(SystemRegister::EsrEl3) }
    else if key == 0xd53e_6000 || key == 0xd51e_6000 { Some(SystemRegister::FarEl3) }
    else if key == 0xd53e_4020 || key == 0xd51e_4020 { Some(SystemRegister::ElrEl3) }
    else if key == 0xd53e_4000 || key == 0xd51e_4000 { Some(SystemRegister::SpsrEl3) }
    else { None }
}

/// The lowest level allowed to access a register.
pub open spec fn spec_minimum_el(reg: SystemRegister) -> ExceptionLevel {
    match reg {
        SystemRegister::CntfrqEl0 | SystemRegister::CntpctEl0 | SystemRegister::CntpCtlEl0
        | SystemRegister::CntpCvalEl0 | SystemRegister::CurrentEl | SystemRegister::CntvctEl0
        | SystemRegister::CntvCtlEl0 | SystemRegister::CntvCvalEl0 | SystemRegister::CntpTvalEl0 => ExceptionLevel::El0,
        SystemRegister::HcrEl2 | SystemRegister::CnthctlEl2 | SystemRegister::VbarEl2 | SystemRegister::EsrEl2
        | SystemRegister::FarEl2 | SystemRegister::ElrEl2 | SystemRegister::SpsrEl2 => ExceptionLevel::El2,
        SystemRegister::ScrEl3 | SystemRegister::VbarEl3 | SystemRegister::EsrEl3 | SystemRegister::FarEl3
        | SystemRegister::ElrEl3 | SystemRegister::SpsrEl3 => ExceptionLevel::El3,
        _ => ExceptionLevel::El1,
    }
}

impl SystemRegister {
    pub fn from_instruction(word: u32) -> (r: Option<SystemRegister>)
        ensures
            r == spec_sysreg_of(word & 0xffff_ffe0),
    {
        let key = word & 0xffff_ffe0;
        if key == 0xd538_1000 || key == 0xd518_1000 { Some(SystemRegister::SctlrEl1) }
        else if key == 0xd538_2000 || key == 0xd518_2000 { Some(SystemRegister::Ttbr0El1) }
        else if key == 0xd538_2020 || key == 0xd518_2020 { Some(SystemRegister::Ttbr1El1) }
        else if key == 0xd538_2040 || key == 0xd518_2040 { Some(SystemRegister::TcrEl1) }
        else if key == 0xd538_a000 || key == 0xd518_a000 { Some(SystemRegister::MairEl1) }
        else if key == 0xd538_c000 || key == 0xd518_c000 { Some(SystemRegister::VbarEl1) }
        else if key == 0xd538_5200 || key == 0xd518_5200 { Some(SystemRegister::EsrEl1) }
        else if key == 0xd538_6000 || key == 0xd518_6000 { Some(SystemRegister::FarEl1) }
        else if key == 0xd538_4020 || key == 0xd518_4020 { Some(SystemRegister::ElrEl1) }
        else if key == 0xd538_4000 || key == 0xd518_4000 { Some(SystemRegister::SpsrEl1) }
        else if key == 0xd53b_e000 || key == 0xd51b_e000 { Some(SystemRegister::CntfrqEl0) }
        else if key == 0xd53b_e020 || key == 0xd51b_e020 { Some(SystemRegister::CntpctEl0) }
        else if key == 0xd53b_e220 || key == 0xd51b_e220 { Some(SystemRegister::CntpCtlEl0) }
        else if key == 0xd53b_e240 || key == 0xd51b_e240 { Some(SystemRegister::CntpCvalEl0) }
        else if key == 0xd538_4240 { Some(SystemRegister::CurrentEl) }
        else if key == 0xd538_0700 || key == 0xd518_0700 { Some(SystemRegister::IdAa64Mmfr0El1) }
        else if key == 0xd538_0620 || key == 0xd518_0620 { Some(SystemRegister::IdAa64Isar1El1) }
        else if key == 0xd53b_e040 || key == 0xd51b_e040 { Some(SystemRegister::CntvctEl0) }
        else if key == 0xd53b_e320 || key == 0xd51b_e320 { Some(SystemRegister::CntvCtlEl0) }
        else if key == 0xd53b_e340 || key == 0xd51b_e340 { Some(SystemRegister::CntvCvalEl0) }
        else if key == 0xd53b_e200 || key == 0xd51b_e200 { Some(SystemRegister::CntpTvalEl0) }
        else if key == 0xd53c_1100 || key == 0xd51c_1100 { Some(SystemRegister::HcrEl2) }
        else if key == 0xd53c_e100 || key == 0xd51c_e100 { Some(SystemRegister::CnthctlEl2) }
        else if key == 0xd53c_c000 || key == 0xd51c_c000 { Some(SystemRegister::VbarEl2) }
        else if key == 0xd53c_5200 || key == 0xd51c_5200 { Some(SystemRegister::EsrEl2) }
        else if key == 0xd53c_6000 || key == 0xd51c_6000 { Some(SystemRegister::FarEl2) }
        else if key == 0xd53c_4020 || key == 0xd51c_4020 { Some(SystemRegister::ElrEl2) }
        else if key == 0xd53c_4000 || key == 0xd51c_4000 { Some(SystemRegister::SpsrEl2) }
        else if key == 0xd53e_1100 || key == 0xd51e_1100 { Some(SystemRegister::ScrEl3) }
        else if key == 0xd53e_c000 || key == 0xd51e_c000 { Some(SystemRegister::VbarEl3) }
        else if key == 0xd53e_5200 || key == 0xd51e_5200 { Some(SystemRegister::EsrEl3) }
        else if key == 0xd53e_6000 || key == 0xd51e_6000 { Some(SystemRegister::FarEl3) }
        else if key == 0xd53e_4020 || key == 0xd51e_4020 { Some(SystemRegister::ElrEl3) }
        else if key == 0xd53e_4000 || key == 0xd51e_4000 { Some(SystemRegister::SpsrEl3) }
        else { None }
    }

    pub fn minimum_el(self) -> (l: ExceptionLevel)
        ensures
            l == spec_minimum_el(self),
    {
        match self {
            SystemRegister::CntfrqEl0 | SystemRegister::CntpctEl0 | SystemRegister::CntpCtlEl0
            | SystemRegister::CntpCvalEl0 | SystemRegister::CurrentEl | SystemRegister::CntvctEl0
            | SystemRegister::CntvCtlEl0 | SystemRegister::CntvCvalEl0 | SystemRegister::CntpTvalEl0 => ExceptionLevel::El0,
            SystemRegister::HcrEl2 | SystemRegister::CnthctlEl2 | SystemRegister::VbarEl2 | SystemRegister::EsrEl2
            | SystemRegister::FarEl2 | SystemRegister::ElrEl2 | SystemRegister::SpsrEl2 => ExceptionLevel::El2,
            SystemRegister::ScrEl3 | SystemRegister::VbarEl3 | SystemRegister::EsrEl3 | SystemRegister::FarEl3
            | SystemRegister::ElrEl3 | SystemRegister::SpsrEl3 => ExceptionLevel::El3,
            _ => ExceptionLevel::El1,
        }
    }
}

#[derive(Clone, Copy)]
pub struct SystemRegisters {
    pub sctlr_el1: u64,
    pub ttbr0_el1: u64,
    pub ttbr1_el1: u64,
    pub tcr_el1: u64,
    pub mair_el1: u64,
    pub vbar_el1: u64,
    pub esr_el1: u64,
    pub far_el1: u64,
    pub elr_el1: u64,
    pub spsr_el1: u64,
    pub cntfrq_el0: u64,
    pub cntpct_el0: u64,
    pub cntp_ctl_el0: u64,
    pub cntp_cval_el0: u64,
    pub id_aa64mmfr0_el1: u64,
    pub id_aa64isar1_el1: u64,
    pub cntvct_el0: u64,
    pub cntv_ctl_el0: u64,
    pub cntv_cval_el0: u64,
    pub cntp_tval_el0: u64,
    pub hcr_el2: u64,
    pub cnthctl_el2: u64,
    pub vbar_el2: u64,
    pub esr_el2: u64,
    pub far_el2: u64,
    pub elr_el2: u64,
    pub spsr_el2: u64,
    pub scr_el3: u64,
    pub vbar_el3: u64,
    pub esr_el3: u64,
    pub far_el3: u64,
    pub elr_el3: u64,
    pub spsr_el3: u64,
}

/// The reset bank: TCR_EL1.T0SZ = 16, the M1 counter frequency, 4K/16K
/// translation granules and baseline QARMA5 address authentication.
pub open spec fn spec_sys_reset() -> SystemRegisters {
    SystemRegisters {
        sctlr_el1: 0,
        ttbr0_el1: 0,
        ttbr1_el1: 0,
        tcr_el1: 16,
        mair_el1: 0,
        vbar_el1: 0,
        esr_el1: 0,
        far_el1: 0,
        elr_el1: 0,
        spsr_el1: 0,
        cntfrq_el0: M1_COUNTER_FREQUENCY,
        cntpct_el0: 0,
        cntp_ctl_el0: 0,
        cntp_cval_el0: 0,
        id_aa64mmfr0_el1: 0x0010_1122,
        id_aa64isar1_el1: 0x10,
        cntvct_el0: 0,
        cntv_ctl_el0: 0,
        cntv_cval_el0: 0,
        cntp_tval_el0: 0,
        hcr_el2: 0,
        cnthctl_el2: 0,
        vbar_el2: 0,
        esr_el2: 0,
        far_el2: 0,
        elr_el2: 0,
        spsr_el2: 0,
        scr_el3: 0,
        vbar_el3: 0,
        esr_el3: 0,
        far_el3: 0,
        elr_el3: 0,
        spsr_el3: 0,
    }
}

impl SystemRegisters {
    pub fn reset() -> (s: Self)
        ensures
            s == spec_sys_reset(),
    {
        SystemRegisters {
            sctlr_el1: 0,
            ttbr0_el1: 0,
            ttbr1_el1: 0,
            tcr_el1: 16,
            mair_el1: 0,
            vbar_el1: 0,
            esr_el1: 0,
            far_el1: 0,
            elr_el1: 0,
            spsr_el1: 0,
            cntfrq_el0: M1_COUNTER_FREQUENCY,
            cntpct_el0: 0,
            cntp_ctl_el0: 0,
            cntp_cval_el0: 0,
            id_aa64mmfr0_el1: 0x0010_1122,
            id_aa64isar1_el1: 0x10,
            cntvct_el0: 0,
            cntv_ctl_el0: 0,
            cntv_cval_el0: 0,
            cntp_tval_el0: 0,
            hcr_el2: 0,
            cnthctl_el2: 0,
            vbar_el2: 0,
            esr_el2: 0,
            far_el2: 0,
            elr_el2: 0,
            spsr_el2: 0,
            scr_el3: 0,
            vbar_el3: 0,
            esr_el3: 0,
            far_el3: 0,
            elr_el3: 0,
            spsr_el3: 0,
        }
    }
}

#[derive(Clone, Copy, Debug, PartialEq, Eq, Structural)]
pub struct GenericTimer {
    pub frequency: u64,
    pub counter: u64,
    pub ctl: u64,
    pub cval: u64,
}

/// The timer condition: enabled, unmasked and the counter at or past the
/// compare value.
pub open spec fn timer_pending(t: GenericTimer) -> bool {
    t.ctl & CNTP_CTL_ENABLE != 0 && t.ctl & CNTP_CTL_IMASK == 0 && t.counter >= t.cval
}

/// Control bits with ISTATUS recomputed from the condition.
pub open spec fn with_status(t: GenericTimer) -> u64 {
    if timer_pending(t) { t.ctl | CNTP_CTL_ISTATUS } else { t.ctl & !CNTP_CTL_ISTATUS }
}

pub open spec fn sat_add(a: u64, b: u64) -> u64 {
    if a + b > u64::MAX { u64::MAX } else { (a + b) as u64 }
}

pub open spec fn sat_sub(a: u64, b: u64) -> u64 {
    if a >= b { (a - b) as u64 } else { 0 }
}

pub open spec fn wrap_add(a: u64, b: u64) -> u64 {
    ((a + b) % 0x1_0000_0000_0000_0000) as u64
}

impl GenericTimer {
    pub fn reset() -> (t: Self)
        ensures
            t == (GenericTimer { frequency: M1_COUNTER_FREQUENCY, counter: 0, ctl: 0, cval: 0 }),
    {
        GenericTimer { frequency: M1_COUNTER_FREQUENCY, counter: 0, ctl: 0, cval: 0 }
    }

    pub fn pending(&self) -> (b: bool)
        ensures
            b == timer_pending(*self),
    {
        self.ctl & CNTP_CTL_ENABLE != 0 && self.ctl & CNTP_CTL_IMASK == 0 && self.counter >= self.cval
    }

    /// Advance the counter (saturating) and recompute ISTATUS.
    pub fn advance(&mut self, ticks: u64)
        ensures
            final(self).counter == sat_add(old(self).counter, ticks),
            final(self).frequency == old(self).frequency && final(self).cval == old(self).cval,
            final(self).ctl == with_status(GenericTimer { counter: final(self).counter, ..*old(self) }),
    {
        self.counter = self.counter.saturating_add(ticks);
        if self.pending() {
            self.ctl = self.ctl | CNTP_CTL_ISTATUS;
        } else {
            self.ctl = self.ctl & !CNTP_CTL_ISTATUS;
        }
    }
}

#[derive(Clone, Copy, Debug, PartialEq, Eq, Structural)]
pub struct SmpState {
    pub cpu_count: u32,
    pub online_mask: u64,
    pub external_pending: u64,
}

/// The low `count` bits.
pub open spec fn low_mask(count: u32) -> u64 {
    if count >= 64 { u64::MAX } else { ((1u64 << count) - 1) as u64 }
}

impl SmpState {
    pub fn reset() -> (s: Self)
        ensures
            s == (SmpState { cpu_count: 1, online_mask: 1, external_pending: 0 }),
    {
        SmpState { cpu_count: 1, online_mask: 1, external_pending: 0 }
    }

    /// Set the number of CPUs (1 to 64); CPUs past the count go offline and
    /// CPU 0 stays online when none would be left.
    pub fn set_cpu_count(&mut self, count: u32) -> (ok: bool)
        ensures
            ok == (1 <= count <= 64),
            !ok ==> *final(self) == *old(self),
            ok ==> {
                let kept = old(self).online_mask & low_mask(count);
                &&& final(self).cpu_count == count
                &&& final(self).online_mask == if kept == 0 { 1 } else { kept }
                &&& final(self).external_pending == old(self).external_pending
            },
    {
        if count == 0 || count > 64 {
            return false;
        }
        self.cpu_count = count;
        let mask: u64 = if count == 64 {
            u64::MAX
        } else {
            proof {
                crate::mmu::lemma_shl_positive(count as u64);
            }
            (1u64 << count) - 1
        };
        self.online_mask = self.online_mask & mask;
        if self.online_mask == 0 {
            self.online_mask = 1;
        }
        true
    }

    pub fn bring_online(&mut self, affinity: u32) -> (ok: bool)
        ensures
            ok == (affinity < old(self).cpu_count && affinity < 64),
            !ok ==> *final(self) == *old(self),
            ok ==> *final(self) == (SmpState { online_mask: old(self).online_mask | (1u64 << affinity), ..*old(self) }),
    {
        if affinity >= self.cpu_count || affinity >= 64 {
            return false;
        }
        self.online_mask = self.online_mask | (1u64 << affinity);
        true
    }

    /// Latch an external interrupt for the online CPUs among `target_mask`.
    pub fn route_external(&mut self, target_mask: u64)
        ensures
            *final(self) == (SmpState {
                external_pending: old(self).external_pending | (target_mask & old(self).online_mask),
                ..*old(self)
            }),
    {
        self.external_pending = self.external_pending | (target_mask & self.online_mask);
    }
}

#[derive(Clone, Copy, Debug, PartialEq, Eq, Structural)]
pub struct ExclusiveMonitor {
    pub valid: bool,
    pub address: u64,
    pub size: u8,
    pub owner: u32,
}

/// Whether `[a, a + asize)` and `[b, b + bsize)` overlap, each end
/// saturating at the top of the address space.
pub open spec fn reservation_overlaps(a: u64, asize: u8, b: u64, bsize: u8) -> bool {
    a < sat_add(b, bsize as u64) && b < sat_add(a, asize as u64)
}

impl ExclusiveMonitor {
    pub fn reset() -> (m: Self)
        ensures
            m == (ExclusiveMonitor { valid: false, address: 0, size: 0, owner: 0 }),
    {
        ExclusiveMonitor { valid: false, address: 0, size: 0, owner: 0 }
    }

    pub fn reserve(&mut self, address: u64, size: u8, owner: u32)
        ensures
            *final(self) == (ExclusiveMonitor { valid: true, address, size, owner }),
    {
        self.valid = true;
        self.address = address;
        self.size = size;
        self.owner = owner;
    }

    pub fn succeeds(&self, address: u64, size: u8, owner: u32) -> (b: bool)
        ensures
            b == (self.valid && self.address == address && self.size == size && self.owner == owner),
    {
        self.valid && self.address == address && self.size == size && self.owner == owner
    }

    /// A store that overlaps the reservation clears it.
    pub fn clear_on_store(&mut self, address: u64, size: u8)
        ensures
            *final(self) == if old(self).valid && reservation_overlaps(old(self).address, old(self).size, address, size) {
                ExclusiveMonitor { valid: false, ..*old(self) }
            } else {
                *old(self)
            },
    {
        if self.valid && self.address < address.saturating_add(size as u64) && address < self.address.saturating_add(
            self.size as u64,
        ) {
            self.valid = false;
        }
    }
}

#[derive(Clone, Copy)]
pub struct GuestCpuState {
    pub x: [u64; 31],
    pub sp: u64,
    pub sp_el: [u64; 4],
    pub pc: u64,
    pub pstate: u32,
    pub current_el: ExceptionLevel,
    pub sys: SystemRegisters,
    pub pending_exception: Option<GuestException>,
    pub exception_target: Option<ExceptionLevel>,
    pub exception_from_lower_el: bool,
    pub exception_vector: u64,
    pub affinity: u32,
    pub mmu: VfMmu,
    pub timer: GenericTimer,
    pub virtual_timer: GenericTimer,
    pub smp: SmpState,
    pub exclusive: ExclusiveMonitor,
    pub pauth: PauthState,
    pub waiting: bool,
    pub retired: u64,
}

/// The stack-pointer bank in use: SP_EL0 at EL0 or with PSTATE.SP clear,
/// otherwise the current level's own stack pointer.
pub open spec fn spec_active_sp(s: GuestCpuState) -> int {
    if s.current_el == ExceptionLevel::El0 || s.pstate & 1 == 0 { 0 } else { el_index(s.current_el) }
}

/// Write the exception bank (SPSR, ESR, FAR, ELR) of `target`.
pub open spec fn spec_bank_write(sys: SystemRegisters, target: ExceptionLevel, saved_pstate: u32, e: GuestException) -> SystemRegisters {
    match target {
        ExceptionLevel::El0 => sys,
        ExceptionLevel::El1 => SystemRegisters {
            spsr_el1: saved_pstate as u64,
            esr_el1: e.syndrome,
            far_el1: e.far,
            elr_el1: e.pc,
            ..sys
        },
        ExceptionLevel::El2 => SystemRegisters {
            spsr_el2: saved_pstate as u64,
            esr_el2: e.syndrome,
            far_el2: e.far,
            elr_el2: e.pc,
            ..sys
        },
        ExceptionLevel::El3 => SystemRegisters {
            spsr_el3: saved_pstate as u64,
            esr_el3: e.syndrome,
            far_el3: e.far,
            elr_el3: e.pc,
            ..sys
        },
    }
}

/// (SPSR, ELR, VBAR) of a level; EL0 has none.
pub open spec fn spec_bank(sys: SystemRegisters, level: ExceptionLevel) -> (u64, u64, u64) {
    match level {
        ExceptionLevel::El0 => (0, 0, 0),
        ExceptionLevel::El1 => (sys.spsr_el1, sys.elr_el1, sys.vbar_el1),
        ExceptionLevel::El2 => (sys.spsr_el2, sys.elr_el2, sys.vbar_el2),
        ExceptionLevel::El3 => (sys.spsr_el3, sys.elr_el3, sys.vbar_el3),
    }
}

/// The level an exception raised at `level` is taken to.
pub open spec fn spec_target(level: ExceptionLevel) -> ExceptionLevel {
    if level == ExceptionLevel::El0 { ExceptionLevel::El1 } else { level }
}

/// Latch an exception: ESR is encoded for the current level, the target
/// level's bank is written, and the exception waits for an explicit take.
/// A second exception while one is pending is dropped.
pub open spec fn spec_raise(s: GuestCpuState, e: GuestException) -> GuestCpuState {
    if s.pending_exception is Some {
        s
    } else {
        let e2 = GuestException { syndrome: spec_exception_syndrome(e.kind, s.current_el, e.syndrome), ..e };
        let target = spec_target(s.current_el);
        GuestCpuState {
            sys: spec_bank_write(s.sys, target, s.pstate, e2),
            exception_target: Some(target),
            exception_from_lower_el: s.current_el != target,
            pending_exception: Some(e2),
            ..s
        }
    }
}

/// The vector offset of an exception of `kind` taken from `from` with the
/// saved PSTATE: lower-EL, current-EL SPx or current-EL SP0 group, plus the
/// IRQ slot for interrupts.
pub open spec fn spec_exception_offset(kind: ExceptionKind, from: ExceptionLevel, saved_pstate: u32) -> u64 {
    let lower: u64 = if from == ExceptionLevel::El0 { 0x400 } else { 0x200 };
    let synchronous: u64 = if from == ExceptionLevel::El0 {
        0x400
    } else if saved_pstate & 1 != 0 {
        0x200
    } else {
        0
    };
    if kind == ExceptionKind::TimerInterrupt || kind == ExceptionKind::ExternalInterrupt {
        (lower + 0x80) as u64
    } else {
        synchronous
    }
}

/// The architectural entry of the pending exception `e`.
pub open spec fn took(s: GuestCpuState, n: GuestCpuState, e: GuestException) -> bool {
    let target = if s.exception_target is Some { s.exception_target->Some_0 } else { spec_target(s.current_el) };
    let saved = s.pstate;
    let banked = s.sp_el@.update(spec_active_sp(s), s.sp);
    let sys = spec_bank_write(s.sys, target, saved, e);
    let vector = wrap_add(spec_bank(sys, target).2 & !0x7ffu64, spec_exception_offset(e.kind, s.current_el, saved));
    &&& n.sp_el@ == banked
    &&& n.sys == sys
    &&& n.current_el == target
    &&& n.pstate == (saved & !PSTATE_MODE_MASK) | spec_mode_for_el(target) | PSTATE_D | PSTATE_A | PSTATE_I | PSTATE_F
    &&& n.sp == banked[el_index(target)]
    &&& n.exception_vector == vector
    &&& n.pc == vector
    &&& n.pending_exception is None
    &&& n.exception_target is None
    &&& !n.exception_from_lower_el
    &&& n == GuestCpuState {
        sp_el: n.sp_el,
        sys: n.sys,
        current_el: n.current_el,
        pstate: n.pstate,
        sp: n.sp,
        exception_vector: n.exception_vector,
        pc: n.pc,
        pending_exception: n.pending_exception,
        exception_target: n.exception_target,
        exception_from_lower_el: n.exception_from_lower_el,
        ..s
    }
}

/// PSTATE.M agrees with the current level, a target is recorded exactly
/// when an exception is pending, and "from a lower level" implies a
/// higher target.
pub open spec fn spec_state_valid(s: GuestCpuState) -> bool {
    let mode = s.pstate & PSTATE_MODE_MASK;
    let mode_valid = match s.current_el {
        ExceptionLevel::El0 => mode == 0,
        ExceptionLevel::El1 => mode == 4 || mode == 5,
        ExceptionLevel::El2 => mode == 8 || mode == 9,
        ExceptionLevel::El3 => mode == 12 || mode == 13,
    };
    &&& mode_valid
    &&& (if s.exception_target is Some { s.pending_exception is Some } else { s.pending_exception is None })
    &&& (s.exception_from_lower_el ==> s.exception_target is Some && el_index(s.current_el) < el_index(
        s.exception_target->Some_0,
    ))
}

/// What MRS of `reg` reads, or the privilege fault.
pub open spec fn spec_read_sysreg(s: GuestCpuState, reg: SystemRegister) -> Result<u64, SysRegFault> {
    if el_index(s.current_el) < el_index(spec_minimum_el(reg)) {
        Err(SysRegFault::Privilege)
    } else {
        Ok(match reg {
            SystemRegister::SctlrEl1 => s.sys.sctlr_el1,
            SystemRegister::Ttbr0El1 => s.sys.ttbr0_el1,
            SystemRegister::Ttbr1El1 => s.sys.ttbr1_el1,
            SystemRegister::TcrEl1 => s.sys.tcr_el1,
            SystemRegister::MairEl1 => s.sys.mair_el1,
            SystemRegister::VbarEl1 => s.sys.vbar_el1,
            SystemRegister::EsrEl1 => s.sys.esr_el1,
            SystemRegister::FarEl1 => s.sys.far_el1,
            SystemRegister::ElrEl1 => s.sys.elr_el1,
            SystemRegister::SpsrEl1 => s.sys.spsr_el1,
            SystemRegister::CntfrqEl0 => s.timer.frequency,
            SystemRegister::CntpctEl0 => s.timer.counter,
            SystemRegister::CntpCtlEl0 => s.timer.ctl,
            SystemRegister::CntpCvalEl0 => s.timer.cval,
            SystemRegister::CurrentEl => (el_index(s.current_el) * 4) as u64,
            SystemRegister::IdAa64Mmfr0El1 => s.sys.id_aa64mmfr0_el1,
            SystemRegister::IdAa64Isar1El1 => s.sys.id_aa64isar1_el1,
            SystemRegister::CntvctEl0 => s.virtual_timer.counter,
            SystemRegister::CntvCtlEl0 => s.virtual_timer.ctl,
            SystemRegister::CntvCvalEl0 => s.virtual_timer.cval,
            SystemRegister::CntpTvalEl0 => sat_sub(s.timer.cval, s.timer.counter),
            SystemRegister::HcrEl2 => s.sys.hcr_el2,
            SystemRegister::CnthctlEl2 => s.sys.cnthctl_el2,
            SystemRegister::VbarEl2 => s.sys.vbar_el2,
            SystemRegister::EsrEl2 => s.sys.esr_el2,
            SystemRegister::FarEl2 => s.sys.far_el2,
            SystemRegister::ElrEl2 => s.sys.elr_el2,
            SystemRegister::SpsrEl2 => s.sys.spsr_el2,
            SystemRegister::ScrEl3 => s.sys.scr_el3,
            SystemRegister::VbarEl3 => s.sys.vbar_el3,
            SystemRegister::EsrEl3 => s.sys.esr_el3,
            SystemRegister::FarEl3 => s.sys.far_el3,
            SystemRegister::ElrEl3 => s.sys.elr_el3,
            SystemRegister::SpsrEl3 => s.sys.spsr_el3,
        })
    }
}

pub open spec fn is_read_only(reg: SystemRegister) -> bool {
    reg == SystemRegister::CntfrqEl0 || reg == SystemRegister::CntpctEl0 || reg == SystemRegister::CurrentEl || reg
        == SystemRegister::IdAa64Mmfr0El1 || reg == SystemRegister::IdAa64Isar1El1 || reg == SystemRegister::CntvctEl0
}

/// The registers whose writes reconfigure translation.
pub open spec fn is_translation_reg(reg: SystemRegister) -> bool {
    reg == SystemRegister::SctlrEl1 || reg == SystemRegister::Ttbr0El1 || reg == SystemRegister::Ttbr1El1 || reg
        == SystemRegister::TcrEl1
}

/// The bank with a translation register replaced.
pub open spec fn with_translation_reg(sys: SystemRegisters, reg: SystemRegister, value: u64) -> SystemRegisters {
    match reg {
        SystemRegister::SctlrEl1 => SystemRegisters { sctlr_el1: value, ..sys },
        SystemRegister::Ttbr0El1 => SystemRegisters { ttbr0_el1: value, ..sys },
        SystemRegister::Ttbr1El1 => SystemRegisters { ttbr1_el1: value, ..sys },
        _ => SystemRegisters { tcr_el1: value, ..sys },
    }
}

/// Translation is off, or its registers describe a configuration the MMU
/// accepts.
pub open spec fn sys_admissible(sys: SystemRegisters) -> bool {
    sys.sctlr_el1 & SCTLR_M == 0 || (asid_fields_admissible(sys) && tcr_admissible(
        sys.ttbr0_el1,
        sys.ttbr1_el1,
        sys.tcr_el1,
    ))
}

/// The bank uses 8-bit ASIDs: TCR.AS (bit 36) clear and nothing in
/// TTBR0/TTBR1 above the ASID field (bits 63:56).
pub open spec fn asid_fields_admissible(sys: SystemRegisters) -> bool {
    sys.tcr_el1 & 0x10_0000_0000 == 0 && sys.ttbr0_el1 >> 56u64 == 0 && sys.ttbr1_el1 >> 56u64 == 0
}

/// The 8-bit ASID the bank selects: TTBR1's when TCR.A1 (bit 22) is set,
/// TTBR0's otherwise.
pub open spec fn selected_asid(sys: SystemRegisters) -> u16 {
    (if sys.tcr_el1 & 0x40_0000 != 0 {
        (sys.ttbr1_el1 >> 48u64) & 0xff
    } else {
        (sys.ttbr0_el1 >> 48u64) & 0xff
    }) as u16
}

/// The MMU follows the bank: disabled with an empty TLB when SCTLR.M is
/// clear, otherwise configured from TTBR0/TTBR1/TCR with the selected ASID.
pub open spec fn mmu_synced(m: VfMmu, sys: SystemRegisters) -> bool {
    if sys.sctlr_el1 & SCTLR_M == 0 {
        !m.enabled && tlb_cleared(m)
    } else {
        crate::mmu::configured_as(m, sys.ttbr0_el1, sys.ttbr1_el1, sys.tcr_el1, selected_asid(sys))
    }
}

/// A timer after a CTL write: ENABLE and IMASK from the value, ISTATUS from
/// the condition.
pub open spec fn ctl_written(t: GenericTimer, value: u64) -> GenericTimer {
    let t1 = GenericTimer { ctl: value & (CNTP_CTL_ENABLE | CNTP_CTL_IMASK), ..t };
    GenericTimer { ctl: if timer_pending(t1) { t1.ctl | CNTP_CTL_ISTATUS } else { t1.ctl }, ..t1 }
}

/// MSR of a register that neither traps nor reconfigures translation.
pub open spec fn spec_plain_write(s: GuestCpuState, reg: SystemRegister, value: u64) -> GuestCpuState {
    let sys = s.sys;
    match reg {
        SystemRegister::MairEl1 => GuestCpuState { sys: SystemRegisters { mair_el1: value, ..sys }, ..s },
        SystemRegister::VbarEl1 => GuestCpuState { sys: SystemRegisters { vbar_el1: value & !0x7ffu64, ..sys }, ..s },
        SystemRegister::EsrEl1 => GuestCpuState { sys: SystemRegisters { esr_el1: value, ..sys }, ..s },
        SystemRegister::FarEl1 => GuestCpuState { sys: SystemRegisters { far_el1: value, ..sys }, ..s },
        SystemRegister::ElrEl1 => GuestCpuState { sys: SystemRegisters { elr_el1: value, ..sys }, ..s },
        SystemRegister::SpsrEl1 => GuestCpuState { sys: SystemRegisters { spsr_el1: value, ..sys }, ..s },
        SystemRegister::CntpCtlEl0 => {
            let t = ctl_written(s.timer, value);
            GuestCpuState { timer: t, sys: SystemRegisters { cntp_ctl_el0: t.ctl, ..sys }, ..s }
        },
        SystemRegister::CntpCvalEl0 => GuestCpuState {
            timer: GenericTimer { cval: value, ..s.timer },
            sys: SystemRegisters { cntp_cval_el0: value, ..sys },
            ..s
        },
        SystemRegister::CntvCtlEl0 => {
            let t = ctl_written(s.virtual_timer, value);
            GuestCpuState { virtual_timer: t, sys: SystemRegisters { cntv_ctl_el0: t.ctl, ..sys }, ..s }
        },
        SystemRegister::CntvCvalEl0 => GuestCpuState {
            virtual_timer: GenericTimer { cval: value, ..s.virtual_timer },
            sys: SystemRegisters { cntv_cval_el0: value, ..sys },
            ..s
        },
        SystemRegister::CntpTvalEl0 => {
            let cval = wrap_add(s.timer.counter, value);
            GuestCpuState {
                timer: GenericTimer { cval, ..s.timer },
                sys: SystemRegisters { cntp_cval_el0: cval, cntp_tval_el0: value, ..sys },
                ..s
            }
        },
        SystemRegister::HcrEl2 => GuestCpuState { sys: SystemRegisters { hcr_el2: value, ..sys }, ..s },
        SystemRegister::CnthctlEl2 => GuestCpuState { sys: SystemRegisters { cnthctl_el2: value, ..sys }, ..s },
        SystemRegister::VbarEl2 => GuestCpuState { sys: SystemRegisters { vbar_el2: value & !0x7ffu64, ..sys }, ..s },
        SystemRegister::EsrEl2 => GuestCpuState { sys: SystemRegisters { esr_el2: value, ..sys }, ..s },
        SystemRegister::FarEl2 => GuestCpuState { sys: SystemRegisters { far_el2: value, ..sys }, ..s },
        SystemRegister::ElrEl2 => GuestCpuState { sys: SystemRegisters { elr_el2: value, ..sys }, ..s },
        SystemRegister::SpsrEl2 => GuestCpuState { sys: SystemRegisters { spsr_el2: value, ..sys }, ..s },
        SystemRegister::ScrEl3 => GuestCpuState { sys: SystemRegisters { scr_el3: value, ..sys }, ..s },
        SystemRegister::VbarEl3 => GuestCpuState { sys: SystemRegisters { vbar_el3: value & !0x7ffu64, ..sys }, ..s },
        SystemRegister::EsrEl3 => GuestCpuState { sys: SystemRegisters { esr_el3: value, ..sys }, ..s },
        SystemRegister::FarEl3 => GuestCpuState { sys: SystemRegisters { far_el3: value, ..sys }, ..s },
        SystemRegister::ElrEl3 => GuestCpuState { sys: SystemRegisters { elr_el3: value, ..sys }, ..s },
        SystemRegister::SpsrEl3 => GuestCpuState { sys: SystemRegisters { spsr_el3: value, ..sys }, ..s },
        _ => s,
    }
}

/// TCR's optional hardware-managed and hierarchical-permission-disable
/// fields (HA, HD, HPD0, HPD1: bits 42:39), which the core does not
/// implement and refuses.
pub const TCR_OPTIONAL_FIELDS: u64 = 0x780_0000_0000;

/// The outcome of MSR `reg`, `value` from `s` to `n`.
pub open spec fn sysreg_written(s: GuestCpuState, n: GuestCpuState, reg: SystemRegister, value: u64, r: Result<(), SysRegFault>) -> bool {
    if el_index(s.current_el) < el_index(spec_minimum_el(reg)) {
        r == Err::<(), SysRegFault>(SysRegFault::Privilege) && n == s
    } else if is_read_only(reg) {
        r == Err::<(), SysRegFault>(SysRegFault::ReadOnly) && n == s
    } else if (reg == SystemRegister::Ttbr0El1 || reg == SystemRegister::Ttbr1El1) && value & 0xfff != 0 {
        r == Err::<(), SysRegFault>(SysRegFault::InvalidValue) && n == s
    } else if reg == SystemRegister::TcrEl1 && value & TCR_OPTIONAL_FIELDS != 0 {
        r == Err::<(), SysRegFault>(SysRegFault::InvalidValue) && n == s
    } else if is_translation_reg(reg) {
        let sys2 = with_translation_reg(s.sys, reg, value);
        let resync = reg == SystemRegister::SctlrEl1 || s.sys.sctlr_el1 & SCTLR_M != 0;
        let ok = !resync || sys_admissible(sys2);
        &&& n == GuestCpuState { sys: n.sys, mmu: n.mmu, ..s }
        &&& r == if ok { Ok::<(), SysRegFault>(()) } else { Err(SysRegFault::InvalidValue) }
        &&& ok ==> n.sys == sys2 && (if resync { mmu_synced(n.mmu, sys2) } else { n.mmu == s.mmu })
        &&& !ok ==> n.sys == s.sys && (n.mmu == s.mmu || mmu_synced(n.mmu, s.sys))
    } else {
        r == Ok::<(), SysRegFault>(()) && n == spec_plain_write(s, reg, value)
    }
}

/// A timer after `ticks` more counts.
pub open spec fn spec_advance(t: GenericTimer, ticks: u64) -> GenericTimer {
    let t1 = GenericTimer { counter: sat_add(t.counter, ticks), ..t };
    GenericTimer { ctl: with_status(t1), ..t1 }
}

pub open spec fn counter_advanced(s: GuestCpuState, n: GuestCpuState, ticks: u64) -> bool {
    let t = spec_advance(s.timer, ticks);
    let v = spec_advance(s.virtual_timer, ticks);
    n == GuestCpuState {
        timer: t,
        virtual_timer: v,
        sys: SystemRegisters {
            cntpct_el0: t.counter,
            cntp_ctl_el0: t.ctl,
            cntvct_el0: v.counter,
            cntv_ctl_el0: v.ctl,
            cntp_tval_el0: sat_sub(t.cval, t.counter),
            ..s.sys
        },
        ..s
    }
}

/// An asynchronous interrupt is latched.
pub open spec fn interrupt_pending(s: GuestCpuState) -> bool {
    s.pending_exception is Some && (s.pending_exception->Some_0.kind == ExceptionKind::TimerInterrupt
        || s.pending_exception->Some_0.kind == ExceptionKind::ExternalInterrupt)
}

pub open spec fn interrupt_at(kind: ExceptionKind, pc: u64) -> GuestException {
    GuestException { kind, instruction: 0, syndrome: 0, far: 0, pc }
}

/// What `poll_interrupt` latches.
pub open spec fn polled(s: GuestCpuState, n: GuestCpuState, b: bool) -> bool {
    let bit = 1u64 << s.affinity;
    if s.pstate & PSTATE_I != 0 || s.pending_exception is Some {
        !b && n == s
    } else if timer_pending(s.timer) || timer_pending(s.virtual_timer) {
        b && n == spec_raise(s, interrupt_at(ExceptionKind::TimerInterrupt, s.pc))
    } else if s.smp.external_pending & bit != 0 {
        let cleared = GuestCpuState {
            smp: SmpState { external_pending: s.smp.external_pending & !bit, ..s.smp },
            ..s
        };
        b && n == spec_raise(cleared, interrupt_at(ExceptionKind::ExternalInterrupt, s.pc))
    } else {
        !b && n == s
    }
}

/// ERET: refused at EL0 and when the saved PSTATE names no level.
pub open spec fn eret_done(s: GuestCpuState, n: GuestCpuState, r: Result<(), ExceptionKind>) -> bool {
    let (saved_pstate, saved_pc, _) = spec_bank(s.sys, s.current_el);
    let restored = saved_pstate as u32;
    if s.current_el == ExceptionLevel::El0 {
        r == Err::<(), ExceptionKind>(ExceptionKind::PrivilegedInstruction) && n == s
    } else if spec_level_for_mode(restored) is None {
        r == Err::<(), ExceptionKind>(ExceptionKind::UndefinedInstruction) && n == s
    } else {
        let level = spec_level_for_mode(restored)->Some_0;
        let banked = s.sp_el@.update(spec_active_sp(s), s.sp);
        &&& r is Ok
        &&& n.sp_el@ == banked
        &&& n.sp == banked[el_index(level)]
        &&& n == GuestCpuState {
            sp_el: n.sp_el,
            pstate: restored,
            pc: saved_pc,
            current_el: level,
            sp: n.sp,
            ..s
        }
    }
}

impl GuestCpuState {
    pub fn reset(affinity: u32) -> (s: Self)
        ensures
            s.x@ == Seq::new(31, |i: int| 0u64),
            s.sp == 0 && s.pc == 0,
            s.sp_el@ == Seq::new(4, |i: int| 0u64),
            s.pstate == 5 && s.current_el == ExceptionLevel::El1,
            s.sys == spec_sys_reset(),
            s.pending_exception is None && s.exception_target is None,
            !s.exception_from_lower_el && s.exception_vector == 0,
            s.affinity == affinity,
            !s.mmu.enabled && tlb_cleared(s.mmu) && s.mmu.tcr_t0sz == 16 && s.mmu.tcr_t1sz == 0,
            s.timer == (GenericTimer { frequency: M1_COUNTER_FREQUENCY, counter: 0, ctl: 0, cval: 0 }),
            s.virtual_timer == s.timer,
            s.smp == (SmpState { cpu_count: 1, online_mask: 1, external_pending: 0 }),
            s.exclusive == (ExclusiveMonitor { valid: false, address: 0, size: 0, owner: 0 }),
            forall|i: int| 0 <= i < 5 ==> s.pauth.keys@[i] == (pauth::Key { lo: 0, hi: 0 }),
            !s.waiting && s.retired == 0,
            spec_state_valid(s),
            mmu_wf(s.mmu),
    {
        let s = GuestCpuState {
            x: [0; 31],
            sp: 0,
            sp_el: [0; 4],
            pc: 0,
            pstate: mode_for_el(ExceptionLevel::El1),
            current_el: ExceptionLevel::El1,
            sys: SystemRegisters::reset(),
            pending_exception: None,
            exception_target: None,
            exception_from_lower_el: false,
            exception_vector: 0,
            affinity,
            mmu: VfMmu::disabled(),
            timer: GenericTimer::reset(),
            virtual_timer: GenericTimer::reset(),
            smp: SmpState::reset(),
            exclusive: ExclusiveMonitor::reset(),
            pauth: PauthState::reset(),
            waiting: false,
            retired: 0,
        };
        assert(s.x@ =~= Seq::new(31, |i: int| 0u64));
        assert(s.sp_el@ =~= Seq::new(4, |i: int| 0u64));
        assert(5u32 & 0x0f == 5) by {
            crate::bits::lemma_bit_constants();
        }
        s
    }

    pub fn active_sp_index(&self) -> (i: usize)
        ensures
            i == spec_active_sp(*self),
            i < 4,
    {
        if self.current_el == ExceptionLevel::El0 || self.pstate & 1 == 0 {
            0
        } else {
            self.current_el.index() as usize
        }
    }

    /// Move to level `value` (0 to 3), switching to its stack pointer.
    pub fn set_exception_level(&mut self, value: u8) -> (ok: bool)
        ensures
            ok == (value <= 3),
            !ok ==> *final(self) == *old(self),
            ok ==> {
                let banked = old(self).sp_el@.update(spec_active_sp(*old(self)), old(self).sp);
                &&& el_index(final(self).current_el) == value
                &&& final(self).sp_el@ == banked
                &&& final(self).pstate == (old(self).pstate & !PSTATE_MODE_MASK) | spec_mode_for_el(final(self).current_el)
                &&& final(self).sp == banked[value as int]
                &&& *final(self) == GuestCpuState {
                    sp_el: final(self).sp_el,
                    current_el: final(self).current_el,
                    pstate: final(self).pstate,
                    sp: final(self).sp,
                    ..*old(self)
                }
            },
    {
        let level = match ExceptionLevel::from_u8(value) {
            Some(l) => l,
            None => return false,
        };
        let active = self.active_sp_index();
        self.sp_el[active] = self.sp;
        self.current_el = level;
        self.pstate = (self.pstate & !PSTATE_MODE_MASK) | mode_for_el(level);
        self.sp = self.sp_el[level.index() as usize];
        true
    }

    /// Latch `exception` for an explicit take; see `spec_raise`.
    pub fn raise(&mut self, exception: GuestException)
        ensures
            *final(self) == spec_raise(*old(self), exception),
    {
        if self.pending_exception.is_some() {
            return;
        }
        let mut exception = exception;
        exception.syndrome = exception_syndrome(exception.kind, self.current_el, exception.syndrome);
        let target = if self.current_el == ExceptionLevel::El0 { ExceptionLevel::El1 } else { self.current_el };
        let pstate = self.pstate;
        self.write_exception_bank(target, pstate, exception);
        self.exception_target = Some(target);
        self.exception_from_lower_el = self.current_el != target;
        self.pending_exception = Some(exception);
    }

    pub fn write_exception_bank(&mut self, target: ExceptionLevel, saved_pstate: u32, exception: GuestException)
        ensures
            *final(self) == (GuestCpuState {
                sys: spec_bank_write(old(self).sys, target, saved_pstate, exception),
                ..*old(self)
            }),
    {
        match target {
            ExceptionLevel::El0 => {},
            ExceptionLevel::El1 => {
                self.sys.spsr_el1 = saved_pstate as u64;
                self.sys.esr_el1 = exception.syndrome;
                self.sys.far_el1 = exception.far;
                self.sys.elr_el1 = exception.pc;
            },
            ExceptionLevel::El2 => {
                self.sys.spsr_el2 = saved_pstate as u64;
                self.sys.esr_el2 = exception.syndrome;
                self.sys.far_el2 = exception.far;
                self.sys.elr_el2 = exception.pc;
            },
            ExceptionLevel::El3 => {
                self.sys.spsr_el3 = saved_pstate as u64;
                self.sys.esr_el3 = exception.syndrome;
                self.sys.far_el3 = exception.far;
                self.sys.elr_el3 = exception.pc;
            },
        }
    }

    pub fn exception_bank(&self, level: ExceptionLevel) -> (r: (u64, u64, u64))
        ensures
            r == spec_bank(self.sys, level),
    {
        match level {
            ExceptionLevel::El0 => (0, 0, 0),
            ExceptionLevel::El1 => (self.sys.spsr_el1, self.sys.elr_el1, self.sys.vbar_el1),
            ExceptionLevel::El2 => (self.sys.spsr_el2, self.sys.elr_el2, self.sys.vbar_el2),
            ExceptionLevel::El3 => (self.sys.spsr_el3, self.sys.elr_el3, self.sys.vbar_el3),
        }
    }

    pub fn exception_offset(kind: ExceptionKind, from: ExceptionLevel, saved_pstate: u32) -> (o: u64)
        ensures
            o == spec_exception_offset(kind, from, saved_pstate),
    {
        let lower: u64 = if from == ExceptionLevel::El0 { 0x400 } else { 0x200 };
        let synchronous: u64 = if from == ExceptionLevel::El0 {
            0x400
        } else if saved_pstate & 1 != 0 {
            0x200
        } else {
            0
        };
        match kind {
            ExceptionKind::TimerInterrupt | ExceptionKind::ExternalInterrupt => lower + 0x80,
            _ => synchronous,
        }
    }

    /// Enter the handler of the pending exception: save PSTATE and the
    /// return address in the target bank, switch level and stack, mask
    /// DAIF and branch to the vector.  A pending halt is reported without
    /// being entered.
    pub fn take_pending_exception(&mut self) -> (r: Option<GuestException>)
        ensures
            r == old(self).pending_exception,
            (old(self).pending_exception is None || old(self).pending_exception->Some_0.kind == ExceptionKind::GuestHalt)
                ==> *final(self) == *old(self),
            old(self).pending_exception matches Some(e) ==> (e.kind != ExceptionKind::GuestHalt ==> took(
                *old(self),
                *final(self),
                e,
            )),
    {
        let exception = match self.pending_exception {
            Some(e) => e,
            None => return None,
        };
        if exception.kind == ExceptionKind::GuestHalt {
            return Some(exception);
        }
        let old_level = self.current_el;
        let target = match self.exception_target {
            Some(t) => t,
            None => if old_level == ExceptionLevel::El0 { ExceptionLevel::El1 } else { old_level },
        };
        let saved_pstate = self.pstate;
        let active = self.active_sp_index();
        self.sp_el[active] = self.sp;
        self.write_exception_bank(target, saved_pstate, exception);
        self.current_el = target;
        self.pstate = (saved_pstate & !PSTATE_MODE_MASK) | mode_for_el(target) | PSTATE_D | PSTATE_A | PSTATE_I
            | PSTATE_F;
        self.sp = self.sp_el[target.index() as usize];
        let (_, _, vector_base) = self.exception_bank(target);
        self.exception_vector = (vector_base & !0x7ffu64).wrapping_add(
            Self::exception_offset(exception.kind, old_level, saved_pstate),
        );
        self.pc = self.exception_vector;
        self.pending_exception = None;
        self.exception_target = None;
        self.exception_from_lower_el = false;
        Some(exception)
    }

    pub fn state_valid(&self) -> (b: bool)
        ensures
            b == spec_state_valid(*self),
    {
        let mode = self.pstate & PSTATE_MODE_MASK;
        let mode_valid = match self.current_el {
            ExceptionLevel::El0 => mode == 0,
            ExceptionLevel::El1 => mode == 4 || mode == 5,
            ExceptionLevel::El2 => mode == 8 || mode == 9,
            ExceptionLevel::El3 => mode == 12 || mode == 13,
        };
        let target_valid = match self.exception_target {
            Some(_) => self.pending_exception.is_some(),
            None => self.pending_exception.is_none(),
        };
        let lower_valid = !self.exception_from_lower_el || match self.exception_target {
            Some(t) => self.current_el.index() < t.index(),
            None => false,
        };
        mode_valid && target_valid && lower_valid
    }

    /// MRS: the register's value, or a privilege fault below its level.
    pub fn read_sysreg(&mut self, reg: SystemRegister) -> (r: Result<u64, SysRegFault>)
        ensures
            r == spec_read_sysreg(*old(self), reg),
            *final(self) == *old(self),
    {
        if self.current_el.index() < reg.minimum_el().index() {
            return Err(SysRegFault::Privilege);
        }
        let v = match reg {
            SystemRegister::SctlrEl1 => self.sys.sctlr_el1,
            SystemRegister::Ttbr0El1 => self.sys.ttbr0_el1,
            SystemRegister::Ttbr1El1 => self.sys.ttbr1_el1,
            SystemRegister::TcrEl1 => self.sys.tcr_el1,
            SystemRegister::MairEl1 => self.sys.mair_el1,
            SystemRegister::VbarEl1 => self.sys.vbar_el1,
            SystemRegister::EsrEl1 => self.sys.esr_el1,
            SystemRegister::FarEl1 => self.sys.far_el1,
            SystemRegister::ElrEl1 => self.sys.elr_el1,
            SystemRegister::SpsrEl1 => self.sys.spsr_el1,
            SystemRegister::CntfrqEl0 => self.timer.frequency,
            SystemRegister::CntpctEl0 => self.timer.counter,
            SystemRegister::CntpCtlEl0 => self.timer.ctl,
            SystemRegister::CntpCvalEl0 => self.timer.cval,
            SystemRegister::CurrentEl => (self.current_el.index() as u64) << 2u64,
            SystemRegister::IdAa64Mmfr0El1 => self.sys.id_aa64mmfr0_el1,
            SystemRegister::IdAa64Isar1El1 => self.sys.id_aa64isar1_el1,
            SystemRegister::CntvctEl0 => self.virtual_timer.counter,
            SystemRegister::CntvCtlEl0 => self.virtual_timer.ctl,
            SystemRegister::CntvCvalEl0 => self.virtual_timer.cval,
            SystemRegister::CntpTvalEl0 => self.timer.cval.saturating_sub(self.timer.counter),
            SystemRegister::HcrEl2 => self.sys.hcr_el2,
            SystemRegister::CnthctlEl2 => self.sys.cnthctl_el2,
            SystemRegister::VbarEl2 => self.sys.vbar_el2,
            SystemRegister::EsrEl2 => self.sys.esr_el2,
            SystemRegister::FarEl2 => self.sys.far_el2,
            SystemRegister::ElrEl2 => self.sys.elr_el2,
            SystemRegister::SpsrEl2 => self.sys.spsr_el2,
            SystemRegister::ScrEl3 => self.sys.scr_el3,
            SystemRegister::VbarEl3 => self.sys.vbar_el3,
            SystemRegister::EsrEl3 => self.sys.esr_el3,
            SystemRegister::FarEl3 => self.sys.far_el3,
            SystemRegister::ElrEl3 => self.sys.elr_el3,
            SystemRegister::SpsrEl3 => self.sys.spsr_el3,
        };
        proof {
            let i = el_index(self.current_el) as u64;
            assert(i <= 3 ==> i << 2u64 == i * 4) by {
                crate::bits::lemma_u64_bits(i);
            }
        }
        Ok(v)
    }

    /// Reconfigure the MMU from the bank; refused when translation is on
    /// and the MMU rejects TTBR0/TTBR1/TCR, leaving the MMU unchanged.
    pub fn sync_mmu(&mut self) -> (r: Result<(), ()>)
        ensures
            (r is Ok) == sys_admissible(old(self).sys),
            (r is Ok) ==> mmu_synced(final(self).mmu, old(self).sys),
            (r is Err) ==> final(self).mmu == old(self).mmu,
            *final(self) == (GuestCpuState { mmu: final(self).mmu, ..*old(self) }),
            mmu_wf(old(self).mmu) ==> mmu_wf(final(self).mmu),
    {
        if self.sys.sctlr_el1 & SCTLR_M == 0 {
            self.mmu.disable();
            return Ok(());
        }
        if self.sys.tcr_el1 & 0x10_0000_0000 != 0 || self.sys.ttbr0_el1 >> 56u64 != 0 || self.sys.ttbr1_el1 >> 56u64
            != 0 {
            return Err(());
        }
        let asid = if self.sys.tcr_el1 & 0x40_0000 != 0 {
            ((self.sys.ttbr1_el1 >> 48u64) & 0xff) as u16
        } else {
            ((self.sys.ttbr0_el1 >> 48u64) & 0xff) as u16
        };
        if !self.mmu.configure_tcr(self.sys.ttbr0_el1, self.sys.ttbr1_el1, self.sys.tcr_el1, asid) {
            return Err(());
        }
        Ok(())
    }

    /// MSR: see `sysreg_written`.  A refused translation change restores
    /// the register and resynchronises the MMU with the previous bank.
    pub fn write_sysreg(&mut self, reg: SystemRegister, value: u64) -> (r: Result<(), SysRegFault>)
        ensures
            sysreg_written(*old(self), *final(self), reg, value, r),
            mmu_wf(old(self).mmu) ==> mmu_wf(final(self).mmu),
    {
        if self.current_el.index() < reg.minimum_el().index() {
            return Err(SysRegFault::Privilege);
        }
        match reg {
            SystemRegister::SctlrEl1 => {
                let previous = self.sys.sctlr_el1;
                self.sys.sctlr_el1 = value;
                if self.sync_mmu().is_err() {
                    self.sys.sctlr_el1 = previous;
                    let _ = self.sync_mmu();
                    return Err(SysRegFault::InvalidValue);
                }
            },
            SystemRegister::Ttbr0El1 => {
                if value & 0xfff != 0 {
                    return Err(SysRegFault::InvalidValue);
                }
                let previous = self.sys.ttbr0_el1;
                self.sys.ttbr0_el1 = value;
                if self.sys.sctlr_el1 & SCTLR_M != 0 && self.sync_mmu().is_err() {
                    self.sys.ttbr0_el1 = previous;
                    let _ = self.sync_mmu();
                    return Err(SysRegFault::InvalidValue);
                }
            },
            SystemRegister::Ttbr1El1 => {
                if value & 0xfff != 0 {
                    return Err(SysRegFault::InvalidValue);
                }
                let previous = self.sys.ttbr1_el1;
                self.sys.ttbr1_el1 = value;
                if self.sys.sctlr_el1 & SCTLR_M != 0 && self.sync_mmu().is_err() {
                    self.sys.ttbr1_el1 = previous;
                    let _ = self.sync_mmu();
                    return Err(SysRegFault::InvalidValue);
                }
            },
            SystemRegister::TcrEl1 => {
                if value & TCR_OPTIONAL_FIELDS != 0 {
                    return Err(SysRegFault::InvalidValue);
                }
                let previous = self.sys.tcr_el1;
                self.sys.tcr_el1 = value;
                if self.sys.sctlr_el1 & SCTLR_M != 0 && self.sync_mmu().is_err() {
                    self.sys.tcr_el1 = previous;
                    let _ = self.sync_mmu();
                    return Err(SysRegFault::InvalidValue);
                }
            },
            SystemRegister::CntfrqEl0 | SystemRegister::CntpctEl0 | SystemRegister::CurrentEl
            | SystemRegister::IdAa64Mmfr0El1 | SystemRegister::IdAa64Isar1El1 | SystemRegister::CntvctEl0 => {
                return Err(SysRegFault::ReadOnly);
            },
            _ => self.write_plain(reg, value),
        }
        Ok(())
    }

    fn write_plain(&mut self, reg: SystemRegister, value: u64)
        ensures
            *final(self) == spec_plain_write(*old(self), reg, value),
    {
        match reg {
            SystemRegister::MairEl1 => self.sys.mair_el1 = value,
            SystemRegister::VbarEl1 => self.sys.vbar_el1 = value & !0x7ffu64,
            SystemRegister::EsrEl1 => self.sys.esr_el1 = value,
            SystemRegister::FarEl1 => self.sys.far_el1 = value,
            SystemRegister::ElrEl1 => self.sys.elr_el1 = value,
            SystemRegister::SpsrEl1 => self.sys.spsr_el1 = value,
            SystemRegister::CntpCtlEl0 => {
                // ISTATUS is read-only and recomputed from counter and CVAL.
                self.timer.ctl = value & (CNTP_CTL_ENABLE | CNTP_CTL_IMASK);
                if self.timer.pending() {
                    self.timer.ctl = self.timer.ctl | CNTP_CTL_ISTATUS;
                }
                self.sys.cntp_ctl_el0 = self.timer.ctl;
            },
            SystemRegister::CntpCvalEl0 => {
                self.timer.cval = value;
                self.sys.cntp_cval_el0 = value;
            },
            SystemRegister::CntvCtlEl0 => {
                self.virtual_timer.ctl = value & (CNTP_CTL_ENABLE | CNTP_CTL_IMASK);
                if self.virtual_timer.pending() {
                    self.virtual_timer.ctl = self.virtual_timer.ctl | CNTP_CTL_ISTATUS;
                }
                self.sys.cntv_ctl_el0 = self.virtual_timer.ctl;
            },
            SystemRegister::CntvCvalEl0 => {
                self.virtual_timer.cval = value;
                self.sys.cntv_cval_el0 = value;
            },
            SystemRegister::CntpTvalEl0 => {
                self.timer.cval = self.timer.counter.wrapping_add(value);
                self.sys.cntp_cval_el0 = self.timer.cval;
                self.sys.cntp_tval_el0 = value;
            },
            SystemRegister::HcrEl2 => self.sys.hcr_el2 = value,
            SystemRegister::CnthctlEl2 => self.sys.cnthctl_el2 = value,
            SystemRegister::VbarEl2 => self.sys.vbar_el2 = value & !0x7ffu64,
            SystemRegister::EsrEl2 => self.sys.esr_el2 = value,
            SystemRegister::FarEl2 => self.sys.far_el2 = value,
            SystemRegister::ElrEl2 => self.sys.elr_el2 = value,
            SystemRegister::SpsrEl2 => self.sys.spsr_el2 = value,
            SystemRegister::ScrEl3 => self.sys.scr_el3 = value,
            SystemRegister::VbarEl3 => self.sys.vbar_el3 = value & !0x7ffu64,
            SystemRegister::EsrEl3 => self.sys.esr_el3 = value,
            SystemRegister::FarEl3 => self.sys.far_el3 = value,
            SystemRegister::ElrEl3 => self.sys.elr_el3 = value,
            SystemRegister::SpsrEl3 => self.sys.spsr_el3 = value,
            _ => {},
        }
    }

    /// Advance both counters and mirror them into the bank.
    pub fn advance_counter(&mut self, ticks: u64)
        ensures
            counter_advanced(*old(self), *final(self), ticks),
    {
        self.timer.advance(ticks);
        self.virtual_timer.advance(ticks);
        self.sys.cntpct_el0 = self.timer.counter;
        self.sys.cntp_ctl_el0 = self.timer.ctl;
        self.sys.cntvct_el0 = self.virtual_timer.counter;
        self.sys.cntv_ctl_el0 = self.virtual_timer.ctl;
        self.sys.cntp_tval_el0 = self.timer.cval.saturating_sub(self.timer.counter);
    }

    /// Latch a timer interrupt, else this CPU's external interrupt, unless
    /// IRQs are masked or an exception is already pending.
    pub fn poll_interrupt(&mut self) -> (b: bool)
        requires
            old(self).affinity < 64,
        ensures
            polled(*old(self), *final(self), b),
    {
        if self.pstate & PSTATE_I != 0 || self.pending_exception.is_some() {
            return false;
        }
        if self.timer.pending() || self.virtual_timer.pending() {
            let pc = self.pc;
            self.raise(GuestException { kind: ExceptionKind::TimerInterrupt, instruction: 0, syndrome: 0, far: 0, pc });
            return true;
        }
        let bit = 1u64 << self.affinity;
        if self.smp.external_pending & bit != 0 {
            self.smp.external_pending = self.smp.external_pending & !bit;
            let pc = self.pc;
            self.raise(GuestException { kind: ExceptionKind::ExternalInterrupt, instruction: 0, syndrome: 0, far: 0, pc });
            return true;
        }
        false
    }

    /// Enter a latched asynchronous interrupt; synchronous exceptions and
    /// halts stay latched for the caller to inspect.
    pub fn commit_pending_interrupt(&mut self) -> (r: Option<GuestException>)
        ensures
            old(self).pending_exception matches Some(e) ==> ((e.kind == ExceptionKind::TimerInterrupt || e.kind
                == ExceptionKind::ExternalInterrupt) ==> r == Some(e) && took(*old(self), *final(self), e)),
            !interrupt_pending(*old(self)) ==> r is None && *final(self) == *old(self),
    {
        match self.pending_exception {
            Some(e) => {
                if e.kind == ExceptionKind::TimerInterrupt || e.kind == ExceptionKind::ExternalInterrupt {
                    self.take_pending_exception()
                } else {
                    None
                }
            },
            None => None,
        }
    }

    /// Return from an exception to the level, PSTATE and address saved in
    /// the current level's bank.
    pub fn eret(&mut self) -> (r: Result<(), ExceptionKind>)
        ensures
            eret_done(*old(self), *final(self), r),
    {
        let level = self.current_el;
        if level == ExceptionLevel::El0 {
            return Err(ExceptionKind::PrivilegedInstruction);
        }
        let (saved_pstate, saved_pc, _) = self.exception_bank(level);
        let restored_pstate = saved_pstate as u32;
        let restored_el = match level_for_mode(restored_pstate) {
            Some(l) => l,
            None => return Err(ExceptionKind::UndefinedInstruction),
        };
        let active = self.active_sp_index();
        self.sp_el[active] = self.sp;
        self.pstate = restored_pstate;
        self.pc = saved_pc;
        self.current_el = restored_el;
        self.sp = self.sp_el[restored_el.index() as usize];
        Ok(())
    }
}

// ---------------------------------------------------------------------------
// The guest bus and little-endian memory access.
// ---------------------------------------------------------------------------

/// Guest physical memory as the reference core sees it: bounded reads and
/// writes and a loader copy.  EFI pointers never cross it; a machine adds
/// MMIO behind it without teaching the decoder about devices.
pub trait GuestBus: Sized {
    /// Whether loading `code` may take the bus from `self` to `after` with
    /// outcome `ok`.
    spec fn spec_loaded(&self, after: Self, code: Seq<u8>, ok: bool) -> bool;

    /// Whether observing a committed instruction may take the bus from
    /// `self` to `after` and the CPU from `s` to `n`.
    spec fn spec_observed(&self, after: Self, s: GuestCpuState, n: GuestCpuState) -> bool;

    /// Copy a test image into guest RAM before the first fetch.
    fn load_code(&mut self, code: &[u8]) -> (ok: bool)
        ensures
            old(self).spec_loaded(*final(self), code@, ok),
    ;

    /// What a read of `size` bytes at `address` gives.
    spec fn spec_read(&self, address: u64, size: usize, access: Access) -> Result<u64, ExceptionKind>;

    /// Whether a write of `value` at `address` may take the bus from `self`
    /// to `after` with result `r`.
    spec fn spec_wrote(&self, after: Self, address: u64, size: usize, value: u64, access: Access, r: Result<
        (),
        ExceptionKind,
    >) -> bool;

    fn read(&self, address: u64, size: usize, access: Access) -> (r: Result<u64, ExceptionKind>)
        ensures
            r == self.spec_read(address, size, access),
    ;

    fn write(&mut self, address: u64, size: usize, value: u64, access: Access) -> (r: Result<(), ExceptionKind>)
        ensures
            old(self).spec_wrote(*final(self), address, size, value, access, r),
    ;

    /// Observe an architecturally committed instruction.  A device graph
    /// may mirror its timer into the bank and latch external interrupts;
    /// nothing else of the state changes.
    fn after_instruction(&mut self, state: &mut GuestCpuState)
        ensures
            *final(state) == (GuestCpuState {
                timer: final(state).timer,
                sys: final(state).sys,
                smp: final(state).smp,
                ..*old(state)
            }),
            old(self).spec_observed(*final(self), *old(state), *final(state)),
    ;
}

/// Little-endian value of `bytes` (at most eight).
pub open spec fn le_value(bytes: Seq<u8>) -> u64
    decreases bytes.len(),
{
    if bytes.len() == 0 {
        0
    } else {
        le_value(bytes.drop_last()) | ((bytes.last() as u64) << ((8 * (bytes.len() - 1)) as u64))
    }
}

/// The `width` little-endian bytes of `value`.
pub open spec fn le_bytes(value: u64, width: nat) -> Seq<u8> {
    Seq::new(width, |i: int| (value >> ((8 * i) as u64)) as u8)
}

/// Read `width` (at most eight) bytes at `index`; `None` past the end.
pub fn read_width(memory: &[u8], index: usize, width: usize) -> (r: Option<u64>)
    requires
        width <= 8,
    ensures
        index + width <= memory@.len() <==> r is Some,
        r matches Some(v) ==> v == le_value(memory@.subrange(index as int, index + width)),
{
    if index > memory.len() || width > memory.len() - index {
        return None;
    }
    let mut value: u64 = 0;
    let mut shift: usize = 0;
    while shift < width
        invariant
            shift <= width <= 8,
            index + width <= memory.len(),
            value == le_value(memory@.subrange(index as int, index + shift)),
        decreases width - shift,
    {
        let byte = memory[index + shift];
        proof {
            let next = memory@.subrange(index as int, index + shift + 1);
            assert(next.drop_last() =~= memory@.subrange(index as int, index + shift));
            assert(next.last() == byte);
        }
        value = value | ((byte as u64) << ((shift * 8) as u64));
        shift = shift + 1;
    }
    Some(value)
}

/// Write the `width` (at most eight) low bytes of `value` at `index`;
/// refused, with memory unchanged, past the end.
pub fn write_width(memory: &mut [u8], index: usize, width: usize, value: u64) -> (ok: bool)
    requires
        width <= 8,
    ensures
        ok == (index + width <= old(memory)@.len()),
        ok ==> final(memory)@ == old(memory)@.subrange(0, index as int) + le_bytes(value, width as nat)
            + old(memory)@.subrange(index + width, old(memory)@.len() as int),
        !ok ==> final(memory)@ == old(memory)@,
{
    if index > memory.len() || width > memory.len() - index {
        return false;
    }
    let mut shift: usize = 0;
    while shift < width
        invariant
            shift <= width <= 8,
            index + width <= old(memory)@.len(),
            memory@.len() == old(memory)@.len(),
            memory@.len() == memory.len(),
            forall|i: int| 0 <= i < index ==> memory@[i] == old(memory)@[i],
            forall|i: int| index + width <= i < memory@.len() ==> memory@[i] == old(memory)@[i],
            forall|i: int| 0 <= i < shift ==> memory@[index + i] == #[trigger] le_bytes(value, width as nat)[i],
        decreases width - shift,
    {
        let byte = ((value >> ((shift * 8) as u64)) & 0xff) as u8;
        proof {
            let v = value >> ((shift * 8) as u64);
            assert((v & 0xff) as u8 == v as u8) by {
                crate::bits::lemma_u64_bits(v);
            }
        }
        memory[index + shift] = byte;
        shift = shift + 1;
    }
    assert(memory@ =~= old(memory)@.subrange(0, index as int) + le_bytes(value, width as nat)
        + old(memory)@.subrange(index + width, old(memory)@.len() as int));
    true
}

/// The little-endian word at `address`.
pub fn read_u32(memory: &[u8], address: u64) -> (r: Option<u32>)
    ensures
        address + 4 <= memory@.len() <==> r is Some,
        r matches Some(v) ==> v == le_value(memory@.subrange(address as int, address + 4)) as u32,
{
    if address > memory.len() as u64 {
        return None;
    }
    match read_width(memory, address as usize, 4) {
        Some(v) => Some(v as u32),
        None => None,
    }
}

/// The little-endian doubleword at `address`.
pub fn read_u64(memory: &[u8], address: u64) -> (r: Option<u64>)
    ensures
        address + 8 <= memory@.len() <==> r is Some,
        r matches Some(v) ==> v == le_value(memory@.subrange(address as int, address + 8)),
{
    if address > memory.len() as u64 {
        return None;
    }
    read_width(memory, address as usize, 8)
}

/// Guest RAM at `base`, as the plain reference bus.
pub struct RamBus<'a> {
    pub ram: &'a mut [u8],
    pub base: u64,
}

impl<'a> RamBus<'a> {
    /// The RAM's contents.
    pub open spec fn mem(&self) -> Seq<u8> {
        (*self.ram)@
    }

    pub fn new(ram: &'a mut [u8]) -> (b: Self)
        ensures
            b.base == 0,
            b.mem() == old(ram)@,
    {
        RamBus { ram, base: 0 }
    }
}

impl<'a> GuestBus for RamBus<'a> {
    /// The image lands at the start of RAM when it fits; RAM is unchanged
    /// otherwise.
    open spec fn spec_loaded(&self, after: Self, code: Seq<u8>, ok: bool) -> bool {
        &&& ok == (code.len() <= self.mem().len())
        &&& ok ==> after.mem() == code + self.mem().subrange(code.len() as int, self.mem().len() as int)
        &&& !ok ==> after.mem() == self.mem()
        &&& after.base == self.base
    }

    /// Plain RAM observes nothing: bus and CPU stay as they are.
    open spec fn spec_observed(&self, after: Self, s: GuestCpuState, n: GuestCpuState) -> bool {
        after.mem() == self.mem() && after.base == self.base && n == s
    }

    fn after_instruction(&mut self, state: &mut GuestCpuState) {
    }

    fn load_code(&mut self, code: &[u8]) -> (ok: bool)
        ensures
            ok == (code@.len() <= old(self).mem().len()),
            ok ==> final(self).mem() == code@ + old(self).mem().subrange(code@.len() as int, old(self).mem().len() as int),
            !ok ==> final(self).mem() == old(self).mem(),
            final(self).base == old(self).base,
    {
        if code.len() > self.ram.len() {
            return false;
        }
        let mut i: usize = 0;
        while i < code.len()
            invariant
                i <= code@.len() <= self.mem().len(),
                self.mem().len() == old(self).mem().len(),
                self.base == old(self).base,
                forall|j: int| 0 <= j < i ==> self.mem()[j] == code@[j],
                forall|j: int| code@.len() <= j < self.mem().len() ==> self.mem()[j] == old(self).mem()[j],
            decreases code@.len() - i,
        {
            self.ram[i] = code[i];
            i = i + 1;
        }
        assert(self.mem() =~= code@ + old(self).mem().subrange(code@.len() as int, old(self).mem().len() as int));
        true
    }

    /// The little-endian bytes at `address - base`, or a data abort outside
    /// RAM or past eight bytes.
    open spec fn spec_read(&self, address: u64, size: usize, access: Access) -> Result<u64, ExceptionKind> {
        if size <= 8 && address >= self.base && address - self.base + size <= self.mem().len() {
            Ok(le_value(self.mem().subrange(address - self.base, address - self.base + size)))
        } else {
            Err(ExceptionKind::DataAbort)
        }
    }

    /// Inside RAM the bytes are replaced and the write succeeds; outside
    /// it, a data abort and RAM unchanged.
    open spec fn spec_wrote(&self, after: Self, address: u64, size: usize, value: u64, access: Access, r: Result<
        (),
        ExceptionKind,
    >) -> bool {
        &&& after.base == self.base
        &&& if size <= 8 && address >= self.base && address - self.base + size <= self.mem().len() {
            let i = address - self.base;
            &&& r is Ok
            &&& after.mem() == self.mem().subrange(0, i) + le_bytes(value, size as nat) + self.mem().subrange(
                i + size,
                self.mem().len() as int,
            )
        } else {
            r == Err::<(), ExceptionKind>(ExceptionKind::DataAbort) && after.mem() == self.mem()
        }
    }

    fn read(&self, address: u64, size: usize, access: Access) -> (r: Result<u64, ExceptionKind>) {
        let n = self.ram.len();
        if address < self.base || size > 8 {
            return Err(ExceptionKind::DataAbort);
        }
        let offset = address - self.base;
        if offset > n as u64 {
            return Err(ExceptionKind::DataAbort);
        }
        match read_width(self.ram, offset as usize, size) {
            Some(v) => Ok(v),
            None => Err(ExceptionKind::DataAbort),
        }
    }

    fn write(&mut self, address: u64, size: usize, value: u64, access: Access) -> (r: Result<(), ExceptionKind>)
    {
        let n = self.ram.len();
        if address < self.base || size > 8 {
            return Err(ExceptionKind::DataAbort);
        }
        let offset = address - self.base;
        if offset > n as u64 {
            return Err(ExceptionKind::DataAbort);
        }
        if write_width(self.ram, offset as usize, size, value) {
            Ok(())
        } else {
            Err(ExceptionKind::DataAbort)
        }
    }
}

// ---------------------------------------------------------------------------
// Register file and arithmetic helpers.
// ---------------------------------------------------------------------------

/// Register `index` as a source: X0..X30, then SP or XZR.
pub open spec fn spec_read_reg(s: GuestCpuState, index: u32, sp_allowed: bool) -> u64 {
    if index == 31 {
        if sp_allowed { s.sp } else { 0 }
    } else {
        s.x@[index as int]
    }
}

/// A W-register write keeps the low 32 bits.
pub open spec fn narrowed(value: u64, wide: bool) -> u64 {
    if wide { value } else { value & 0xffff_ffff }
}

/// Register `index` written: X0..X30, then SP (when allowed) or XZR.
pub open spec fn reg_written(s: GuestCpuState, n: GuestCpuState, index: u32, value: u64, sp_allowed: bool, wide: bool) -> bool {
    let v = narrowed(value, wide);
    if index == 31 {
        n == if sp_allowed { GuestCpuState { sp: v, ..s } } else { s }
    } else {
        n.x@ == s.x@.update(index as int, v) && n == GuestCpuState { x: n.x, ..s }
    }
}

/// NZCV from a result of the given width and the carry and overflow.
pub open spec fn spec_nzcv(pstate: u32, value: u64, wide: bool, carry: bool, overflow: bool) -> u32 {
    let v = narrowed(value, wide);
    let sign: u64 = if wide { 0x8000_0000_0000_0000 } else { 0x8000_0000 };
    (pstate & !(PSTATE_N | PSTATE_Z | PSTATE_C | PSTATE_V)) | (if v & sign != 0 { PSTATE_N } else { 0 }) | (if v
        == 0 { PSTATE_Z } else { 0 }) | (if carry { PSTATE_C } else { 0 }) | (if overflow { PSTATE_V } else { 0 })
}

/// ADD/SUB at 32 or 64 bits: the result, the carry (no borrow for SUB)
/// and signed overflow.
pub open spec fn spec_add_sub(left: u64, right: u64, subtract: bool, wide: bool) -> (u64, bool, bool) {
    let l = narrowed(left, wide) as int;
    let r = narrowed(right, wide) as int;
    let modulus: int = if wide { 0x1_0000_0000_0000_0000 } else { 0x1_0000_0000 };
    let sign: u64 = if wide { 0x8000_0000_0000_0000 } else { 0x8000_0000 };
    let lw = narrowed(left, wide);
    let rw = narrowed(right, wide);
    if subtract {
        let value = ((l - r + modulus) % modulus) as u64;
        (value, l >= r, (lw ^ rw) & (lw ^ value) & sign != 0)
    } else {
        let value = ((l + r) % modulus) as u64;
        (value, l + r >= modulus, !(lw ^ rw) & (lw ^ value) & sign != 0)
    }
}

pub fn add_sub(left: u64, right: u64, subtract: bool, wide: bool) -> (r: (u64, bool, bool))
    ensures
        r == spec_add_sub(left, right, subtract, wide),
{
    let mask: u64 = if wide { u64::MAX } else { 0xffff_ffff };
    let l = left & mask;
    let r = right & mask;
    let sign: u64 = if wide { 0x8000_0000_0000_0000 } else { 0x8000_0000 };
    proof {
        assert(left & u64::MAX == left) by {
            crate::bits::lemma_u64_bits(left);
        }
        assert(right & u64::MAX == right) by {
            crate::bits::lemma_u64_bits(right);
        }
        assert(left & 0xffff_ffff < 0x1_0000_0000) by {
            crate::bits::lemma_u64_bits(left);
        }
        assert(right & 0xffff_ffff < 0x1_0000_0000) by {
            crate::bits::lemma_u64_bits(right);
        }
    }
    if subtract {
        let diff = l.wrapping_sub(r);
        let value = diff & mask;
        proof {
            assert(diff & u64::MAX == diff) by {
                crate::bits::lemma_u64_bits(diff);
            }
            let d = diff;
            assert(d & 0xffff_ffff == d % 0x1_0000_0000) by {
                crate::bits::lemma_u64_bits(d);
            }
            if l >= r {
                assert(diff == l - r);
            } else {
                assert(diff == l - r + 0x1_0000_0000_0000_0000);
            }
            if !wide {
                assert(l < 0x1_0000_0000 && r < 0x1_0000_0000);
                assert((l - r + 0x1_0000_0000_0000_0000) % 0x1_0000_0000 == (l - r + 0x1_0000_0000) % 0x1_0000_0000);
            }
        }
        let overflow = (l ^ r) & (l ^ value) & sign != 0;
        (value, l >= r, overflow)
    } else {
        let sum = (l as u128) + (r as u128);
        let low = sum as u64;
        let value = low & mask;
        let carry = if wide { sum >> 64u128 != 0 } else { sum >> 32u128 != 0 };
        proof {
            assert(sum >> 64u128 != 0 <==> sum >= 0x1_0000_0000_0000_0000) by {
                crate::bits::lemma_u128_bits(sum);
            }
            assert(sum >> 32u128 != 0 <==> sum >= 0x1_0000_0000) by {
                crate::bits::lemma_u128_bits(sum);
            }
            assert(sum as u64 == sum % 0x1_0000_0000_0000_0000) by {
                crate::bits::lemma_u128_bits(sum);
            }
            assert(low & u64::MAX == low) by {
                crate::bits::lemma_u64_bits(low);
            }
            assert(low & 0xffff_ffff == low % 0x1_0000_0000) by {
                crate::bits::lemma_u64_bits(low);
            }
        }
        let overflow = !(l ^ r) & (l ^ value) & sign != 0;
        (value, carry, overflow)
    }
}

/// `value` read as a `bits`-wide two's complement number.
pub open spec fn spec_sign_extend(value: u64, bits: u32) -> i64 {
    ((value << ((64 - bits) as u64)) as i64) >> ((64 - bits) as i64)
}

pub fn sign_extend(value: u64, bits: u32) -> (r: i64)
    requires
        1 <= bits <= 64,
    ensures
        r == spec_sign_extend(value, bits),
{
    let shift = 64 - bits;
    ((value << (shift as u64)) as i64) >> (shift as i64)
}

/// How a translation fault is reported to the guest.
pub open spec fn spec_map_mmu_fault(fault: MmuFault) -> ExceptionKind {
    match fault {
        MmuFault::AddressSize | MmuFault::Translation | MmuFault::AccessFlag => ExceptionKind::TranslationFault,
        MmuFault::Permission => ExceptionKind::PermissionFault,
        MmuFault::Alignment => ExceptionKind::AlignmentFault,
    }
}

pub fn map_mmu_fault(fault: MmuFault) -> (k: ExceptionKind)
    ensures
        k == spec_map_mmu_fault(fault),
{
    match fault {
        MmuFault::AddressSize | MmuFault::Translation | MmuFault::AccessFlag => ExceptionKind::TranslationFault,
        MmuFault::Permission => ExceptionKind::PermissionFault,
        MmuFault::Alignment => ExceptionKind::AlignmentFault,
    }
}

// ---------------------------------------------------------------------------
// The reference core.
// ---------------------------------------------------------------------------

#[derive(Clone, Copy, Debug, PartialEq, Eq, Structural)]
pub enum StepResult {
    Continue,
    Halt,
    Wait,
    Exception(ExceptionKind),
}

#[derive(Clone, Copy, Debug, PartialEq, Eq, Structural)]
pub enum ArchRunStatus {
    Halt,
    Budget,
    Exception,
    Wait,
    Input,
}

#[derive(Clone, Copy, Debug, PartialEq, Eq, Structural)]
pub struct ArchRunResult {
    pub status: ArchRunStatus,
    pub exception: Option<GuestException>,
    pub retired: u64,
    pub pc: u64,
}

/// `s` with register `index` written (see `reg_written`).
pub open spec fn spec_write_reg(s: GuestCpuState, index: u32, value: u64, sp_allowed: bool, wide: bool) -> GuestCpuState {
    let v = narrowed(value, wide);
    if index == 31 {
        if sp_allowed { GuestCpuState { sp: v, ..s } } else { s }
    } else {
        GuestCpuState { x: vstd::array::spec_array_update(s.x, index as int, v), ..s }
    }
}

/// The next sequential instruction.
pub open spec fn next_pc(s: GuestCpuState) -> GuestCpuState {
    GuestCpuState { pc: wrap_add(s.pc, 4), ..s }
}

/// The instruction at `s.pc` raised `kind`.
pub open spec fn faulted(s: GuestCpuState, n: GuestCpuState, r: StepResult, kind: ExceptionKind, word: u32, syndrome: u64, far: u64) -> bool {
    r == StepResult::Exception(kind) && n == spec_raise(
        s,
        GuestException { kind, instruction: word, syndrome, far, pc: s.pc },
    )
}

pub open spec fn undefined(s: GuestCpuState, n: GuestCpuState, r: StepResult, word: u32) -> bool {
    faulted(s, n, r, ExceptionKind::UndefinedInstruction, word, word as u64, s.pc)
}

pub open spec fn privileged(s: GuestCpuState, n: GuestCpuState, r: StepResult, word: u32) -> bool {
    faulted(s, n, r, ExceptionKind::PrivilegedInstruction, word, word as u64, s.pc)
}

/// The CPU's identity and retirement count.
pub open spec fn keeps_counters(s: GuestCpuState, n: GuestCpuState) -> bool {
    n.affinity == s.affinity && n.retired == s.retired
}

/// The architectural registers an exception never changes.
pub open spec fn registers_kept(s: GuestCpuState, n: GuestCpuState) -> bool {
    &&& n.x == s.x
    &&& n.sp == s.sp
    &&& n.sp_el == s.sp_el
    &&& n.pc == s.pc
    &&& n.pstate == s.pstate
    &&& n.current_el == s.current_el
    &&& n.pauth == s.pauth
}

/// The bus and translation touched only the TLB.
pub open spec fn only_tlb(s: GuestCpuState, n: GuestCpuState) -> bool {
    n == GuestCpuState { mmu: n.mmu, ..s } && crate::mmu::same_config(n.mmu, s.mmu) && mmu_wf(n.mmu)
}

/// What reading a translation-table descriptor from bus `b` gives: the
/// eight bytes at the address, or nothing when the read fails.
pub open spec fn bus_descriptors<B: GuestBus>(b: B) -> spec_fn(u64) -> Option<u64> {
    |pa: u64|
        match b.spec_read(pa, 8, Access::Read) {
            Ok(v) => Some(v),
            Err(_) => None,
        }
}

/// An access of `size` bytes that SCTLR.A refuses as misaligned.
pub open spec fn misaligned(s: GuestCpuState, address: u64, size: usize) -> bool {
    size > 1 && address & ((size - 1) as u64) != 0 && s.sys.sctlr_el1 & SCTLR_A != 0
}

/// Where `address` goes for an access of `size` bytes, descriptors read
/// from `b`: an alignment fault first, else the MMU's translation at the
/// current level, its fault mapped to an exception kind.
pub open spec fn translated<B: GuestBus>(s: GuestCpuState, b: B, address: u64, size: usize, access: Access) -> Result<u64, ExceptionKind> {
    if misaligned(s, address, size) {
        Err(ExceptionKind::AlignmentFault)
    } else {
        match translate_with(s.mmu, address, access, s.current_el, bus_descriptors(b)) {
            Ok(t) => Ok(t.pa),
            Err(f) => Err(spec_map_mmu_fault(f)),
        }
    }
}

/// The CPU after that translation: only the TLB moves, as `translated_mmu`
/// says.
pub open spec fn translated_state<B: GuestBus>(s: GuestCpuState, n: GuestCpuState, b: B, address: u64, size: usize, access: Access) -> bool {
    if misaligned(s, address, size) {
        n == s
    } else {
        n == GuestCpuState { mmu: n.mmu, ..s } && translated_mmu(s.mmu, n.mmu, address, access, s.current_el, bus_descriptors(b))
    }
}

/// What translating a data or fetch address gives and leaves behind.
pub open spec fn address_result<B: GuestBus>(s: GuestCpuState, n: GuestCpuState, b: B, address: u64, size: usize, access: Access, r: Result<u64, ExceptionKind>) -> bool {
    &&& only_tlb(s, n)
    &&& r == translated(s, b, address, size, access)
    &&& translated_state(s, n, b, address, size, access)
}

/// The pointer-authentication view of the CPU.
pub open spec fn pauth_view(s: GuestCpuState) -> PauthView {
    PauthView {
        x: s.x@,
        sp: s.sp,
        pc: s.pc,
        sctlr: s.sys.sctlr_el1,
        tcr: s.sys.tcr_el1,
        keys: s.pauth.keys@,
        current_el: el_index(s.current_el) as u32,
        reserved: 0,
    }
}

/// The sysreg words whose SCTLR/TCR/ID accesses stay with this core.
pub open spec fn pauth_candidate(word: u32) -> bool {
    let syskey = (word >> 5u32) & 0x7fff;
    !((syskey == 0x4080 || syskey == 0x4102 || syskey == 0x4031) && word & 0xffc0_0000 == 0xd500_0000)
}

/// A pointer-authentication instruction: the PAC unit's result is copied
/// back (X, SP, PC, keys); its refusal is an undefined instruction.
pub open spec fn pauth_done(s: GuestCpuState, n: GuestCpuState, r: StepResult, word: u32) -> bool {
    match step_spec(pauth_view(s), word) {
        Some(Ok(v)) => r == StepResult::Continue && n.x@ == v.x && n.pauth.keys@ == v.keys && n == GuestCpuState {
            x: n.x,
            sp: v.sp,
            pc: v.pc,
            pauth: n.pauth,
            ..s
        },
        Some(Err(_)) => undefined(s, n, r, word),
        None => false,
    }
}


pub open spec fn is_hlt(word: u32) -> bool {
    word & 0xffe0_001f == 0xd440_0000
}

pub open spec fn is_wait(word: u32) -> bool {
    word == 0xd503_207f || word == 0xd503_205f
}

pub open spec fn is_daif(word: u32) -> bool {
    word & 0xffff_f0ff == 0xd503_40df || word & 0xffff_f0ff == 0xd503_40ff
}

pub open spec fn is_spsel(word: u32) -> bool {
    word & 0xffff_feff == 0xd500_40bf
}

pub open spec fn is_tlbi(word: u32) -> bool {
    word == 0xd508_871f || word & 0xffff_fc1f == 0xd508_8740
}

pub open spec fn is_svc(word: u32) -> bool {
    word & 0xffe0_001f == 0xd400_0001
}

pub open spec fn is_barrier(word: u32) -> bool {
    word & 0xffff_f0ff == 0xd503_30bf || word & 0xffff_f0ff == 0xd503_309f || word & 0xffff_f0ff == 0xd503_30df
}

pub open spec fn is_clrex(word: u32) -> bool {
    word & 0xffff_f0ff == 0xd503_305f
}

/// Words handled without memory or system-register access, in decode
/// order: NOP, HLT, WFI/WFE, DAIFSet/Clr, SPSel, TLBI, ERET, SVC, the
/// barriers and CLREX.
pub open spec fn is_system(word: u32) -> bool {
    word == 0xd503_201f || is_hlt(word) || is_wait(word) || is_daif(word) || is_spsel(word) || is_tlbi(word) || word
        == 0xd69f_03e0 || is_svc(word)
}

/// The effect of a word in `is_system`.
pub open spec fn system_done(s: GuestCpuState, n: GuestCpuState, r: StepResult, word: u32) -> bool {
    let el0 = s.current_el == ExceptionLevel::El0;
    if word == 0xd503_201f {
        r == StepResult::Continue && n == next_pc(s)
    } else if is_hlt(word) {
        if (word >> 5u32) & 0xffff == 0 {
            r == StepResult::Halt && n == next_pc(s)
        } else {
            undefined(s, n, r, word)
        }
    } else if is_wait(word) {
        if el0 {
            privileged(s, n, r, word)
        } else {
            r == StepResult::Wait && n == GuestCpuState { waiting: true, ..next_pc(s) }
        }
    } else if is_daif(word) {
        let mask = ((word >> 8u32) & 0xf) << 6u32;
        if el0 {
            privileged(s, n, r, word)
        } else {
            r == StepResult::Continue && n == GuestCpuState {
                pstate: if word & 0xff == 0xdf { s.pstate | mask } else { s.pstate & !mask },
                ..next_pc(s)
            }
        }
    } else if is_spsel(word) {
        let banked = vstd::array::spec_array_update(s.sp_el, spec_active_sp(s), s.sp);
        let pstate = if word & 0x100 != 0 { s.pstate | 1 } else { s.pstate & !1u32 };
        let moved = GuestCpuState { sp_el: banked, pstate, ..s };
        if el0 {
            privileged(s, n, r, word)
        } else {
            r == StepResult::Continue && n == GuestCpuState { sp: banked@[spec_active_sp(moved)], ..next_pc(moved) }
        }
    } else if is_tlbi(word) {
        if el0 {
            privileged(s, n, r, word)
        } else {
            &&& r == StepResult::Continue
            &&& n == GuestCpuState { mmu: n.mmu, ..next_pc(s) }
            &&& crate::mmu::same_config(n.mmu, s.mmu)
            &&& tlb_cleared(n.mmu)
        }
    } else if word == 0xd69f_03e0 {
        ||| (r == StepResult::Continue && eret_done(s, n, Ok(())))
        ||| (exists|k: ExceptionKind| eret_done(s, s, Err(k)) && #[trigger] faulted(s, n, r, k, word, word as u64, s.pc))
    } else {
        faulted(s, n, r, ExceptionKind::SupervisorCall, word, word as u64, 0)
    }
}


pub open spec fn is_sysreg_access(word: u32) -> bool {
    word & 0xffe0_0000 == 0xd520_0000 || word & 0xffe0_0000 == 0xd500_0000
}

/// A refused MRS/MSR: privilege faults stay distinct from traps.
pub open spec fn sysreg_fault_kind(f: SysRegFault) -> ExceptionKind {
    if f == SysRegFault::Privilege { ExceptionKind::PrivilegedInstruction } else { ExceptionKind::SystemRegisterTrap }
}

/// MRS/MSR: unknown registers trap; MRS writes Xt, MSR goes through
/// `sysreg_written`; a refusal raises from the state the access left.
pub open spec fn sysreg_done(s: GuestCpuState, n: GuestCpuState, r: StepResult, word: u32) -> bool {
    let rd = word & 31;
    match spec_sysreg_of(word & 0xffff_ffe0) {
        None => faulted(s, n, r, ExceptionKind::SystemRegisterTrap, word, word as u64, s.pc),
        Some(reg) => if word & 0xffe0_0000 == 0xd520_0000 {
            match spec_read_sysreg(s, reg) {
                Ok(v) => r == StepResult::Continue && n == next_pc(spec_write_reg(s, rd, v, false, true)),
                Err(f) => faulted(s, n, r, sysreg_fault_kind(f), word, word as u64, s.pc),
            }
        } else {
            exists|m: GuestCpuState, res: Result<(), SysRegFault>|
                #[trigger] sysreg_written(s, m, reg, spec_read_reg(s, rd, false), res) && match res {
                    Ok(_) => r == StepResult::Continue && n == next_pc(m),
                    Err(f) => faulted(m, n, r, sysreg_fault_kind(f), word, word as u64, s.pc),
                }
        },
    }
}

pub open spec fn is_move_wide(word: u32) -> bool {
    word & 0x7f80_0000 == 0x5280_0000 || word & 0x7f80_0000 == 0x7280_0000
}

pub open spec fn is_add_sub_imm(word: u32) -> bool {
    word & 0x1f00_0000 == 0x1100_0000
}

pub open spec fn is_add_sub_reg(word: u32) -> bool {
    word & 0x1f20_0000 == 0x0b00_0000
}

pub open spec fn is_wide(word: u32) -> bool {
    word & 0x8000_0000 != 0
}

/// Write the result, set NZCV when asked, and step.
pub open spec fn alu_result(s: GuestCpuState, rd: u32, sum: (u64, bool, bool), sp_allowed: bool, set_flags: bool, wide: bool) -> GuestCpuState {
    let w = spec_write_reg(s, rd, sum.0, sp_allowed, wide);
    let f = if set_flags { GuestCpuState { pstate: spec_nzcv(w.pstate, sum.0, wide, sum.1, sum.2), ..w } } else { w };
    next_pc(f)
}

/// MOVZ/MOVK and ADD/SUB (immediate, and shifted register with LSL).
pub open spec fn alu_done(s: GuestCpuState, n: GuestCpuState, r: StepResult, word: u32) -> bool {
    let rd = word & 31;
    let rn = (word >> 5u32) & 31;
    let wide = is_wide(word);
    if is_move_wide(word) {
        let shift = ((word >> 21u32) & 3) * 16;
        let mask = 0xffffu64 << (shift as u64);
        let immediate = (((word >> 5u32) & 0xffff) as u64) << (shift as u64);
        let value = if word & 0x7f80_0000 == 0x7280_0000 {
            (spec_read_reg(s, rd, false) & !mask) | immediate
        } else {
            immediate
        };
        if !wide && shift >= 32 {
            undefined(s, n, r, word)
        } else {
            r == StepResult::Continue && n == next_pc(spec_write_reg(s, rd, value, false, wide))
        }
    } else if is_add_sub_imm(word) {
        let shift: u64 = if word & 0x40_0000 != 0 { 12 } else { 0 };
        let immediate = (((word >> 10u32) & 0xfff) as u64) << shift;
        let sum = spec_add_sub(spec_read_reg(s, rn, true), immediate, word & 0x4000_0000 != 0, wide);
        let set_flags = word & 0x2000_0000 != 0;
        r == StepResult::Continue && n == alu_result(s, rd, sum, !set_flags, set_flags, wide)
    } else {
        let shift_type = (word >> 22u32) & 3;
        let amount = (word >> 10u32) & 0x3f;
        if shift_type != 0 || (!wide && amount >= 32) || (wide && amount >= 64) {
            undefined(s, n, r, word)
        } else {
            let right = spec_read_reg(s, (word >> 16u32) & 31, false) << (amount as u64);
            let sum = spec_add_sub(spec_read_reg(s, rn, false), right, word & 0x4000_0000 != 0, wide);
            let set_flags = word & 0x2000_0000 != 0;
            r == StepResult::Continue && n == alu_result(s, rd, sum, false, set_flags, wide)
        }
    }
}

pub open spec fn is_branch_imm(word: u32) -> bool {
    word & 0xfc00_0000 == 0x1400_0000
}

pub open spec fn is_branch_reg(word: u32) -> bool {
    word & 0xfe1f_fc00 == 0xd61f_0000
}

pub open spec fn is_compare_branch(word: u32) -> bool {
    word & 0x7e00_0000 == 0x3400_0000
}

/// A branch displacement: a signed word count in the low `bits`.
pub open spec fn displacement(field: u64, bits: u32) -> u64 {
    (spec_sign_extend(field, bits) as u64) << 2u64
}

/// B, BR/BLR/RET and CBZ/CBNZ.
pub open spec fn branch_done(s: GuestCpuState, n: GuestCpuState, r: StepResult, word: u32) -> bool {
    r == StepResult::Continue && if is_branch_imm(word) {
        n == GuestCpuState { pc: wrap_add(s.pc, displacement((word & 0x03ff_ffff) as u64, 26)), ..s }
    } else if is_branch_reg(word) {
        let target = spec_read_reg(s, (word >> 5u32) & 31, true);
        let linked = if word & 0x20_0000 != 0 {
            GuestCpuState { x: vstd::array::spec_array_update(s.x, 30, wrap_add(s.pc, 4)), ..s }
        } else {
            s
        };
        n == GuestCpuState { pc: target, ..linked }
    } else {
        let value = spec_read_reg(s, word & 31, false);
        let take = if word & 0x100_0000 != 0 { value != 0 } else { value == 0 };
        n == GuestCpuState {
            pc: if take { wrap_add(s.pc, displacement(((word >> 5u32) & 0x7ffff) as u64, 19)) } else { wrap_add(s.pc, 4) },
            ..s
        }
    }
}

/// B goes to PC plus the signed 26-bit word offset in bits 25:0, times
/// four, modulo 2^64; BR, BLR and RET go to the address in Xn (SP for
/// register 31), BLR (bit 21) first linking PC + 4 into X30.  Nothing else
/// changes.
pub proof fn lemma_unconditional_branch(s: GuestCpuState, n: GuestCpuState, r: StepResult, word: u32)
    requires
        word & 0xfc00_0000 == 0x1400_0000 || word & 0xfe1f_fc00 == 0xd61f_0000,
        branch_done(s, n, r, word) || rest_step(s, n, r, word),
    ensures
        r == StepResult::Continue,
        word & 0xfc00_0000 == 0x1400_0000 ==> {
            let e = (word & 0x03ff_ffff) as int;
            let offset = if e >= 0x200_0000 { e - 0x400_0000 } else { e };
            n == GuestCpuState { pc: ((s.pc + 4 * offset) % 0x1_0000_0000_0000_0000) as u64, ..s }
        },
        word & 0xfe1f_fc00 == 0xd61f_0000 ==> {
            let t = (word >> 5u32) & 31;
            &&& n.pc == if t == 31 { s.sp } else { s.x@[t as int] }
            &&& n.x@[30] == if word & 0x20_0000 != 0 { ((s.pc + 4) % 0x1_0000_0000_0000_0000) as u64 } else { s.x@[30] }
            &&& forall|i: int| 0 <= i < 30 ==> n.x@[i] == s.x@[i]
            &&& n == GuestCpuState { pc: n.pc, x: n.x, ..s }
        },
{
    assert((is_branch_imm(word) || is_branch_reg(word)) && !(is_branch_imm(word) && is_branch_reg(word))
        && !is_exclusive(word) && !is_barrier(word) && !is_clrex(word) && !is_sysreg_access(word) && !is_move_wide(
        word,
    ) && !is_add_sub_imm(word) && !is_add_sub_reg(word) && !is_load_store(word) && (word >> 5u32) & 31 < 32)
        by (bit_vector)
        requires
            word & 0xfc00_0000 == 0x1400_0000 || word & 0xfe1f_fc00 == 0xd61f_0000,
    ;
    if is_branch_imm(word) {
        let f = word & 0x03ff_ffff;
        assert(f < 0x400_0000) by (bit_vector)
            requires
                f == word & 0x03ff_ffff,
        ;
        let e = f as u64;
        let d = displacement(e, 26);
        assert(d == if e >= 0x200_0000 { ((e * 4) + 0xffff_ffff_f000_0000u64) as u64 } else { (e * 4) as u64 })
            by (bit_vector)
            requires
                e < 0x400_0000,
                d == ((((e << 38u64) as i64) >> 38i64) as u64) << 2u64,
        ;
    } else {
        assert(s.x@.len() == 31);
        if word & 0x20_0000 != 0 {
            assert(vstd::array::spec_array_update(s.x, 30, wrap_add(s.pc, 4))@ == s.x@.update(30, wrap_add(s.pc, 4)));
        }
    }
}

/// The PC a taken compare-and-branch reaches: PC plus the signed 19-bit
/// word offset in bits 23:5, times four, modulo 2^64.
pub open spec fn compare_branch_target(pc: u64, word: u32) -> u64 {
    let e = ((word >> 5u32) & 0x7ffff) as int;
    let offset = if e >= 0x40000 { e - 0x80000 } else { e };
    ((pc + 4 * offset) % 0x1_0000_0000_0000_0000) as u64
}

/// CBZ (bit 24 clear) branches exactly when the tested register (Xt, XZR
/// reading zero) is zero, CBNZ (bit 24 set) exactly when it is not; a taken
/// branch goes to PC + 4 * imm19 (sign-extended), otherwise execution goes
/// on at PC + 4.  Nothing but the PC changes.
pub proof fn lemma_compare_branch(s: GuestCpuState, n: GuestCpuState, r: StepResult, word: u32)
    requires
        word & 0x7e00_0000 == 0x3400_0000,
        branch_done(s, n, r, word) || rest_step(s, n, r, word),
    ensures
        r == StepResult::Continue,
        n == (GuestCpuState { pc: n.pc, ..s }),
        ({
            let t = word & 31;
            let value = if t == 31 { 0 } else { s.x@[t as int] };
            let taken = if word & 0x100_0000 == 0 { value == 0 } else { value != 0 };
            n.pc == if taken { compare_branch_target(s.pc, word) } else { ((s.pc + 4) % 0x1_0000_0000_0000_0000) as u64 }
        }),
{
    assert(!is_branch_imm(word) && !is_branch_reg(word) && is_compare_branch(word) && !is_exclusive(word)
        && !is_barrier(word) && !is_clrex(word) && !is_sysreg_access(word) && !is_move_wide(word) && !is_add_sub_imm(
        word,
    ) && !is_add_sub_reg(word) && !is_load_store(word) && word & 31 < 32) by (bit_vector)
        requires
            word & 0x7e00_0000 == 0x3400_0000,
    ;
    let f = (word >> 5u32) & 0x7ffff;
    assert(f < 0x80000) by (bit_vector)
        requires
            f == (word >> 5u32) & 0x7ffff,
    ;
    let e = f as u64;
    let d = displacement(e, 19);
    assert(d == if e >= 0x40000 { ((e * 4) + 0xffff_ffff_ffe0_0000u64) as u64 } else { (e * 4) as u64 }) by (bit_vector)
        requires
            e < 0x80000,
            d == ((((e << 45u64) as i64) >> 45i64) as u64) << 2u64,
    ;
}

pub open spec fn is_exclusive(word: u32) -> bool {
    word & 0x3fc0_7c00 == 0x0840_7c00 || word & 0x3fc0_7c00 == 0x0800_7c00
}

pub open spec fn is_load_store(word: u32) -> bool {
    word & 0x3b00_0000 == 0x3900_0000
}

/// The general register a memory instruction may write: Xt of a load,
/// Ws of a store-exclusive, none (31) for a plain store.
pub open spec fn memory_target(word: u32) -> u32 {
    if is_exclusive(word) {
        if word & 0x3fc0_7c00 == 0x0840_7c00 { word & 31 } else { (word >> 16u32) & 31 }
    } else if word & 0x40_0000 != 0 {
        word & 31
    } else {
        31
    }
}

/// Exclusive and unsigned-offset loads and stores.  A fault raises with
/// the registers untouched; completion writes at most the target register,
/// steps, and leaves the level, PSTATE and the bank alone.
pub open spec fn memory_done(s: GuestCpuState, n: GuestCpuState, r: StepResult, word: u32) -> bool {
    match r {
        StepResult::Exception(k) => exists|m: GuestCpuState, e: GuestException|
            only_tlb(s, m) && e.kind == k && e.instruction == word && e.pc == s.pc && e.syndrome
                == spec_access_syndrome(mem_access(word)) && e.far == (if address_overflows(s, word) {
                s.pc
            } else {
                mem_address(s, word)
            }) && #[trigger] spec_raise(m, e) == n,
        StepResult::Continue => {
            &&& n.pc == wrap_add(s.pc, 4)
            &&& n.sp == s.sp && n.sp_el == s.sp_el && n.pstate == s.pstate && n.current_el == s.current_el
            &&& n.sys == s.sys && n.pauth == s.pauth && n.pending_exception == s.pending_exception
            &&& n.exception_target == s.exception_target && n.timer == s.timer && n.smp == s.smp
            &&& crate::mmu::same_config(n.mmu, s.mmu) && mmu_wf(n.mmu)
            &&& forall|i: int| 0 <= i < 31 && i != memory_target(word) ==> #[trigger] n.x@[i] == s.x@[i]
        },
        _ => false,
    }
}


/// Access size of a plain load or store: bits 31:30 as 1, 2, 4 or 8 bytes.
pub open spec fn ls_size(word: u32) -> usize {
    let c = (word >> 30u32) & 3;
    if c == 0 { 1 } else if c == 1 { 2 } else if c == 2 { 4 } else { 8 }
}

/// The scaled unsigned immediate of a plain load or store.
pub open spec fn ls_offset(word: u32) -> u64 {
    (((word >> 10u32) & 0xfff) as u64) << (((word >> 30u32) & 3) as u64)
}

/// The reservation a store-exclusive at `pa` of `size` bytes needs.
pub open spec fn reservation_held(s: GuestCpuState, pa: u64, size: usize) -> bool {
    s.exclusive.valid && s.exclusive.address == pa && s.exclusive.size == size as u8 && s.exclusive.owner == s.affinity
}

/// The access a memory word makes.
pub open spec fn mem_access(word: u32) -> Access {
    if mem_load(word) { Access::Read } else { Access::Write }
}

/// A plain load or store whose base plus offset does not fit 64 bits.
pub open spec fn address_overflows(s: GuestCpuState, word: u32) -> bool {
    !is_exclusive(word) && spec_read_reg(s, (word >> 5u32) & 31, true) + ls_offset(word) > u64::MAX
}

/// The bus side and the outcome of a load, store or exclusive: an address
/// that overflows is a data abort and a misaligned exclusive an alignment
/// fault, both before translation; otherwise the address translates (see
/// `translated`, which leaves the MMU as `translated_state` says) or raises
/// its fault.  A load then reads the bus at the physical address into Rt
/// (none for XZR), or raises the bus's fault; a store writes Rt there and
/// raises the write's fault, if any; a store-exclusive writes only with its
/// reservation and reports 0 or 1 in Ws.  Only a write touches the bus.
pub open spec fn memory_bus<B: GuestBus>(s: GuestCpuState, n: GuestCpuState, b0: B, b1: B, r: StepResult, word: u32) -> bool {
    let rd = word & 31;
    let size = mem_size(word);
    let stored = spec_read_reg(s, rd, false);
    let status = (word >> 16u32) & 31;
    let address = mem_address(s, word);
    let access = mem_access(word);
    if address_overflows(s, word) {
        r == StepResult::Exception(ExceptionKind::DataAbort) && b1 == b0 && n.mmu == s.mmu
    } else if is_exclusive(word) && address & ((size - 1) as u64) != 0 {
        r == StepResult::Exception(ExceptionKind::AlignmentFault) && b1 == b0 && n.mmu == s.mmu
    } else {
        exists|t: GuestCpuState|
            #[trigger] translated_state(s, t, b0, address, size, access) && n.mmu == t.mmu && match translated(
                s,
                b0,
                address,
                size,
                access,
            ) {
                Err(k) => r == StepResult::Exception(k) && b1 == b0,
                Ok(pa) => if mem_load(word) {
                    &&& b1 == b0
                    &&& match b0.spec_read(pa, size, Access::Read) {
                        Err(k) => r == StepResult::Exception(k),
                        Ok(v) => r == StepResult::Continue && (rd != 31 ==> n.x@[rd as int] == narrowed(v, mem_wide(word))),
                    }
                } else if is_exclusive(word) && !reservation_held(s, pa, size) {
                    b1 == b0 && r == StepResult::Continue && (status != 31 ==> n.x@[status as int] == 1u64)
                } else {
                    exists|w: Result<(), ExceptionKind>|
                        #[trigger] b0.spec_wrote(b1, pa, size, stored, Access::Write, w) && match w {
                            Err(k) => r == StepResult::Exception(k),
                            Ok(_) => r == StepResult::Continue && (is_exclusive(word) && status != 31 ==> n.x@[status as int]
                                == 0u64),
                        }
                },
            }
    }
}

/// The access size of a memory word: 4 or 8 bytes for an exclusive, the
/// size field otherwise.
pub open spec fn mem_size(word: u32) -> usize {
    if is_exclusive(word) {
        if word & 0x8000_0000 != 0 { 8 } else { 4 }
    } else {
        ls_size(word)
    }
}

/// The virtual address of a memory word: Xn (or SP) for an exclusive, Xn
/// plus the scaled offset otherwise.
pub open spec fn mem_address(s: GuestCpuState, word: u32) -> u64 {
    if is_exclusive(word) {
        spec_read_reg(s, (word >> 5u32) & 31, true)
    } else {
        (spec_read_reg(s, (word >> 5u32) & 31, true) + ls_offset(word)) as u64
    }
}

/// Whether a memory word loads.
pub open spec fn mem_load(word: u32) -> bool {
    if is_exclusive(word) { word & 0x3fc0_7c00 == 0x0840_7c00 } else { word & 0x40_0000 != 0 }
}

/// Whether a memory word's register is 64 bits wide.
pub open spec fn mem_wide(word: u32) -> bool {
    if is_exclusive(word) { word & 0x8000_0000 != 0 } else { ls_size(word) == 8 }
}

/// The words `execute_rest` sends to the bus: exclusives, and plain loads
/// and stores that no earlier group claims.
pub open spec fn rest_memory(word: u32) -> bool {
    is_exclusive(word) || (!is_barrier(word) && !is_clrex(word) && !is_sysreg_access(word) && !(is_move_wide(word)
        || is_add_sub_imm(word) || is_add_sub_reg(word)) && is_load_store(word))
}

/// The bus side of one decoded word: memory words as `memory_bus`,
/// everything else leaves the bus alone.
pub open spec fn word_bus<B: GuestBus>(s: GuestCpuState, n: GuestCpuState, b0: B, b1: B, r: StepResult, word: u32) -> bool {
    if !(pauth_candidate(word) && step_spec(pauth_view(s), word) is Some) && !is_system(word) && rest_memory(word) {
        memory_bus(s, n, b0, b1, r, word)
    } else {
        b1 == b0
    }
}

/// What fetching at the PC gives: an alignment fault for a misaligned PC,
/// the translation fault of the PC, an instruction abort when the bus
/// refuses the four bytes, else the word the bus holds there.
pub open spec fn fetch_result<B: GuestBus>(s: GuestCpuState, b: B) -> Result<u32, ExceptionKind> {
    if s.pc & 3 != 0 {
        Err(ExceptionKind::AlignmentFault)
    } else {
        match translated(s, b, s.pc, 4, Access::Execute) {
            Err(k) => Err(k),
            Ok(pa) => match b.spec_read(pa, 4, Access::Execute) {
                Ok(v) => Ok(v as u32),
                Err(_) => Err(ExceptionKind::InstructionAbort),
            },
        }
    }
}

/// The CPU after the fetch: unchanged for a misaligned PC, else as the
/// translation of the PC leaves it.
pub open spec fn fetch_state<B: GuestBus>(s: GuestCpuState, m: GuestCpuState, b: B) -> bool {
    if s.pc & 3 != 0 {
        m == s
    } else {
        translated_state(s, m, b, s.pc, 4, Access::Execute)
    }
}

/// One instruction with its bus: the fetch (see `fetch_result`) either
/// faults, which raises with no instruction word and the PC as fault
/// address and leaves the bus alone, or gives the word that executes from
/// the state the fetch left (see `word_step`), with the bus effect of
/// `word_bus`.
pub open spec fn bus_step<B: GuestBus>(s: GuestCpuState, n: GuestCpuState, b0: B, b1: B, r: StepResult) -> bool {
    exists|m: GuestCpuState|
        #[trigger] fetch_state(s, m, b0) && match fetch_result(s, b0) {
            Err(k) => b1 == b0 && r == StepResult::Exception(k) && n == spec_raise(
                m,
                GuestException { kind: k, instruction: 0, syndrome: 0, far: s.pc, pc: s.pc },
            ),
            Ok(word) => word_step(m, n, r, word) && word_bus(m, n, b0, b1, r, word),
        }
}

/// One decoded word, in decode order: pointer authentication, the
/// `is_system` group, exclusives, barriers, CLREX, MRS/MSR, the ALU group,
/// loads and stores, branches; anything else is undefined.
pub open spec fn word_step(s: GuestCpuState, n: GuestCpuState, r: StepResult, word: u32) -> bool {
    if pauth_candidate(word) && step_spec(pauth_view(s), word) is Some {
        pauth_done(s, n, r, word)
    } else if is_system(word) {
        system_done(s, n, r, word)
    } else {
        rest_step(s, n, r, word)
    }
}

/// The words after the `is_system` group.
pub open spec fn rest_step(s: GuestCpuState, n: GuestCpuState, r: StepResult, word: u32) -> bool {
    if is_exclusive(word) {
        memory_done(s, n, r, word)
    } else if is_barrier(word) {
        r == StepResult::Continue && n == next_pc(s)
    } else if is_clrex(word) {
        r == StepResult::Continue && n == next_pc(
            GuestCpuState { exclusive: ExclusiveMonitor { valid: false, ..s.exclusive }, ..s },
        )
    } else if is_sysreg_access(word) {
        sysreg_done(s, n, r, word)
    } else if is_move_wide(word) || is_add_sub_imm(word) || is_add_sub_reg(word) {
        alu_done(s, n, r, word)
    } else if is_load_store(word) {
        memory_done(s, n, r, word)
    } else if is_branch_imm(word) || is_branch_reg(word) || is_compare_branch(word) {
        branch_done(s, n, r, word)
    } else {
        undefined(s, n, r, word)
    }
}

/// One instruction, seen without its bus: a fetch fault raises with no
/// instruction word and the PC as fault address; otherwise a word executes
/// from the state the fetch left (only its TLB may differ).  Which of the
/// two happens, and which word, `bus_step` decides from the bus.
pub open spec fn instruction_step(s: GuestCpuState, n: GuestCpuState, r: StepResult) -> bool {
    ||| exists|m: GuestCpuState, k: ExceptionKind|
        only_tlb(s, m) && r == StepResult::Exception(k) && #[trigger] spec_raise(
            m,
            GuestException { kind: k, instruction: 0, syndrome: 0, far: s.pc, pc: s.pc },
        ) == n
    ||| exists|m: GuestCpuState, word: u32| only_tlb(s, m) && m.pc == s.pc && #[trigger] word_step(m, n, r, word)
}

impl GuestCpuState {
    pub fn read_reg(&self, index: u32, sp_allowed: bool) -> (v: u64)
        requires
            index < 32,
        ensures
            v == spec_read_reg(*self, index, sp_allowed),
    {
        if index == 31 {
            if sp_allowed {
                self.sp
            } else {
                0
            }
        } else {
            self.x[index as usize]
        }
    }

    pub fn write_reg(&mut self, index: u32, value: u64, sp_allowed: bool, wide: bool)
        requires
            index < 32,
        ensures
            *final(self) == spec_write_reg(*old(self), index, value, sp_allowed, wide),
    {
        let v = if wide { value } else { value & 0xffff_ffff };
        if index == 31 {
            if sp_allowed {
                self.sp = v;
            }
        } else {
            self.x[index as usize] = v;
            proof {
                broadcast use vstd::array::group_array_axioms;
                assert(self.x =~= vstd::array::spec_array_update(old(self).x, index as int, v));
            }
        }
    }

    pub fn set_nzcv(&mut self, value: u64, wide: bool, carry: bool, overflow: bool)
        ensures
            *final(self) == (GuestCpuState {
                pstate: spec_nzcv(old(self).pstate, value, wide, carry, overflow),
                ..*old(self)
            }),
    {
        let mask: u64 = if wide { u64::MAX } else { 0xffff_ffff };
        let v = value & mask;
        proof {
            assert(value & u64::MAX == value) by {
                crate::bits::lemma_u64_bits(value);
            }
        }
        let sign: u64 = if wide { 0x8000_0000_0000_0000 } else { 0x8000_0000 };
        let mut p = self.pstate & !(PSTATE_N | PSTATE_Z | PSTATE_C | PSTATE_V);
        if v & sign != 0 {
            p = p | PSTATE_N;
        } else {
            p = p | 0;
        }
        if v == 0 {
            p = p | PSTATE_Z;
        } else {
            p = p | 0;
        }
        if carry {
            p = p | PSTATE_C;
        } else {
            p = p | 0;
        }
        if overflow {
            p = p | PSTATE_V;
        } else {
            p = p | 0;
        }
        self.pstate = p;
    }

    /// Translate a guest address for an access of `size` bytes.
    pub fn mmu_address<B: GuestBus>(&mut self, bus: &B, address: u64, size: usize, access: Access) -> (r: Result<
        u64,
        ExceptionKind,
    >)
        requires
            mmu_wf(old(self).mmu),
            1 <= size <= 8,
        ensures
            address_result(*old(self), *final(self), *bus, address, size, access, r),
    {
        if size > 1 && address & (size as u64 - 1) != 0 && self.sys.sctlr_el1 & SCTLR_A != 0 {
            return Err(ExceptionKind::AlignmentFault);
        }
        let read64 = |physical: u64| -> (v: Option<u64>)
            ensures
                v == (match bus.spec_read(physical, 8, Access::Read) {
                    Ok(x) => Some(x),
                    Err(_) => None::<u64>,
                }),
            {
                match bus.read(physical, 8, Access::Read) {
                    Ok(value) => Some(value),
                    Err(_) => None,
                }
            };
        let el = self.current_el;
        let ghost m0 = self.mmu;
        let t = self.mmu.translate(address, access, el, read64);
        proof {
            let f = bus_descriptors(*bus);
            assert forall|pa: u64, v: Option<u64>| call_ensures(read64, (pa,), v) implies v == f(pa) by {}
            if m0.enabled && !(access == Access::Execute && address & 3 != 0) && spec_select_root(m0, address) is Some
                && tlb_match(m0.tlb@, m0.asid, address, crate::mmu::el10_regime(el), 0) is None {
                let descs = choose|descs: Seq<Option<u64>>| #[trigger] walk_produces(m0, self.mmu, address, access, el, read64, descs, t);
                lemma_translate_with(m0, self.mmu, address, access, el, read64, descs, t, f);
            }
        }
        match t {
            Ok(t) => Ok(t.pa),
            Err(fault) => Err(map_mmu_fault(fault)),
        }
    }

    /// Fetch the instruction at PC through translation.
    pub fn fetch32<B: GuestBus>(&mut self, bus: &B) -> (r: Result<u32, ExceptionKind>)
        requires
            mmu_wf(old(self).mmu),
        ensures
            only_tlb(*old(self), *final(self)),
            r == fetch_result(*old(self), *bus),
            fetch_state(*old(self), *final(self), *bus),
    {
        if self.pc & 3 != 0 {
            return Err(ExceptionKind::AlignmentFault);
        }
        let pc = self.pc;
        let physical = match self.mmu_address(bus, pc, 4, Access::Execute) {
            Ok(p) => p,
            Err(k) => return Err(k),
        };
        match bus.read(physical, 4, Access::Execute) {
            Ok(value) => Ok(value as u32),
            Err(_) => Err(ExceptionKind::InstructionAbort),
        }
    }

    fn fault(&mut self, kind: ExceptionKind, word: u32, syndrome: u64, far: u64) -> (r: StepResult)
        ensures
            keeps_counters(*old(self), *final(self)),
            faulted(*old(self), *final(self), r, kind, word, syndrome, far),
    {
        let pc = self.pc;
        self.raise(GuestException { kind, instruction: word, syndrome, far, pc });
        StepResult::Exception(kind)
    }

    fn exec_pauth(&mut self, word: u32) -> (r: Option<StepResult>)
        ensures
            keeps_counters(*old(self), *final(self)),
            step_spec(pauth_view(*old(self)), word) is None ==> r is None && *final(self) == *old(self),
            step_spec(pauth_view(*old(self)), word) is Some ==> (r matches Some(res) && pauth_done(
                *old(self),
                *final(self),
                res,
                word,
            )),
    {
        let mut context = PauthContext::new(
            self.x,
            self.sp,
            self.pc,
            self.sys.sctlr_el1,
            self.sys.tcr_el1,
            self.pauth,
            self.current_el.index() as u32,
        );
        assert(context@ == pauth_view(*self));
        match pauth::step(&mut context, word) {
            None => None,
            Some(Ok(())) => {
                self.x = context.x;
                self.sp = context.sp;
                self.pc = context.pc;
                self.pauth = context.state();
                Some(StepResult::Continue)
            },
            Some(Err(_)) => Some(self.fault(ExceptionKind::UndefinedInstruction, word, word as u64, self.pc)),
        }
    }
}

impl GuestCpuState {
    fn exec_system(&mut self, word: u32) -> (r: StepResult)
        requires
            is_system(word),
            mmu_wf(old(self).mmu),
        ensures
            keeps_counters(*old(self), *final(self)),
            system_done(*old(self), *final(self), r, word),
            mmu_wf(final(self).mmu),
    {
        let pc = self.pc;
        let el0 = self.current_el == ExceptionLevel::El0;
        if word == 0xd503_201f {
            self.pc = pc.wrapping_add(4);
            return StepResult::Continue;
        }
        if word & 0xffe0_001f == 0xd440_0000 {
            if (word >> 5u32) & 0xffff == 0 {
                self.pc = pc.wrapping_add(4);
                return StepResult::Halt;
            }
            return self.fault(ExceptionKind::UndefinedInstruction, word, word as u64, pc);
        }
        if word == 0xd503_207f || word == 0xd503_205f {
            if el0 {
                return self.fault(ExceptionKind::PrivilegedInstruction, word, word as u64, pc);
            }
            self.pc = pc.wrapping_add(4);
            self.waiting = true;
            return StepResult::Wait;
        }
        // DAIF and SPSel are PSTATE updates, accepted at EL1 and above.
        if word & 0xffff_f0ff == 0xd503_40df || word & 0xffff_f0ff == 0xd503_40ff {
            if el0 {
                return self.fault(ExceptionKind::PrivilegedInstruction, word, word as u64, pc);
            }
            let mask = ((word >> 8u32) & 0xf) << 6u32;
            if word & 0xff == 0xdf {
                self.pstate = self.pstate | mask;
            } else {
                self.pstate = self.pstate & !mask;
            }
            self.pc = pc.wrapping_add(4);
            return StepResult::Continue;
        }
        if word & 0xffff_feff == 0xd500_40bf {
            if el0 {
                return self.fault(ExceptionKind::PrivilegedInstruction, word, word as u64, pc);
            }
            let active = self.active_sp_index();
            self.sp_el[active] = self.sp;
            proof {
                broadcast use vstd::array::group_array_axioms;
                assert(self.sp_el =~= vstd::array::spec_array_update(old(self).sp_el, active as int, old(self).sp));
            }
            if word & 0x100 != 0 {
                self.pstate = self.pstate | 1;
            } else {
                self.pstate = self.pstate & !1u32;
            }
            let active = self.active_sp_index();
            self.sp = self.sp_el[active];
            self.pc = pc.wrapping_add(4);
            return StepResult::Continue;
        }
        // The bounded TLB has no global/ASID split: both VMALLE1 and ASIDE1
        // drop the whole array.
        if word == 0xd508_871f || word & 0xffff_fc1f == 0xd508_8740 {
            if el0 {
                return self.fault(ExceptionKind::PrivilegedInstruction, word, word as u64, pc);
            }
            self.mmu.invalidate();
            self.pc = pc.wrapping_add(4);
            return StepResult::Continue;
        }
        if word == 0xd69f_03e0 {
            return match self.eret() {
                Ok(()) => StepResult::Continue,
                Err(kind) => self.fault(kind, word, word as u64, pc),
            };
        }
        self.fault(ExceptionKind::SupervisorCall, word, word as u64, 0)
    }
}

impl GuestCpuState {
    fn exec_sysreg(&mut self, word: u32) -> (r: StepResult)
        requires
            is_sysreg_access(word),
            mmu_wf(old(self).mmu),
        ensures
            keeps_counters(*old(self), *final(self)),
            sysreg_done(*old(self), *final(self), r, word),
            mmu_wf(final(self).mmu),
    {
        let pc = self.pc;
        let rd = word & 31;
        proof {
            assert(word & 31 < 32) by {
                crate::bits::lemma_u32_bits(word);
            }
        }
        let reg = match SystemRegister::from_instruction(word) {
            Some(reg) => reg,
            None => return self.fault(ExceptionKind::SystemRegisterTrap, word, word as u64, pc),
        };
        if word & 0xffe0_0000 == 0xd520_0000 {
            match self.read_sysreg(reg) {
                Ok(value) => {
                    self.write_reg(rd, value, false, true);
                    self.pc = pc.wrapping_add(4);
                    StepResult::Continue
                },
                Err(fault) => {
                    let kind = if fault == SysRegFault::Privilege {
                        ExceptionKind::PrivilegedInstruction
                    } else {
                        ExceptionKind::SystemRegisterTrap
                    };
                    self.fault(kind, word, word as u64, pc)
                },
            }
        } else {
            let value = self.read_reg(rd, false);
            let result = self.write_sysreg(reg, value);
            let ghost mid = *self;
            assert(sysreg_written(*old(self), mid, reg, spec_read_reg(*old(self), rd, false), result));
            match result {
                Ok(()) => {
                    self.pc = pc.wrapping_add(4);
                    StepResult::Continue
                },
                Err(fault) => {
                    let kind = if fault == SysRegFault::Privilege {
                        ExceptionKind::PrivilegedInstruction
                    } else {
                        ExceptionKind::SystemRegisterTrap
                    };
                    self.fault(kind, word, word as u64, pc)
                },
            }
        }
    }

    #[verifier::rlimit(40)]
    fn exec_alu(&mut self, word: u32) -> (r: StepResult)
        requires
            is_move_wide(word) || is_add_sub_imm(word) || is_add_sub_reg(word),
        ensures
            keeps_counters(*old(self), *final(self)),
            alu_done(*old(self), *final(self), r, word),
    {
        let pc = self.pc;
        let rd = word & 31;
        let rn = (word >> 5u32) & 31;
        let wide = word & 0x8000_0000 != 0;
        proof {
            assert(word & 31 < 32) by {
                crate::bits::lemma_u32_bits(word);
            }
            assert((word >> 5u32) & 31 < 32) by {
                crate::bits::lemma_u32_bits(word);
            }
            assert((word >> 16u32) & 31 < 32) by {
                crate::bits::lemma_u32_bits(word);
            }
        }
        let move_op = word & 0x7f80_0000;
        if move_op == 0x5280_0000 || move_op == 0x7280_0000 {
            proof {
                assert((word >> 21u32) & 3 <= 3) by {
                    crate::bits::lemma_u32_bits(word);
                }
            }
            let shift = ((word >> 21u32) & 3) * 16;
            if !wide && shift >= 32 {
                return self.fault(ExceptionKind::UndefinedInstruction, word, word as u64, pc);
            }
            let mask = 0xffffu64 << (shift as u64);
            let immediate = (((word >> 5u32) & 0xffff) as u64) << (shift as u64);
            let value = if move_op == 0x7280_0000 {
                (self.read_reg(rd, false) & !mask) | immediate
            } else {
                immediate
            };
            self.write_reg(rd, value, false, wide);
            self.pc = pc.wrapping_add(4);
            return StepResult::Continue;
        }
        if word & 0x1f00_0000 == 0x1100_0000 {
            let subtract = word & 0x4000_0000 != 0;
            let set_flags = word & 0x2000_0000 != 0;
            let shift: u64 = if word & 0x40_0000 != 0 { 12 } else { 0 };
            let immediate = (((word >> 10u32) & 0xfff) as u64) << shift;
            let left = self.read_reg(rn, true);
            let (value, carry, overflow) = add_sub(left, immediate, subtract, wide);
            self.write_reg(rd, value, !set_flags, wide);
            if set_flags {
                self.set_nzcv(value, wide, carry, overflow);
            }
            self.pc = pc.wrapping_add(4);
            return StepResult::Continue;
        }
        let subtract = word & 0x4000_0000 != 0;
        let set_flags = word & 0x2000_0000 != 0;
        let shift_type = (word >> 22u32) & 3;
        let amount = (word >> 10u32) & 0x3f;
        if shift_type != 0 || (!wide && amount >= 32) || (wide && amount >= 64) {
            return self.fault(ExceptionKind::UndefinedInstruction, word, word as u64, pc);
        }
        let right = self.read_reg((word >> 16u32) & 31, false) << (amount as u64);
        let left = self.read_reg(rn, false);
        let (value, carry, overflow) = add_sub(left, right, subtract, wide);
        self.write_reg(rd, value, false, wide);
        if set_flags {
            self.set_nzcv(value, wide, carry, overflow);
        }
        self.pc = pc.wrapping_add(4);
        StepResult::Continue
    }

    fn exec_branch(&mut self, word: u32) -> (r: StepResult)
        requires
            is_branch_imm(word) || is_branch_reg(word) || is_compare_branch(word),
        ensures
            keeps_counters(*old(self), *final(self)),
            branch_done(*old(self), *final(self), r, word),
    {
        let pc = self.pc;
        proof {
            assert(word & 31 < 32) by {
                crate::bits::lemma_u32_bits(word);
            }
            assert((word >> 5u32) & 31 < 32) by {
                crate::bits::lemma_u32_bits(word);
            }
        }
        if word & 0xfc00_0000 == 0x1400_0000 {
            let offset = (sign_extend((word & 0x03ff_ffff) as u64, 26) as u64) << 2u64;
            self.pc = pc.wrapping_add(offset);
            return StepResult::Continue;
        }
        if word & 0xfe1f_fc00 == 0xd61f_0000 {
            let target = self.read_reg((word >> 5u32) & 31, true);
            if word & 0x20_0000 != 0 {
                self.x[30] = pc.wrapping_add(4);
                proof {
                    broadcast use vstd::array::group_array_axioms;
                    assert(self.x =~= vstd::array::spec_array_update(old(self).x, 30, wrap_add(old(self).pc, 4)));
                }
            }
            self.pc = target;
            return StepResult::Continue;
        }
        let value = self.read_reg(word & 31, false);
        let nonzero = word & 0x100_0000 != 0;
        let offset = (sign_extend(((word >> 5u32) & 0x7ffff) as u64, 19) as u64) << 2u64;
        let take = if nonzero { value != 0 } else { value == 0 };
        self.pc = if take { pc.wrapping_add(offset) } else { pc.wrapping_add(4) };
        StepResult::Continue
    }
}

impl GuestCpuState {
    fn exec_exclusive<B: GuestBus>(&mut self, bus: &mut B, word: u32) -> (r: StepResult)
        requires
            is_exclusive(word),
            mmu_wf(old(self).mmu),
        ensures
            keeps_counters(*old(self), *final(self)),
            memory_done(*old(self), *final(self), r, word),
            memory_bus(*old(self), *final(self), *old(bus), *final(bus), r, word),
            mmu_wf(final(self).mmu),
    {
        let ghost s0 = *self;
        let ghost b0 = *bus;
        let pc = self.pc;
        let rd = word & 31;
        let rn = (word >> 5u32) & 31;
        let wide = word & 0x8000_0000 != 0;
        let load = word & 0x3fc0_7c00 == 0x0840_7c00;
        proof {
            assert(word & 31 < 32) by {
                crate::bits::lemma_u32_bits(word);
            }
            assert((word >> 5u32) & 31 < 32) by {
                crate::bits::lemma_u32_bits(word);
            }
            assert((word >> 16u32) & 31 < 32) by {
                crate::bits::lemma_u32_bits(word);
            }
        }
        let size: usize = if wide { 8 } else { 4 };
        let access = if load { Access::Read } else { Access::Write };
        let address = self.read_reg(rn, true);
        if address & (size as u64 - 1) != 0 {
            return self.fault(ExceptionKind::AlignmentFault, word, access_syndrome(access), address);
        }
        assert(size == mem_size(word) && access == mem_access(word) && address == mem_address(s0, word));
        let physical = match self.mmu_address(&*bus, address, size, access) {
            Ok(p) => p,
            Err(kind) => {
                let ghost t = *self;
                let r = self.fault(kind, word, access_syndrome(access), address);
                assert(translated_state(s0, t, b0, address, size, access) && self.mmu == t.mmu);
                return r;
            },
        };
        let ghost t = *self;
        if load {
            let value = match bus.read(physical, size, Access::Read) {
                Ok(v) => v,
                Err(kind) => {
                    let r = self.fault(kind, word, access_syndrome(Access::Read), address);
                    assert(translated_state(s0, t, b0, address, size, access) && self.mmu == t.mmu);
                    return r;
                },
            };
            self.write_reg(rd, value, false, wide);
            let affinity = self.affinity;
            self.exclusive.reserve(physical, size as u8, affinity);
            self.pc = pc.wrapping_add(4);
            assert(translated_state(s0, t, b0, address, size, access) && self.mmu == t.mmu);
        } else {
            let status = (word >> 16u32) & 31;
            let value = self.read_reg(rd, false);
            assert(value == spec_read_reg(s0, rd, false));
            let succeeds = self.exclusive.succeeds(physical, size as u8, self.affinity);
            assert(succeeds == reservation_held(s0, physical, size));
            let mut written: Result<(), ExceptionKind> = Ok(());
            if succeeds {
                written = bus.write(physical, size, value, Access::Write);
                match written {
                    Ok(()) => {},
                    Err(kind) => {
                        let r = self.fault(kind, word, access_syndrome(Access::Write), address);
                        assert(b0.spec_wrote(*bus, physical, size, value, Access::Write, written));
                        assert(translated_state(s0, t, b0, address, size, access) && self.mmu == t.mmu);
                        return r;
                    },
                }
            }
            // A store-exclusive consumes the reservation either way.
            self.exclusive.valid = false;
            self.write_reg(status, if succeeds { 0 } else { 1 }, false, false);
            self.pc = pc.wrapping_add(4);
            proof {
                crate::bits::lemma_u64_bits(0);
                crate::bits::lemma_u64_bits(1);
                if succeeds {
                    assert(b0.spec_wrote(*bus, physical, size, value, Access::Write, written));
                }
            }
            assert(translated_state(s0, t, b0, address, size, access) && self.mmu == t.mmu);
        }
        StepResult::Continue
    }

    #[verifier::rlimit(30)]
    fn exec_load_store<B: GuestBus>(&mut self, bus: &mut B, word: u32) -> (r: StepResult)
        requires
            is_load_store(word),
            mmu_wf(old(self).mmu),
        ensures
            keeps_counters(*old(self), *final(self)),
            memory_done(*old(self), *final(self), r, word),
            memory_bus(*old(self), *final(self), *old(bus), *final(bus), r, word),
            mmu_wf(final(self).mmu),
    {
        let ghost s0 = *self;
        let ghost b0 = *bus;
        let pc = self.pc;
        let rd = word & 31;
        let rn = (word >> 5u32) & 31;
        proof {
            assert(word & 31 < 32) by {
                crate::bits::lemma_u32_bits(word);
            }
            assert((word >> 5u32) & 31 < 32) by {
                crate::bits::lemma_u32_bits(word);
            }
            assert((word >> 30u32) & 3 <= 3) by {
                crate::bits::lemma_u32_bits(word);
            }
        }
        let size_code = (word >> 30u32) & 3;
        let size: usize = if size_code == 0 { 1 } else if size_code == 1 { 2 } else if size_code == 2 { 4 } else { 8 };
        let load = word & 0x40_0000 != 0;
        let access = if load { Access::Read } else { Access::Write };
        let offset = (((word >> 10u32) & 0xfff) as u64) << (size_code as u64);
        proof {
            assert(word & 0x3b00_0000 == 0x3900_0000 ==> !(word & 0x3fc0_7c00 == 0x0840_7c00 || word & 0x3fc0_7c00
                == 0x0800_7c00)) by (bit_vector);
        }
        let base = self.read_reg(rn, true);
        let address = match base.checked_add(offset) {
            Some(a) => a,
            None => return self.fault(ExceptionKind::DataAbort, word, access_syndrome(access), pc),
        };
        assert(size == ls_size(word) && offset == ls_offset(word));
        assert(address == (spec_read_reg(s0, rn, true) + ls_offset(word)) as u64);
        assert(size == mem_size(word) && access == mem_access(word) && address == mem_address(s0, word));
        let physical = match self.mmu_address(&*bus, address, size, access) {
            Ok(p) => p,
            Err(kind) => {
                let ghost t = *self;
                let r = self.fault(kind, word, access_syndrome(access), address);
                assert(translated_state(s0, t, b0, address, size, access) && self.mmu == t.mmu);
                return r;
            },
        };
        let ghost t = *self;
        if load {
            let value = match bus.read(physical, size, Access::Read) {
                Ok(v) => v,
                Err(kind) => {
                    let r = self.fault(kind, word, access_syndrome(Access::Read), address);
                    assert(translated_state(s0, t, b0, address, size, access) && self.mmu == t.mmu);
                    return r;
                },
            };
            self.write_reg(rd, value, false, size == 8);
            self.pc = pc.wrapping_add(4);
            assert(translated_state(s0, t, b0, address, size, access) && self.mmu == t.mmu);
        } else {
            let value = self.read_reg(rd, false);
            assert(value == spec_read_reg(s0, rd, false));
            let written = bus.write(physical, size, value, Access::Write);
            match written {
                Ok(()) => {},
                Err(kind) => {
                    let r = self.fault(kind, word, access_syndrome(Access::Write), address);
                    assert(b0.spec_wrote(*bus, physical, size, value, Access::Write, written));
                    assert(translated_state(s0, t, b0, address, size, access) && self.mmu == t.mmu);
                    return r;
                },
            }
            self.exclusive.clear_on_store(physical, size as u8);
            self.pc = pc.wrapping_add(4);
            assert(b0.spec_wrote(*bus, physical, size, value, Access::Write, written));
            assert(translated_state(s0, t, b0, address, size, access) && self.mmu == t.mmu);
        }
        StepResult::Continue
    }

    /// Execute a fetched word; see `word_step`.  An exception never
    /// commits a register, stack-pointer, PC or PSTATE change.
    #[verifier::rlimit(60)]
    pub fn execute_word<B: GuestBus>(&mut self, bus: &mut B, word: u32) -> (r: StepResult)
        requires
            mmu_wf(old(self).mmu),
        ensures
            keeps_counters(*old(self), *final(self)),
            word_step(*old(self), *final(self), r, word),
            word_bus(*old(self), *final(self), *old(bus), *final(bus), r, word),
            mmu_wf(final(self).mmu),
    {
        let syskey = (word >> 5u32) & 0x7fff;
        if !((syskey == 0x4080 || syskey == 0x4102 || syskey == 0x4031) && word & 0xffc0_0000 == 0xd500_0000) {
            if let Some(r) = self.exec_pauth(word) {
                return r;
            }
        }
        if word == 0xd503_201f || word & 0xffe0_001f == 0xd440_0000 || word == 0xd503_207f || word == 0xd503_205f
            || word & 0xffff_f0ff == 0xd503_40df || word & 0xffff_f0ff == 0xd503_40ff || word & 0xffff_feff
            == 0xd500_40bf || word == 0xd508_871f || word & 0xffff_fc1f == 0xd508_8740 || word == 0xd69f_03e0 || word
            & 0xffe0_001f == 0xd400_0001 {
            return self.exec_system(word);
        }
        self.execute_rest(bus, word)
    }

    #[verifier::rlimit(40)]
    fn execute_rest<B: GuestBus>(&mut self, bus: &mut B, word: u32) -> (r: StepResult)
        requires
            mmu_wf(old(self).mmu),
        ensures
            keeps_counters(*old(self), *final(self)),
            rest_step(*old(self), *final(self), r, word),
            if rest_memory(word) {
                memory_bus(*old(self), *final(self), *old(bus), *final(bus), r, word)
            } else {
                *final(bus) == *old(bus)
            },
            mmu_wf(final(self).mmu),
    {
        // Exclusive reservations live in guest-physical space, after
        // translation, so two virtual aliases share one reservation.
        if word & 0x3fc0_7c00 == 0x0840_7c00 || word & 0x3fc0_7c00 == 0x0800_7c00 {
            return self.exec_exclusive(bus, word);
        }
        // DMB/DSB/ISB retire in order on a single core.
        if word & 0xffff_f0ff == 0xd503_30bf || word & 0xffff_f0ff == 0xd503_309f || word & 0xffff_f0ff
            == 0xd503_30df {
            self.pc = self.pc.wrapping_add(4);
            return StepResult::Continue;
        }
        if word & 0xffff_f0ff == 0xd503_305f {
            self.exclusive.valid = false;
            self.pc = self.pc.wrapping_add(4);
            return StepResult::Continue;
        }
        if word & 0xffe0_0000 == 0xd520_0000 || word & 0xffe0_0000 == 0xd500_0000 {
            return self.exec_sysreg(word);
        }
        if word & 0x7f80_0000 == 0x5280_0000 || word & 0x7f80_0000 == 0x7280_0000 || word & 0x1f00_0000
            == 0x1100_0000 || word & 0x1f20_0000 == 0x0b00_0000 {
            return self.exec_alu(word);
        }
        if word & 0x3b00_0000 == 0x3900_0000 {
            return self.exec_load_store(bus, word);
        }
        if word & 0xfc00_0000 == 0x1400_0000 || word & 0xfe1f_fc00 == 0xd61f_0000 || word & 0x7e00_0000
            == 0x3400_0000 {
            return self.exec_branch(word);
        }
        let pc = self.pc;
        self.fault(ExceptionKind::UndefinedInstruction, word, word as u64, pc)
    }

    /// Fetch and execute one instruction; see `instruction_step`.
    pub fn execute_one<B: GuestBus>(&mut self, bus: &mut B) -> (r: StepResult)
        requires
            mmu_wf(old(self).mmu),
        ensures
            keeps_counters(*old(self), *final(self)),
            instruction_step(*old(self), *final(self), r),
            bus_step(*old(self), *final(self), *old(bus), *final(bus), r),
            mmu_wf(final(self).mmu),
    {
        let pc = self.pc;
        let ghost s0 = *self;
        let word = match self.fetch32(&*bus) {
            Ok(value) => value,
            Err(kind) => {
                let ghost m = *self;
                self.raise(GuestException { kind, instruction: 0, syndrome: 0, far: pc, pc });
                assert(spec_raise(m, GuestException { kind, instruction: 0, syndrome: 0, far: pc, pc }) == *self);
                assert(fetch_state(s0, m, *bus));
                return StepResult::Exception(kind);
            },
        };
        let ghost m = *self;
        let ghost b0 = *bus;
        let r = self.execute_word(bus, word);
        assert(word_step(m, *self, r, word));
        assert(word_bus(m, *self, b0, *bus, r, word));
        assert(fetch_state(s0, m, b0));
        r
    }
}

/// Raising an exception changes only the bank and the pending state.
pub proof fn lemma_raise_keeps_registers(s: GuestCpuState, e: GuestException)
    ensures
        registers_kept(s, spec_raise(s, e)),
{
}

/// A step is committed only after decode, translation and permission
/// checks: an instruction that ends in an exception leaves X0-X30, SP, the
/// banked stack pointers, PC, PSTATE, the level and the keys as they were.
pub proof fn lemma_exception_commits_nothing(s: GuestCpuState, n: GuestCpuState, r: StepResult)
    requires
        instruction_step(s, n, r),
        r is Exception,
    ensures
        registers_kept(s, n),
{
    if exists|m: GuestCpuState, word: u32| only_tlb(s, m) && m.pc == s.pc && #[trigger] word_step(m, n, r, word) {
        let (m, word) = choose|m: GuestCpuState, word: u32| only_tlb(s, m) && m.pc == s.pc && #[trigger] word_step(m, n, r, word);
        if pauth_candidate(word) && step_spec(pauth_view(m), word) is Some {
        } else if is_system(word) {
            if word == 0xd69f_03e0 {
                if !(r == StepResult::Continue && eret_done(m, n, Ok(()))) {
                    let k = choose|k: ExceptionKind| eret_done(m, m, Err(k)) && #[trigger] faulted(m, n, r, k, word, word as u64, m.pc);
                }
            }
        } else if is_exclusive(word) || (!is_sysreg_access(word) && is_load_store(word)) {
            let (m2, e) = choose|m2: GuestCpuState, e: GuestException| only_tlb(m, m2) && e.kind == r->Exception_0 && e.instruction == word && e.pc == m.pc && #[trigger] spec_raise(m2, e) == n;
            lemma_raise_keeps_registers(m2, e);
        } else if is_sysreg_access(word) {
            if spec_sysreg_of(word & 0xffff_ffe0) is Some && word & 0xffe0_0000 != 0xd520_0000 {
                let reg = spec_sysreg_of(word & 0xffff_ffe0)->Some_0;
                let (m2, res) = choose|m2: GuestCpuState, res: Result<(), SysRegFault>| #[trigger] sysreg_written(m, m2, reg, spec_read_reg(m, word & 31, false), res) && match res {
                    Ok(_) => r == StepResult::Continue && n == next_pc(m2),
                    Err(f) => faulted(m2, n, r, sysreg_fault_kind(f), word, word as u64, m.pc),
                };
            }
        }
    } else {
        let (m, k) = choose|m: GuestCpuState, k: ExceptionKind| only_tlb(s, m) && r == StepResult::Exception(k) && #[trigger] spec_raise(m, GuestException { kind: k, instruction: 0, syndrome: 0, far: s.pc, pc: s.pc }) == n;
        lemma_raise_keeps_registers(m, GuestException { kind: k, instruction: 0, syndrome: 0, far: s.pc, pc: s.pc });
    }
}

/// One retired instruction from `a` with bus `ba`: no interrupt at the
/// boundary, the instruction itself (see `instruction_step` and
/// `bus_step`) to `m` and `bm` with result `res`, the retired count and the
/// counters advanced by one to `c`, then the bus's observation (see
/// `spec_observed`), which may change only the timers, the system
/// registers and the SMP state, to `b` and `bb`.
pub open spec fn retired_via<B: GuestBus>(a: GuestCpuState, ba: B, m: GuestCpuState, bm: B, c: GuestCpuState, b: GuestCpuState, bb: B, res: StepResult) -> bool {
    &&& polled(a, a, false)
    &&& instruction_step(a, m, res)
    &&& bus_step(a, m, ba, bm, res)
    &&& keeps_counters(a, m)
    &&& m.retired < u64::MAX
    &&& counter_advanced(GuestCpuState { retired: (m.retired + 1) as u64, ..m }, c, 1)
    &&& b == (GuestCpuState { timer: b.timer, sys: b.sys, smp: b.smp, ..c })
    &&& bm.spec_observed(bb, c, b)
}

pub open spec fn retired_step<B: GuestBus>(a: GuestCpuState, ba: B, b: GuestCpuState, bb: B, res: StepResult) -> bool {
    exists|m: GuestCpuState, bm: B, c: GuestCpuState| #[trigger] retired_via(a, ba, m, bm, c, b, bb, res)
}

/// Consecutive states and buses of a run, each reached from the one
/// before by a retired instruction that continued.
pub open spec fn continued<B: GuestBus>(trace: Seq<(GuestCpuState, B)>) -> bool {
    forall|i: int|
        0 <= i < trace.len() - 1 ==> #[trigger] retired_step(
            trace[i].0,
            trace[i].1,
            trace[i + 1].0,
            trace[i + 1].1,
            StepResult::Continue,
        )
}

/// How a run that reached `t` with bus `bt` ends in `n` with bus `bn`: at
/// the budget; with a retired halt or wait; with an interrupt taken at the
/// boundary; or with an instruction that raised an exception, which is not
/// retired.
pub open spec fn run_ends<B: GuestBus>(t: GuestCpuState, bt: B, n: GuestCpuState, bn: B, budget: u64, r: ArchRunResult) -> bool {
    match r.status {
        ArchRunStatus::Budget => n == t && bn == bt && t.retired >= budget,
        ArchRunStatus::Halt => retired_step(t, bt, n, bn, StepResult::Halt) && t.retired < budget,
        ArchRunStatus::Wait => retired_step(t, bt, n, bn, StepResult::Wait) && t.retired < budget,
        ArchRunStatus::Exception => t.retired < budget && (interrupt_taken(t, n, r) && bn == bt || instruction_faulted(
            t,
            bt,
            n,
            bn,
            r,
        )),
        ArchRunStatus::Input => false,
    }
}

/// An interrupt latched at the boundary and entered.
pub open spec fn interrupt_taken(t: GuestCpuState, n: GuestCpuState, r: ArchRunResult) -> bool {
    exists|p: GuestCpuState, e: GuestException|
        #![trigger polled(t, p, true), took(p, n, e)]
        polled(t, p, true) && p.pending_exception == Some(e) && took(p, n, e) && r.exception == Some(e)
}

/// An instruction that raised an exception, reported as latched.
pub open spec fn instruction_faulted<B: GuestBus>(t: GuestCpuState, bt: B, n: GuestCpuState, bn: B, r: ArchRunResult) -> bool {
    &&& polled(t, t, false)
    &&& exists|k: ExceptionKind|
        #[trigger] instruction_step(t, n, StepResult::Exception(k)) && bus_step(t, n, bt, bn, StepResult::Exception(k))
            && keeps_counters(t, n) && r.exception == if n.pending_exception is Some {
            n.pending_exception
        } else {
            Some(GuestException { kind: k, instruction: 0, syndrome: 0, far: n.pc, pc: n.pc })
        }
}

/// A run from `s` with bus `bs` to `n` with bus `bn`: a sequence of
/// continuing retired instructions, then the end `run_ends` describes.
pub open spec fn ran<B: GuestBus>(s: GuestCpuState, bs: B, n: GuestCpuState, bn: B, budget: u64, r: ArchRunResult) -> bool {
    exists|trace: Seq<(GuestCpuState, B)>|
        trace.len() >= 1 && trace[0] == (s, bs) && continued(trace) && #[trigger] run_ends(
            trace.last().0,
            trace.last().1,
            n,
            bn,
            budget,
            r,
        )
}

/// The state a per-invocation run starts from: the retired count, the PC
/// and the exception bookkeeping cleared.
pub open spec fn fresh_run(s: GuestCpuState) -> GuestCpuState {
    GuestCpuState {
        retired: 0,
        pc: 0,
        pending_exception: None,
        exception_target: None,
        exception_from_lower_el: false,
        exception_vector: 0,
        waiting: false,
        ..s
    }
}

/// A reset core entered at `entry` with X0 = `args`, SP and SP_EL1 =
/// `stack`, EL1 with all of DAIF masked.
pub open spec fn boot_entry(b: GuestCpuState, affinity: u32, entry: u64, args: u64, stack: u64) -> bool {
    &&& b.pc == entry
    &&& b.x@[0] == args
    &&& forall|i: int| 1 <= i < 31 ==> b.x@[i] == 0
    &&& b.sp == stack
    &&& b.sp_el@[1] == stack
    &&& b.current_el == ExceptionLevel::El1
    &&& b.pstate == 5 | PSTATE_D | PSTATE_A | PSTATE_I | PSTATE_F
    &&& b.sys == spec_sys_reset()
    &&& b.pending_exception is None
    &&& b.affinity == affinity
    &&& b.retired == 0
}

/// How a bounded run reports: the result mirrors the final retirement
/// count and PC, never exceeds the budget, names an exception exactly for
/// an exception stop, and stops at the budget only when it is used up.
pub open spec fn run_reported(s: GuestCpuState, n: GuestCpuState, budget: u64, r: ArchRunResult) -> bool {
    &&& r.retired == n.retired
    &&& r.pc == n.pc
    &&& r.status != ArchRunStatus::Input
    &&& s.retired <= n.retired
    &&& (n.retired <= budget || n.retired == s.retired)
    &&& (r.status == ArchRunStatus::Budget ==> n.retired >= budget)
    &&& (r.status == ArchRunStatus::Exception) == (r.exception is Some)
}

/// The inputs a bounded run refuses before touching the state.
pub open spec fn run_input_invalid(s: GuestCpuState, code_len: nat, budget: u64) -> bool {
    !spec_state_valid(s) || code_len < 4 || code_len % 4 != 0 || budget == 0
}

/// A boot request the loader refuses: misaligned base, entry, arguments
/// or stack, or an entry, argument block or stack outside guest RAM.
pub open spec fn boot_invalid(ram_len: nat, ram_base: u64, entry: u64, args: u64, stack: u64, budget: u64) -> bool {
    let end = ram_base + ram_len;
    ||| budget == 0
    ||| ram_base & 0x3fff != 0
    ||| entry & 3 != 0
    ||| args & 7 != 0
    ||| stack & 15 != 0
    ||| end > u64::MAX
    ||| entry < ram_base
    ||| entry + 4 > end
    ||| args < ram_base
    ||| args >= end
    ||| stack <= ram_base
    ||| stack > end
}

impl GuestCpuState {
    /// Run the loaded image until a halt, a wait, an exception or the
    /// budget.  Interrupts are polled at each instruction boundary and an
    /// asynchronous one is entered before it is reported.
    #[verifier::rlimit(100)]
    pub fn run_loaded_with_bus<B: GuestBus>(&mut self, bus: &mut B, budget: u64) -> (r: ArchRunResult)
        requires
            mmu_wf(old(self).mmu),
            old(self).affinity < 64,
        ensures
            run_reported(*old(self), *final(self), budget, r),
            ran(*old(self), *old(bus), *final(self), *final(bus), budget, r),
            mmu_wf(final(self).mmu),
            final(self).affinity == old(self).affinity,
    {
        let ghost mut trace: Seq<(GuestCpuState, B)> = seq![(*self, *bus)];
        while self.retired < budget
            invariant
                mmu_wf(self.mmu),
                self.affinity == old(self).affinity,
                old(self).affinity < 64,
                old(self).retired <= self.retired,
                self.retired <= budget || self.retired == old(self).retired,
                trace.len() >= 1,
                trace[0] == (*old(self), *old(bus)),
                trace.last() == (*self, *bus),
                continued(trace),
            decreases budget - self.retired,
        {
            let ghost t = *self;
            let ghost bt = *bus;
            if self.poll_interrupt() {
                let ghost p = *self;
                let pending = self.pending_exception;
                let exception = match self.commit_pending_interrupt() {
                    Some(e) => Some(e),
                    None => pending,
                };
                let r = ArchRunResult {
                    status: ArchRunStatus::Exception,
                    exception,
                    retired: self.retired,
                    pc: self.pc,
                };
                proof {
                    let e = p.pending_exception->Some_0;
                    assert(polled(t, p, true) && p.pending_exception == Some(e) && took(p, *self, e));
                    assert(interrupt_taken(t, *self, r));
                    assert(run_ends(trace.last().0, trace.last().1, *self, *bus, budget, r));
                }
                return r;
            }
            let ghost a = *self;
            let result = self.execute_one(bus);
            let ghost m = *self;
            let ghost bm = *bus;
            match result {
                StepResult::Exception(kind) => {
                    let pc = self.pc;
                    let exception = match self.pending_exception {
                        Some(e) => Some(e),
                        None => Some(GuestException { kind, instruction: 0, syndrome: 0, far: pc, pc }),
                    };
                    let r = ArchRunResult {
                        status: ArchRunStatus::Exception,
                        exception,
                        retired: self.retired,
                        pc: self.pc,
                    };
                    proof {
                        assert(instruction_step(t, *self, StepResult::Exception(kind)));
                        assert(bus_step(t, *self, bt, *bus, StepResult::Exception(kind)));
                        assert(instruction_faulted(t, bt, *self, *bus, r));
                        assert(run_ends(trace.last().0, trace.last().1, *self, *bus, budget, r));
                    }
                    return r;
                },
                _ => {},
            }
            self.retired = self.retired + 1;
            self.advance_counter(1);
            let ghost c = *self;
            bus.after_instruction(self);
            proof {
                assert(retired_via(a, bt, m, bm, c, *self, *bus, result));
                assert(retired_step(a, bt, *self, *bus, result));
            }
            match result {
                StepResult::Halt => {
                    let r = ArchRunResult {
                        status: ArchRunStatus::Halt,
                        exception: None,
                        retired: self.retired,
                        pc: self.pc,
                    };
                    assert(run_ends(trace.last().0, trace.last().1, *self, *bus, budget, r));
                    return r;
                },
                StepResult::Wait => {
                    let r = ArchRunResult {
                        status: ArchRunStatus::Wait,
                        exception: None,
                        retired: self.retired,
                        pc: self.pc,
                    };
                    assert(run_ends(trace.last().0, trace.last().1, *self, *bus, budget, r));
                    return r;
                },
                _ => {},
            }
            proof {
                let next = trace.push((*self, *bus));
                assert forall|i: int| 0 <= i < next.len() - 1 implies #[trigger] retired_step(
                    next[i].0,
                    next[i].1,
                    next[i + 1].0,
                    next[i + 1].1,
                    StepResult::Continue,
                ) by {
                    if i < trace.len() - 1 {
                        assert(next[i] == trace[i] && next[i + 1] == trace[i + 1]);
                    } else {
                        assert(next[i] == (a, bt) && next[i + 1] == (*self, *bus));
                    }
                }
                trace = next;
            }
        }
        let r = ArchRunResult { status: ArchRunStatus::Budget, exception: None, retired: self.retired, pc: self.pc };
        assert(run_ends(trace.last().0, trace.last().1, *self, *bus, budget, r));
        r
    }

    /// Load `code` at guest address zero and run it from there with a
    /// fresh per-run budget.  A refused input leaves the state unchanged.
    pub fn run_bounded_with_bus<B: GuestBus>(&mut self, code: &[u8], bus: &mut B, budget: u64) -> (r: ArchRunResult)
        requires
            mmu_wf(old(self).mmu),
            old(self).affinity < 64,
        ensures
            run_input_invalid(*old(self), code@.len(), budget) ==> r == (ArchRunResult {
                status: ArchRunStatus::Input,
                exception: None,
                retired: old(self).retired,
                pc: old(self).pc,
            }) && *final(self) == *old(self),
            r.status == ArchRunStatus::Input && *final(self) == *old(self) || {
                &&& !run_input_invalid(*old(self), code@.len(), budget)
                &&& run_reported(fresh_run(*old(self)), *final(self), budget, r)
                &&& exists|loaded: B|
                    #[trigger] old(bus).spec_loaded(loaded, code@, true) && ran(
                        fresh_run(*old(self)),
                        loaded,
                        *final(self),
                        *final(bus),
                        budget,
                        r,
                    )
            },
            r.retired == final(self).retired && r.pc == final(self).pc,
            mmu_wf(final(self).mmu),
            final(self).affinity == old(self).affinity,
    {
        if !self.state_valid() || code.len() < 4 || code.len() % 4 != 0 || budget == 0 {
            return ArchRunResult { status: ArchRunStatus::Input, exception: None, retired: self.retired, pc: self.pc };
        }
        let ghost b0 = *bus;
        if !bus.load_code(code) {
            return ArchRunResult { status: ArchRunStatus::Input, exception: None, retired: self.retired, pc: self.pc };
        }
        let ghost loaded = *bus;
        assert(b0.spec_loaded(loaded, code@, true));
        // The budget is per invocation, not a lifetime counter.
        self.retired = 0;
        self.pc = 0;
        self.pending_exception = None;
        self.exception_target = None;
        self.exception_from_lower_el = false;
        self.exception_vector = 0;
        self.waiting = false;
        let r = self.run_loaded_with_bus(bus, budget);
        assert(ran(fresh_run(*old(self)), loaded, *self, *bus, budget, r));
        r
    }

    /// Run `code` copied into `ram` (guest physical address zero).
    pub fn run_bounded(&mut self, code: &[u8], ram: &mut [u8], budget: u64) -> (r: ArchRunResult)
        requires
            mmu_wf(old(self).mmu),
            old(self).affinity < 64,
        ensures
            run_input_invalid(*old(self), code@.len(), budget) ==> r.status == ArchRunStatus::Input && *final(self)
                == *old(self),
            r.status != ArchRunStatus::Input ==> r.retired == final(self).retired && r.pc == final(self).pc
                && r.retired <= budget && (r.status == ArchRunStatus::Exception) == (r.exception is Some),
            r.status != ArchRunStatus::Input ==> code@.len() <= old(ram)@.len() && exists|b0: RamBus, b1: RamBus|
                #![trigger ran(fresh_run(*old(self)), b0, *final(self), b1, budget, r)]
                b0.base == 0 && b0.mem() == code@ + old(ram)@.subrange(code@.len() as int, old(ram)@.len() as int)
                    && ran(fresh_run(*old(self)), b0, *final(self), b1, budget, r),
            mmu_wf(final(self).mmu),
            final(self).affinity == old(self).affinity,
    {
        let mut bus = RamBus::new(ram);
        let ghost b = bus;
        let r = self.run_bounded_with_bus(code, &mut bus, budget);
        proof {
            if r.status != ArchRunStatus::Input {
                let loaded = choose|loaded: RamBus| #[trigger] b.spec_loaded(loaded, code@, true) && ran(
                    fresh_run(*old(self)),
                    loaded,
                    *self,
                    bus,
                    budget,
                    r,
                );
                assert(ran(fresh_run(*old(self)), loaded, *self, bus, budget, r));
            }
        }
        r
    }

    /// Enter an already loaded image at `entry` with X0 = `args` and the
    /// stack at `stack`, from a reset CPU with DAIF masked.
    pub fn run_boot_bounded(&mut self, ram: &mut [u8], ram_base: u64, entry: u64, args: u64, stack: u64, budget: u64) -> (r: ArchRunResult)
        requires
            mmu_wf(old(self).mmu),
            old(self).affinity < 64,
        ensures
            boot_invalid(old(ram)@.len(), ram_base, entry, args, stack, budget) ==> r == (ArchRunResult {
                status: ArchRunStatus::Input,
                exception: None,
                retired: 0,
                pc: old(self).pc,
            }) && *final(self) == *old(self),
            !boot_invalid(old(ram)@.len(), ram_base, entry, args, stack, budget) ==> r.status != ArchRunStatus::Input
                && r.retired == final(self).retired && r.pc == final(self).pc && r.retired <= budget,
            !boot_invalid(old(ram)@.len(), ram_base, entry, args, stack, budget) ==> exists|
                b: GuestCpuState,
                b0: RamBus,
                b1: RamBus,
            |
                #![trigger boot_entry(b, old(self).affinity, entry, args, stack), ran(b, b0, *final(self), b1, budget, r)]
                boot_entry(b, old(self).affinity, entry, args, stack) && b0.base == ram_base && b0.mem() == old(ram)@
                    && ran(b, b0, *final(self), b1, budget, r),
            mmu_wf(final(self).mmu),
            final(self).affinity == old(self).affinity,
    {
        let len = ram.len() as u64;
        let end = match ram_base.checked_add(len) {
            Some(e) => e,
            None => return ArchRunResult { status: ArchRunStatus::Input, exception: None, retired: 0, pc: self.pc },
        };
        if budget == 0 || ram_base & 0x3fff != 0 || entry & 3 != 0 || args & 7 != 0 || stack & 15 != 0 || entry
            < ram_base || entry > end || end - entry < 4 || args < ram_base || args >= end || stack <= ram_base
            || stack > end {
            return ArchRunResult { status: ArchRunStatus::Input, exception: None, retired: 0, pc: self.pc };
        }
        *self = Self::reset(self.affinity);
        self.pc = entry;
        self.x[0] = args;
        self.sp = stack;
        self.sp_el[1] = stack;
        self.pstate = self.pstate | PSTATE_D | PSTATE_A | PSTATE_I | PSTATE_F;
        let ghost b = *self;
        assert(boot_entry(b, old(self).affinity, entry, args, stack));
        let mut bus = RamBus { ram, base: ram_base };
        let ghost b0 = bus;
        let r = self.run_loaded_with_bus(&mut bus, budget);
        assert(ran(b, b0, *self, bus, budget, r));
        r
    }
}

/// The value MRS returns after MSR `value`: VBARs drop their low eleven
/// bits.
pub open spec fn stored_value(reg: SystemRegister, value: u64) -> u64 {
    if reg == SystemRegister::VbarEl1 || reg == SystemRegister::VbarEl2 || reg == SystemRegister::VbarEl3 {
        value & !0x7ffu64
    } else {
        value
    }
}

/// The registers that hold what was written (the timer controls recompute
/// ISTATUS and TVAL reads back a distance).
pub open spec fn is_storage_reg(reg: SystemRegister) -> bool {
    !is_read_only(reg) && reg != SystemRegister::CntpCtlEl0 && reg != SystemRegister::CntvCtlEl0 && reg
        != SystemRegister::CntpTvalEl0
}

/// A read gives back what an accepted write stored, at the same level.
pub proof fn lemma_sysreg_write_then_read(s: GuestCpuState, n: GuestCpuState, reg: SystemRegister, value: u64)
    requires
        is_storage_reg(reg),
        sysreg_written(s, n, reg, value, Ok(())),
    ensures
        spec_read_sysreg(n, reg) == Ok::<u64, SysRegFault>(stored_value(reg, value)),
{
}

/// A taken exception is undone by ERET: level, PSTATE and PC return to
/// the moment it was raised when the vector is entered from the same
/// level with the stack selection kept.
pub proof fn lemma_take_then_eret(s: GuestCpuState, t: GuestCpuState, n: GuestCpuState, e: GuestException)
    requires
        spec_state_valid(s),
        s.current_el != ExceptionLevel::El0,
        s.pending_exception == Some(e),
        s.exception_target == Some(s.current_el),
        e.kind != ExceptionKind::GuestHalt,
        e.pc == s.pc,
        took(s, t, e),
        eret_done(t, n, Ok(())),
    ensures
        n.current_el == s.current_el,
        n.pc == s.pc,
        n.pstate == s.pstate,
{
    let level = s.current_el;
    assert(t.sys == spec_bank_write(s.sys, level, s.pstate, e));
    assert(spec_bank(t.sys, level).0 == s.pstate as u64);
    assert(spec_bank(t.sys, level).1 == e.pc);
    assert((s.pstate as u64) as u32 == s.pstate);
    assert(spec_level_for_mode(s.pstate) == Some(level));
}

/// A read of the bytes a successful RAM write stored gives back the
/// written value's low bytes.
pub proof fn lemma_ram_write_then_read<'a>(b0: RamBus<'a>, b1: RamBus<'a>, address: u64, size: usize, value: u64, r: Result<
    (),
    ExceptionKind,
>)
    requires
        size == 1 || size == 2 || size == 4 || size == 8,
        b0.spec_wrote(b1, address, size, value, Access::Write, r),
        r is Ok,
    ensures
        b1.spec_read(address, size, Access::Read) == Ok::<u64, ExceptionKind>(
            crate::memory_service::low_bytes(value, size as nat),
        ),
{
    let i = address - b0.base;
    assert(b1.mem().subrange(i, i + size) =~= le_bytes(value, size as nat));
    crate::memory_service::lemma_le_bytes_value(value, size as nat);
}

} // verus!
