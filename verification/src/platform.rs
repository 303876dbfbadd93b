//! Software platform profile: the interrupt-override register shared with the
//! EFI boot path.
use vstd::prelude::*;

verus! {

pub const PROFILE_NONE: u32 = 0;
pub const PROFILE_IRQ_COMPAT_V1: u32 = 1;
pub const OVERRIDE_KEY: u32 = 0x6fa8;
pub const OVERRIDE_MASK: u64 = 0x00f00000;

/// Whether `(profile, value)` is an override the platform accepts.
pub open spec fn override_admissible(profile: u32, value: u64) -> bool {
    &&& profile <= PROFILE_IRQ_COMPAT_V1
    &&& !(profile == PROFILE_NONE && value != 0)
    &&& value & !OVERRIDE_MASK == 0
    &&& ((value >> 20u64) & 3 == 0 || (value >> 20u64) & 3 == 2)
    &&& ((value >> 22u64) & 3 == 0 || (value >> 22u64) & 3 == 2)
}

/// Boot options of the EFI entry (version 2).
#[derive(Clone, Copy, Debug, Default, PartialEq, Eq, Structural)]
pub struct BootOptionsV2 {
    pub abi_version: u32,
    pub struct_size: u32,
    pub platform_profile: u32,
    pub flags: u32,
    pub initial_override: u64,
    pub initial_pstate: u64,
    pub vbar: u64,
    pub irq_level: u64,
    pub fiq_level: u64,
    pub reserved: u64,
}

/// The architectural outcome every boot result starts with.
#[derive(Clone, Copy, Debug, Default, PartialEq, Eq, Structural)]
pub struct BaseBootResult {
    pub status: u32,
    pub fault_instruction: u32,
    pub retired: u64,
    pub pc: u64,
    pub x0: u64,
    pub x1: u64,
    pub x2: u64,
    pub x3: u64,
    pub compiled_blocks: u64,
}

/// The boot result of version 2: the base outcome, the platform override
/// and pending lines, and the exception state.
#[derive(Clone, Copy, Debug, Default, PartialEq, Eq, Structural)]
pub struct BootResultV2 {
    pub base: BaseBootResult,
    pub platform_override: u64,
    pub pending_lines: u32,
    pub platform_profile: u32,
    pub elr: u64,
    pub spsr: u64,
    pub exception_vector: u64,
    pub esr: u64,
    pub pstate: u64,
    pub sp: u64,
}

#[derive(Clone, Copy)]
pub struct PlatformState {
    pub profile: u32,
    pub override_value: u64,
    pub irq: bool,
    pub fiq: bool,
}

impl PlatformState {
    pub fn reset() -> (s: Self)
        ensures
            s.profile == 0,
            s.override_value == 0,
            !s.irq,
            !s.fiq,
    {
        Self { profile: 0, override_value: 0, irq: false, fiq: false }
    }

    /// Install an override; a refused request leaves the state unchanged.
    pub fn configure(&mut self, profile: u32, value: u64) -> (ok: bool)
        ensures
            ok == override_admissible(profile, value),
            ok ==> final(self).profile == profile && final(self).override_value == value,
            ok ==> final(self).irq == old(self).irq && final(self).fiq == old(self).fiq,
            !ok ==> *final(self) == *old(self),
    {
        if profile > PROFILE_IRQ_COMPAT_V1 || (profile == PROFILE_NONE && value != 0)
            || value & !OVERRIDE_MASK != 0
            || !((value >> 20u64) & 3 == 0 || (value >> 20u64) & 3 == 2)
            || !((value >> 22u64) & 3 == 0 || (value >> 22u64) & 3 == 2)
        {
            return false;
        }
        self.profile = profile;
        self.override_value = value;
        true
    }

    pub fn irq_enabled(&self) -> (b: bool)
        ensures
            b == (self.profile == 0 || (self.override_value >> 22u64) & 3 != 2),
    {
        self.profile == 0 || (self.override_value >> 22u64) & 3 != 2
    }

    pub fn fiq_enabled(&self) -> (b: bool)
        ensures
            b == (self.profile == 0 || (self.override_value >> 20u64) & 3 != 2),
    {
        self.profile == 0 || (self.override_value >> 20u64) & 3 != 2
    }
}

} // verus!
