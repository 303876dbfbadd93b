//! The versioned immutable stage-1 provider records and the acceptance of
//! its fixed Normal-NC control profile.
use vstd::prelude::*;

verus! {

pub const VERSION: u32 = 2;
pub const PROFILE_FIXED_NC: u32 = 1;
pub const PROFILE_FIXED_NC_UNALIGNED: u32 = 3;
pub const OK: u32 = 0;
pub const GUEST_FAULT: u32 = 1;
pub const UNSUPPORTED: u32 = 2;
pub const UNAVAILABLE: u32 = 3;
pub const INVALID_REQUEST: u32 = 4;
pub const PC_ALIGNMENT: u32 = 1;
pub const DATA_ALIGNMENT: u32 = 2;
pub const ADDRESS_SIZE: u32 = 3;
pub const TRANSLATION: u32 = 4;
pub const PERMISSION: u32 = 5;
pub const ACCESS_FLAG: u32 = 6;
pub const NO_LEVEL: u32 = 0xffff_ffff;
pub const INPUT: u32 = 1;
pub const WALK: u32 = 2;
pub const LEAF: u32 = 3;
pub const CACHED_LEAF: u32 = 4;
pub const HAS_DESCRIPTOR: u32 = 1;
pub const HAS_OUTPUT: u32 = 2;

/// TCR bits the profile may set: T0SZ, EPD0, TG0, T1SZ, A1, EPD1, TG1, IPS.
pub const ALLOWED_TCR: u64 = 0x7_c0ff_c0bf;

/// TTBR bits outside the root address that the profile admits: the 8-bit ASID.
pub const TTBR_ASID: u64 = 0x00ff_0000_0000_0000;

#[derive(Clone, Copy, Debug, PartialEq, Eq, Structural)]
pub struct Controls {
    pub abi_version: u32,
    pub struct_size: u32,
    pub profile: u32,
    pub reserved: u32,
    pub sctlr: u64,
    pub ttbr0: u64,
    pub ttbr1: u64,
    pub tcr: u64,
    pub mair: u64,
    pub hcr: u64,
    pub scr: u64,
    pub epoch: u64,
}

#[derive(Clone, Copy, Debug, PartialEq, Eq, Structural)]
pub struct Request {
    pub abi_version: u32,
    pub struct_size: u32,
    pub operation: u32,
    pub flags: u32,
    pub width: u32,
    pub count: u32,
    pub current_el: u32,
    pub reserved0: u32,
    pub pc: u64,
    pub address: u64,
    pub value0: u64,
    pub value1: u64,
    pub pstate: u64,
    pub controls: Controls,
    pub reserved1: u64,
}

#[derive(Clone, Copy, Debug, PartialEq, Eq)]
pub struct Reply {
    pub abi_version: u32,
    pub struct_size: u32,
    pub result: u32,
    pub fault: u32,
    pub level: u32,
    pub context: u32,
    pub fsc: u32,
    pub metadata_flags: u32,
    pub value0: u64,
    pub value1: u64,
    pub address: u64,
    pub esr: u64,
    pub epoch: u64,
    pub descriptor_pa: u64,
    pub output_pa: u64,
    pub reserved: [u64; 5],
}

#[derive(Clone, Copy, Debug, PartialEq, Eq, Structural)]
pub enum Error {
    InvalidRange,
    InvalidControls,
}

/// The accepted T0SZ/T1SZ range and root alignment of a TG0/TG1 pair:
/// 4 KiB (16 to 39) or 16 KiB (17 to 47).
pub open spec fn granule_profile(tg0: u64, tg1: u64) -> Option<(u64, u64, u64)> {
    if tg0 == 0 && tg1 == 2 {
        Some((16, 39, 0x1000))
    } else if tg0 == 2 && tg1 == 1 {
        Some((17, 47, 0x4000))
    } else {
        None
    }
}

/// The SCTLR value (outside C and I) that a fixed profile runs with: alignment
/// checking on for the aligned profile, off for the unaligned one.
pub open spec fn profile_sctlr(profile: u32) -> Option<u64> {
    if profile == PROFILE_FIXED_NC {
        Some(0x30d0_0803)
    } else if profile == PROFILE_FIXED_NC_UNALIGNED {
        Some(0x30d0_0801)
    } else {
        None
    }
}

/// The fixed Normal-NC profiles: version 2 header, epoch 1, MAIR 0x44, no
/// HCR/SCR, the profile's SCTLR outside C and I, only the allowed TCR bits
/// with IPS at most 5, one granule pair, T0SZ and T1SZ in its range, and both
/// roots aligned below 2^48, each with an optional 8-bit ASID above them.
pub open spec fn spec_controls_valid(c: Controls) -> bool {
    let tg0 = (c.tcr >> 14u64) & 3;
    let tg1 = (c.tcr >> 30u64) & 3;
    let t0 = c.tcr & 63;
    let t1 = (c.tcr >> 16u64) & 63;
    &&& c.abi_version == VERSION && c.struct_size == 80 && c.reserved == 0
    &&& profile_sctlr(c.profile) matches Some(sctlr) && c.sctlr & !0x18u64 == sctlr
    &&& c.epoch == 1 && c.mair == 0x44 && c.hcr == 0 && c.scr == 0
    &&& c.tcr & !ALLOWED_TCR == 0
    &&& (c.tcr >> 32u64) & 7 <= 5
    &&& granule_profile(tg0, tg1) matches Some((min, max, alignment)) && min <= t0 <= max && min <= t1 <= max
        && c.ttbr0 & !((0x0000_ffff_ffff_ffffu64 & !((alignment - 1) as u64)) | TTBR_ASID) == 0
        && c.ttbr1 & !((0x0000_ffff_ffff_ffffu64 & !((alignment - 1) as u64)) | TTBR_ASID) == 0
}

pub fn controls_valid(c: &Controls) -> (b: bool)
    ensures
        b == spec_controls_valid(*c),
{
    let sctlr: u64 = if c.profile == PROFILE_FIXED_NC {
        0x30d0_0803
    } else if c.profile == PROFILE_FIXED_NC_UNALIGNED {
        0x30d0_0801
    } else {
        return false;
    };
    if c.abi_version != VERSION || c.struct_size != 80 || c.reserved != 0 || c.epoch
        != 1 || c.mair != 0x44 || c.hcr != 0 || c.scr != 0 || c.sctlr & !0x18u64 != sctlr || c.tcr
        & !ALLOWED_TCR != 0 || (c.tcr >> 32u64) & 7 > 5 {
        return false;
    }
    let tg0 = (c.tcr >> 14u64) & 3;
    let tg1 = (c.tcr >> 30u64) & 3;
    let (min, max, alignment): (u64, u64, u64) = if tg0 == 0 && tg1 == 2 {
        (16, 39, 0x1000)
    } else if tg0 == 2 && tg1 == 1 {
        (17, 47, 0x4000)
    } else {
        return false;
    };
    let t0 = c.tcr & 63;
    let t1 = (c.tcr >> 16u64) & 63;
    if !(min <= t0 && t0 <= max) || !(min <= t1 && t1 <= max) {
        return false;
    }
    let mask = (0x0000_ffff_ffff_ffffu64 & !(alignment - 1)) | TTBR_ASID;
    c.ttbr0 & !mask == 0 && c.ttbr1 & !mask == 0
}

} // verus!
