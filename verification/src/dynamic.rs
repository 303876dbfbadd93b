//! The transactional control protocol's records and the acceptance of its
//! dynamic control profile, checked through the fixed profile it maps to.
use vstd::prelude::*;
use crate::stage1::{Controls, TTBR_ASID, spec_controls_valid, controls_valid};

verus! {

pub const DATA_VERSION: u32 = 3;
pub const PROFILE: u32 = 2;
pub const VERSION: u32 = 1;
pub const SNAPSHOT: u32 = 0;
pub const PREPARE: u32 = 1;
pub const COMMIT: u32 = 2;
pub const CANCEL: u32 = 3;
pub const WRITE: u32 = 1;
pub const ISB: u32 = 2;
pub const DSB: u32 = 3;
pub const TLBI: u32 = 4;
pub const SCTLR: u32 = 1;
pub const TTBR0: u32 = 2;
pub const TTBR1: u32 = 3;
pub const TCR: u32 = 4;
pub const MAIR: u32 = 5;
pub const OK: u32 = 0;
pub const UNSUPPORTED: u32 = 1;
pub const INVALID: u32 = 2;
pub const UNAVAILABLE: u32 = 3;
pub const EMPTY: u32 = 0;
pub const PROPOSED: u32 = 1;
pub const KNOWN: u32 = 2;
pub const UNCERTAIN: u32 = 3;
pub const CONTROL: u32 = 1;
pub const PENDING: u32 = 2;
pub const WRAP: u32 = 3;
pub const MAPPING: u32 = 4;
pub const BYTES: u32 = 5;
pub const STALE: u32 = 6;
pub const TOKEN: u32 = 7;
pub const MALFORMED: u32 = 8;
pub const OVERFLOW: u32 = 9;
pub const BACKING: u32 = 10;

/// The translation controls of one moment.
#[derive(Clone, Copy, Debug, PartialEq, Eq, Structural)]
pub struct Snapshot {
    pub sctlr: u64,
    pub ttbr0: u64,
    pub ttbr1: u64,
    pub tcr: u64,
    pub mair: u64,
    pub hcr: u64,
    pub scr: u64,
    pub reserved: u64,
}

#[derive(Clone, Copy, Debug, PartialEq, Eq, Structural)]
pub struct Request {
    pub abi_version: u32,
    pub struct_size: u32,
    pub phase: u32,
    pub operation: u32,
    pub selector: u32,
    pub current_el: u32,
    pub flags: u32,
    pub reserved: u32,
    pub pc: u64,
    pub operand: u64,
    pub revision: u64,
    pub epoch: u64,
    pub before: Snapshot,
    pub candidate: Snapshot,
}

#[derive(Clone, Copy, Debug, PartialEq, Eq, Structural)]
pub struct Reply {
    pub abi_version: u32,
    pub struct_size: u32,
    pub result: u32,
    pub detail: u32,
    pub phase: u32,
    pub operation: u32,
    pub selector: u32,
    pub state_tag: u32,
    pub token: u64,
    pub revision: u64,
    pub epoch: u64,
    pub invalidations: u64,
    pub architectural: Snapshot,
    pub effective: Snapshot,
}

pub open spec fn spec_snapshot_of(c: Controls) -> Snapshot {
    Snapshot { sctlr: c.sctlr, ttbr0: c.ttbr0, ttbr1: c.ttbr1, tcr: c.tcr, mair: c.mair, hcr: c.hcr, scr: c.scr, reserved: 0 }
}

pub open spec fn spec_controls_of(s: Snapshot, epoch: u64) -> Controls {
    Controls {
        abi_version: DATA_VERSION,
        struct_size: 80,
        profile: PROFILE,
        reserved: 0,
        sctlr: s.sctlr,
        ttbr0: s.ttbr0,
        ttbr1: s.ttbr1,
        tcr: s.tcr,
        mair: s.mair,
        hcr: s.hcr,
        scr: s.scr,
        epoch,
    }
}

impl Snapshot {
    pub fn from_controls(c: Controls) -> (s: Self)
        ensures
            s == spec_snapshot_of(c),
    {
        Snapshot { sctlr: c.sctlr, ttbr0: c.ttbr0, ttbr1: c.ttbr1, tcr: c.tcr, mair: c.mair, hcr: c.hcr, scr: c.scr, reserved: 0 }
    }

    /// The dynamic-profile control record of this snapshot at `epoch`.
    pub fn controls(self, epoch: u64) -> (c: Controls)
        ensures
            c == spec_controls_of(self, epoch),
    {
        Controls {
            abi_version: DATA_VERSION,
            struct_size: 80,
            profile: PROFILE,
            reserved: 0,
            sctlr: self.sctlr,
            ttbr0: self.ttbr0,
            ttbr1: self.ttbr1,
            tcr: self.tcr,
            mair: self.mair,
            hcr: self.hcr,
            scr: self.scr,
            epoch,
        }
    }
}

/// A snapshot's controls under the fixed profile, translation on, epoch 1.
pub open spec fn spec_mapped(s: Snapshot) -> Controls {
    let v = spec_controls_of(s, 1);
    Controls { abi_version: 2, profile: 1, sctlr: v.sctlr | 1, ..v }
}

pub fn mapped(s: Snapshot) -> (c: Controls)
    ensures
        c == spec_mapped(s),
{
    let mut v = s.controls(1);
    v.abi_version = 2;
    v.profile = 1;
    v.sctlr = v.sctlr | 1;
    v
}

/// A dynamic-profile record (version 3, profile 2, any non-zero epoch)
/// without A1 or an ASID, whose controls, with translation on, are the fixed
/// profile's.
pub open spec fn spec_controls_valid_dynamic(v: Controls) -> bool {
    v.abi_version == 3 && v.struct_size == 80 && v.profile == 2 && v.reserved == 0 && v.epoch != 0
        && v.tcr & 0x40_0000 == 0 && v.ttbr0 & TTBR_ASID == 0 && v.ttbr1 & TTBR_ASID == 0
        && spec_controls_valid(spec_mapped(spec_snapshot_of(v)))
}

pub fn controls_valid_dynamic(v: &Controls) -> (b: bool)
    ensures
        b == spec_controls_valid_dynamic(*v),
{
    v.abi_version == 3 && v.struct_size == 80 && v.profile == 2 && v.reserved == 0 && v.epoch != 0
        && v.tcr & 0x40_0000 == 0 && v.ttbr0 & TTBR_ASID == 0 && v.ttbr1 & TTBR_ASID == 0 && controls_valid(
        &mapped(Snapshot::from_controls(*v)),
    )
}

/// A snapshot survives the trip through its control record.
pub proof fn lemma_snapshot_round_trip(s: Snapshot, epoch: u64)
    requires
        s.reserved == 0,
    ensures
        spec_snapshot_of(spec_controls_of(s, epoch)) == s,
        spec_controls_of(spec_snapshot_of(spec_controls_of(s, epoch)), epoch) == spec_controls_of(s, epoch),
{
}

} // verus!
