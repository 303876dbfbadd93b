//! Fixed-storage AArch64 stage-1 translation: 4 KiB / 16 KiB granules,
//! TTBR0 / TTBR1 selection, dynamic starting level and a 16-entry TLB.
//!
//! `walk` states the table walk over the descriptors it reads; `translate`
//! is proved to return exactly what the walk (or a TLB hit) yields, and to
//! read guest memory only through the caller's reader.
use vstd::prelude::*;
use crate::exception_level::ExceptionLevel;

verus! {

pub const PAGE_SHIFT: u64 = 12;
pub const PAGE_SIZE: u64 = 4096;
pub const PAGE_SHIFT_16K: u64 = 14;
pub const PAGE_SIZE_16K: u64 = 16384;
pub const MAX_LEVEL: usize = 3;
pub const TLB_ENTRIES: usize = 16;
pub const PHYSICAL_ADDRESS_MASK: u64 = 0x0000_ffff_ffff_ffff;
pub const DESCRIPTOR_TYPE_MASK: u64 = 3;
pub const AF_BIT: u64 = 0x400;
pub const PXN_BIT: u64 = 53;
pub const UXN_BIT: u64 = 54;
/// Table-descriptor attributes: PXNTable (59), UXNTable (60), APTable (62:61).
pub const PXN_TABLE: u64 = 0x0800_0000_0000_0000;
pub const UXN_TABLE: u64 = 0x1000_0000_0000_0000;
pub const TABLE_ATTRIBUTES: u64 = 0x7800_0000_0000_0000;

#[derive(Clone, Copy, Debug, PartialEq, Eq, Structural)]
pub enum Granule {
    FourKiB,
    SixteenKiB,
}

pub open spec fn spec_page_shift(g: Granule) -> u64 {
    match g {
        Granule::FourKiB => 12,
        Granule::SixteenKiB => 14,
    }
}

pub open spec fn spec_index_bits(g: Granule) -> u64 {
    match g {
        Granule::FourKiB => 9,
        Granule::SixteenKiB => 11,
    }
}

pub open spec fn spec_valid_tsz(g: Granule, tsz: u8) -> bool {
    match g {
        // 25..48 VA bits.
        Granule::FourKiB => 16 <= tsz <= 39,
        // 17..47 VA bits.
        Granule::SixteenKiB => 17 <= tsz <= 47,
    }
}

/// The first table level for a region of `64 - tsz` VA bits.
pub open spec fn spec_start_level(g: Granule, tsz: u8) -> Option<usize> {
    if !spec_valid_tsz(g, tsz) {
        None
    } else {
        let covered = 64 - tsz - spec_page_shift(g);
        let levels = (covered + spec_index_bits(g) - 1) / (spec_index_bits(g) as int);
        Some((4 - levels) as usize)
    }
}

pub open spec fn spec_address_mask(g: Granule) -> u64 {
    match g {
        Granule::FourKiB => 0x0000_ffff_ffff_f000,
        Granule::SixteenKiB => 0x0000_ffff_ffff_c000,
    }
}

pub open spec fn spec_index_mask(g: Granule) -> u64 {
    match g {
        Granule::FourKiB => 0x1ff,
        Granule::SixteenKiB => 0x7ff,
    }
}

/// VA shift of the table index at `level`.
pub open spec fn level_shift(g: Granule, level: int) -> u64 {
    (spec_page_shift(g) + spec_index_bits(g) * (3 - level)) as u64
}

impl Granule {
    pub fn page_shift(self) -> (s: u64)
        ensures
            s == spec_page_shift(self),
    {
        match self {
            Granule::FourKiB => PAGE_SHIFT,
            Granule::SixteenKiB => PAGE_SHIFT_16K,
        }
    }

    pub fn index_bits(self) -> (b: u64)
        ensures
            b == spec_index_bits(self),
    {
        match self {
            Granule::FourKiB => 9,
            Granule::SixteenKiB => 11,
        }
    }

    /// The TCR.TG0 encoding of the granule.
    pub fn tcr_encoding(self) -> (e: u64)
        ensures
            e == (if self == Granule::FourKiB { 0u64 } else { 2u64 }),
    {
        match self {
            Granule::FourKiB => 0,
            Granule::SixteenKiB => 2,
        }
    }

    pub fn valid_tsz(self, tsz: u8) -> (b: bool)
        ensures
            b == spec_valid_tsz(self, tsz),
    {
        match self {
            Granule::FourKiB => 16 <= tsz && tsz <= 39,
            Granule::SixteenKiB => 17 <= tsz && tsz <= 47,
        }
    }

    pub fn start_level(self, tsz: u8) -> (l: Option<usize>)
        ensures
            l == spec_start_level(self, tsz),
            l matches Some(s) ==> s <= 3 && (self == Granule::FourKiB ==> s <= 2) && (self == Granule::SixteenKiB ==> s >= 1),
    {
        if !self.valid_tsz(tsz) {
            return None;
        }
        let va_bits = 64u64 - tsz as u64;
        let covered = va_bits - self.page_shift();
        let levels = ((covered + (self.index_bits() - 1)) / self.index_bits()) as usize;
        if levels == 0 || levels > MAX_LEVEL + 1 {
            return None;
        }
        Some(MAX_LEVEL + 1 - levels)
    }

    pub fn root_alignment(self) -> (a: u64)
        ensures
            a == (if self == Granule::FourKiB { 0x1000u64 } else { 0x4000u64 }),
    {
        match self {
            Granule::FourKiB => PAGE_SIZE,
            Granule::SixteenKiB => PAGE_SIZE_16K,
        }
    }

    pub fn address_mask(self) -> (m: u64)
        ensures
            m == spec_address_mask(self),
    {
        match self {
            Granule::FourKiB => 0x0000_ffff_ffff_f000,
            Granule::SixteenKiB => 0x0000_ffff_ffff_c000,
        }
    }
}

#[derive(Clone, Copy, PartialEq, Eq, Debug, Structural)]
pub enum Access {
    Read,
    Write,
    Execute,
}

#[derive(Clone, Copy, Debug, PartialEq, Eq, Structural)]
pub enum Fault {
    AddressSize,
    Translation,
    Permission,
    Alignment,
    AccessFlag,
}

#[derive(Clone, Copy, Debug, PartialEq, Eq, Structural)]
pub struct Translation {
    pub pa: u64,
    pub writable: bool,
    pub executable: bool,
    pub page_shift: u8,
}

#[derive(Clone, Copy, Debug, PartialEq, Eq, Structural)]
pub struct TlbEntry {
    pub valid: bool,
    /// Cached for the EL1&0 regime (EL0 and EL1 share entries; EL2 and
    /// EL3 share the others).
    pub el10: bool,
    pub asid: u16,
    pub va_tag: u64,
    pub pa_base: u64,
    pub page_shift: u8,
    pub writable: bool,
    pub user_accessible: bool,
    pub executable_el0: bool,
    pub executable_privileged: bool,
}

pub open spec fn spec_empty_entry() -> TlbEntry {
    TlbEntry {
        valid: false,
        el10: false,
        asid: 0,
        va_tag: 0,
        pa_base: 0,
        page_shift: 12,
        writable: false,
        user_accessible: false,
        executable_el0: false,
        executable_privileged: false,
    }
}

pub fn empty_entry() -> (e: TlbEntry)
    ensures
        e == spec_empty_entry(),
{
    TlbEntry {
        valid: false,
        el10: false,
        asid: 0,
        va_tag: 0,
        pa_base: 0,
        page_shift: 12,
        writable: false,
        user_accessible: false,
        executable_el0: false,
        executable_privileged: false,
    }
}

#[derive(Clone, Copy)]
pub struct VfMmu {
    pub enabled: bool,
    pub ttbr0: u64,
    pub ttbr1: u64,
    pub tcr_t0sz: u8,
    pub tcr_t1sz: u8,
    pub asid: u16,
    pub granule: Granule,
    pub tlb: [TlbEntry; 16],
    pub next: usize,
}

// ---------------------------------------------------------------------------
// Semantics.
// ---------------------------------------------------------------------------

/// Result of the permission check on a block or page descriptor whose bits
/// 62:59 hold the table attributes gathered on the walk (see `walk`):
/// `(writable, user_accessible, executable_el0, executable_privileged)`,
/// where `writable` is privileged writability, EL0 may write only what it
/// may also read, and privileged code never executes what EL0 may write.
pub open spec fn spec_permissions(descriptor: u64, level: int, el: ExceptionLevel, access: Access) -> Result<(bool, bool, bool, bool), Fault> {
    if !el10_regime(el) {
        single_regime_permissions(descriptor, level, access)
    } else {
        el10_permissions(descriptor, level, el, access)
    }
}

/// Permissions in the single-privilege EL2/EL3 regime: AP[2] (bit 7) makes
/// the page read-only, XN (bit 54) forbids execution; AP[1] and the table
/// attributes do not apply.
pub open spec fn single_regime_permissions(descriptor: u64, level: int, access: Access) -> Result<(bool, bool, bool, bool), Fault> {
    let writable = descriptor & 0x80 == 0;
    let executable = descriptor & 0x40_0000_0000_0000 == 0;
    if descriptor & AF_BIT == 0 {
        Err(Fault::AccessFlag)
    } else if access == Access::Write && !writable {
        Err(Fault::Permission)
    } else if access == Access::Execute && !executable {
        Err(Fault::Permission)
    } else if level == 0 && descriptor & 3 == 1 {
        Err(Fault::Translation)
    } else {
        Ok((writable, false, false, executable))
    }
}

/// Permissions in the EL1&0 regime.
pub open spec fn el10_permissions(descriptor: u64, level: int, el: ExceptionLevel, access: Access) -> Result<(bool, bool, bool, bool), Fault> {
    let ap = (descriptor >> 6u64) & 3;
    let ap_table = (descriptor >> 61u64) & 3;
    let writable = (ap == 0 || ap == 1) && ap_table & 2 == 0;
    let user = (ap == 1 || ap == 3) && ap_table & 1 == 0;
    let x0 = descriptor & 0x40_0000_0000_0000 == 0 && descriptor & UXN_TABLE == 0;
    let xp = descriptor & 0x20_0000_0000_0000 == 0 && descriptor & PXN_TABLE == 0 && !(user && writable);
    if descriptor & AF_BIT == 0 {
        Err(Fault::AccessFlag)
    } else if access == Access::Read && el == ExceptionLevel::El0 && !user {
        Err(Fault::Permission)
    } else if access == Access::Write && !(writable && (el != ExceptionLevel::El0 || user)) {
        Err(Fault::Permission)
    } else if access == Access::Execute && !(if el == ExceptionLevel::El0 { x0 } else { xp }) {
        Err(Fault::Permission)
    } else if level == 0 && descriptor & 3 == 1 {
        Err(Fault::Translation)
    } else {
        Ok((writable, user, x0, xp))
    }
}

/// A walk's terminal descriptor with the table attributes `acc` of the
/// tables above it in bits 62:59.
pub open spec fn with_table_attributes(d: u64, acc: u64) -> u64 {
    (d & !TABLE_ATTRIBUTES) | acc
}

/// The root table and size field selected by `va`, if the VA is canonical
/// for TTBR0 or (when enabled) TTBR1.
pub open spec fn spec_select_root(m: VfMmu, va: u64) -> Option<(u64, u8)> {
    if spec_start_level(m.granule, m.tcr_t0sz) is Some && va >> (64 - m.tcr_t0sz) as u64 == 0 {
        Some((m.ttbr0, m.tcr_t0sz))
    } else if m.tcr_t1sz != 0 && spec_start_level(m.granule, m.tcr_t1sz) is Some && va >> (64
        - m.tcr_t1sz) as u64 == ((1u64 << m.tcr_t1sz) - 1) as u64 {
        Some((m.ttbr1, m.tcr_t1sz))
    } else {
        None
    }
}

/// Whether `el` translates in the EL1&0 regime.
pub open spec fn el10_regime(el: ExceptionLevel) -> bool {
    el == ExceptionLevel::El0 || el == ExceptionLevel::El1
}

/// Index of the first valid TLB entry of the current ASID and regime that
/// covers `va`, searching from `i`.
pub open spec fn tlb_match(tlb: Seq<TlbEntry>, asid: u16, va: u64, el10: bool, i: int) -> Option<int>
    decreases tlb.len() - i,
{
    if i < 0 || i >= tlb.len() {
        None
    } else {
        let e = tlb[i];
        if e.valid && e.el10 == el10 && e.asid == asid && e.page_shift < 64 && va >> (e.page_shift as u64) == e.va_tag {
            Some(i)
        } else {
            tlb_match(tlb, asid, va, el10, i + 1)
        }
    }
}

/// What a TLB hit on `e` yields.
pub open spec fn tlb_result(e: TlbEntry, va: u64, access: Access, el: ExceptionLevel) -> Result<Translation, Fault> {
    let user = el == ExceptionLevel::El0;
    let allowed = match access {
        Access::Read => !user || e.user_accessible,
        Access::Write => e.writable && (!user || e.user_accessible),
        Access::Execute => if user { e.executable_el0 } else { e.executable_privileged },
    };
    if !allowed {
        Err(Fault::Permission)
    } else {
        Ok(Translation {
            pa: e.pa_base | (va & ((1u64 << (e.page_shift as u64)) - 1) as u64),
            writable: e.writable && (!user || e.user_accessible),
            executable: if user { e.executable_el0 } else { e.executable_privileged },
            page_shift: e.page_shift,
        })
    }
}

/// Outcome of a table walk: a block/page descriptor and its level, or a fault.
pub open spec fn entry_address(g: Granule, va: u64, table: u64, level: int) -> int {
    table + ((va >> level_shift(g, level)) & spec_index_mask(g)) * 8
}

/// The walk from `table` at `level`, given the descriptors it reads (`descs`,
/// one per level visited), with `acc` the table attributes (APTable,
/// UXNTable, PXNTable: bits 62:59) of the tables above.  Returns the
/// terminal descriptor, its bits 62:59 replaced by the table attributes of
/// every table on the way, and its level, and the addresses it read.
pub open spec fn walk(g: Granule, va: u64, table: u64, level: int, acc: u64, descs: Seq<Option<u64>>) -> (Result<(u64, int), Fault>, Seq<u64>)
    decreases 3 - level,
{
    let addr = entry_address(g, va, table, level);
    if level < 0 || level > 3 || addr > u64::MAX {
        (Err(Fault::Translation), seq![])
    } else if descs.len() == 0 {
        (Err(Fault::Translation), seq![addr as u64])
    } else {
        match descs[0] {
            None => (Err(Fault::Translation), seq![addr as u64]),
            Some(d) => {
                let t = d & 3;
                if d & 1 == 0 {
                    (Err(Fault::Translation), seq![addr as u64])
                } else if level < 3 && t == 1 {
                    (Ok((with_table_attributes(d, acc), level)), seq![addr as u64])
                } else if level < 3 && t != 3 {
                    (Err(Fault::Translation), seq![addr as u64])
                } else if level == 3 {
                    if t != 3 {
                        (Err(Fault::Translation), seq![addr as u64])
                    } else {
                        (Ok((with_table_attributes(d, acc), 3)), seq![addr as u64])
                    }
                } else {
                    let (r, rest) = walk(g, va, d & spec_address_mask(g), level + 1, acc | (d & TABLE_ATTRIBUTES), descs.drop_first());
                    (r, seq![addr as u64] + rest)
                }
            },
        }
    }
}

/// The translation a terminal descriptor yields for `va`.
pub open spec fn leaf_translation(g: Granule, va: u64, d: u64, level: int, el: ExceptionLevel, access: Access) -> Result<Translation, Fault> {
    match spec_permissions(d, level, el, access) {
        Err(f) => Err(f),
        Ok((writable, user, x0, xp)) => {
            let shift = level_shift(g, level);
            let low = ((1u64 << shift) - 1) as u64;
            let base = if level < 3 { d & spec_address_mask(g) & !low } else { d & spec_address_mask(g) };
            Ok(Translation {
                pa: base | (va & low),
                writable: writable && (el != ExceptionLevel::El0 || user),
                executable: if el == ExceptionLevel::El0 { x0 } else { xp },
                page_shift: shift as u8,
            })
        },
    }
}

/// The TLB entry a successful walk caches.
pub open spec fn walked_entry(m: VfMmu, g: Granule, va: u64, d: u64, level: int, el: ExceptionLevel, access: Access) -> TlbEntry {
    let shift = level_shift(g, level);
    let low = ((1u64 << shift) - 1) as u64;
    let (writable, user, x0, xp) = spec_permissions(d, level, el, access)->Ok_0;
    TlbEntry {
        valid: true,
        el10: el10_regime(el),
        asid: m.asid,
        va_tag: va >> shift,
        pa_base: if level < 3 { d & spec_address_mask(g) & !low } else { d & spec_address_mask(g) },
        page_shift: shift as u8,
        writable,
        user_accessible: user,
        executable_el0: x0,
        executable_privileged: xp,
    }
}

/// The reader returned `descs[i]` when asked for `addrs[i]`.
pub open spec fn reads_match<F: Fn(u64) -> Option<u64>>(read64: F, addrs: Seq<u64>, descs: Seq<Option<u64>>) -> bool {
    &&& addrs.len() == descs.len()
    &&& forall|i: int| 0 <= i < addrs.len() ==> call_ensures(read64, (#[trigger] addrs[i],), descs[i])
}

/// The walk for `va` under configuration `m` read `descs` and produced `r`;
/// `m2` is the MMU afterwards: a successful walk fills the next TLB slot.
pub open spec fn walk_produces<F: Fn(u64) -> Option<u64>>(m: VfMmu, m2: VfMmu, va: u64, access: Access, el: ExceptionLevel, read64: F, descs: Seq<Option<u64>>, r: Result<Translation, Fault>) -> bool {
    let (root, tsz) = spec_select_root(m, va)->Some_0;
    let start = spec_start_level(m.granule, tsz)->Some_0 as int;
    let (w, addrs) = walk(m.granule, va, root & spec_address_mask(m.granule), start, 0, descs);
    &&& reads_match(read64, addrs, descs)
    &&& r == match w {
        Err(f) => Err(f),
        Ok((d, level)) => leaf_translation(m.granule, va, d, level, el, access),
    }
    &&& match (w, r) {
        (Ok((d, level)), Ok(_)) => {
            &&& m2.tlb@ == m.tlb@.update(m.next as int, walked_entry(m, m.granule, va, d, level, el, access))
            &&& m2.next == (m.next + 1) % 16
        },
        _ => m2 == m,
    }
}

/// The walk from `table` at `level` when reading the descriptor at an
/// address gives `read(address)` (`None` when the read fails).
pub open spec fn walk_with(g: Granule, va: u64, table: u64, level: int, acc: u64, read: spec_fn(u64) -> Option<u64>) -> Result<(u64, int), Fault>
    decreases 3 - level,
{
    let addr = entry_address(g, va, table, level);
    if level < 0 || level > 3 || addr > u64::MAX {
        Err(Fault::Translation)
    } else {
        match read(addr as u64) {
            None => Err(Fault::Translation),
            Some(d) => {
                let t = d & 3;
                if d & 1 == 0 {
                    Err(Fault::Translation)
                } else if level < 3 && t == 1 {
                    Ok((with_table_attributes(d, acc), level))
                } else if level < 3 && t != 3 {
                    Err(Fault::Translation)
                } else if level == 3 {
                    if t != 3 { Err(Fault::Translation) } else { Ok((with_table_attributes(d, acc), 3)) }
                } else {
                    walk_with(g, va, d & spec_address_mask(g), level + 1, acc | (d & TABLE_ATTRIBUTES), read)
                }
            },
        }
    }
}

/// The walk for `va` under `m` when descriptor reads give `read`.
pub open spec fn table_walk_with(m: VfMmu, va: u64, read: spec_fn(u64) -> Option<u64>) -> Result<(u64, int), Fault> {
    let (root, tsz) = spec_select_root(m, va)->Some_0;
    let start = spec_start_level(m.granule, tsz)->Some_0 as int;
    walk_with(m.granule, va, root & spec_address_mask(m.granule), start, 0, read)
}

/// What `translate` returns for `va` when descriptor reads give `read`:
/// an execute alignment fault, identity with translation off, an address
/// size fault without a root, the TLB's answer on a hit, else the walk's
/// terminal descriptor checked for `access` at `el`.
pub open spec fn translate_with(m: VfMmu, va: u64, access: Access, el: ExceptionLevel, read: spec_fn(u64) -> Option<u64>) -> Result<Translation, Fault> {
    if access == Access::Execute && va & 3 != 0 {
        Err(Fault::Alignment)
    } else if !m.enabled {
        Ok(Translation { pa: va, writable: true, executable: true, page_shift: spec_page_shift(m.granule) as u8 })
    } else if spec_select_root(m, va) is None {
        Err(Fault::AddressSize)
    } else if tlb_match(m.tlb@, m.asid, va, el10_regime(el), 0) is Some {
        tlb_result(m.tlb@[tlb_match(m.tlb@, m.asid, va, el10_regime(el), 0)->Some_0], va, access, el)
    } else {
        match table_walk_with(m, va, read) {
            Err(f) => Err(f),
            Ok((d, level)) => leaf_translation(m.granule, va, d, level, el, access),
        }
    }
}

/// The MMU after that translation: a successful walk fills the next TLB
/// slot; anything else leaves it as it was.
pub open spec fn translated_mmu(m: VfMmu, m2: VfMmu, va: u64, access: Access, el: ExceptionLevel, read: spec_fn(u64) -> Option<u64>) -> bool {
    let walked = m.enabled && !(access == Access::Execute && va & 3 != 0) && spec_select_root(m, va) is Some
        && tlb_match(m.tlb@, m.asid, va, el10_regime(el), 0) is None;
    if walked && table_walk_with(m, va, read) is Ok && translate_with(m, va, access, el, read) is Ok {
        let (d, level) = table_walk_with(m, va, read)->Ok_0;
        &&& m2 == VfMmu { tlb: m2.tlb, next: ((m.next + 1) % 16) as usize, ..m }
        &&& m2.tlb@ == m.tlb@.update(m.next as int, walked_entry(m, m.granule, va, d, level, el, access))
    } else {
        m2 == m
    }
}

/// A walk whose reads came from a closure that answers `read(address)`
/// gives what `walk_with` gives.
pub proof fn lemma_walk_with<F: Fn(u64) -> Option<u64>>(g: Granule, va: u64, table: u64, level: int, acc: u64, read64: F, descs: Seq<Option<u64>>, read: spec_fn(u64) -> Option<u64>)
    requires
        reads_match(read64, walk(g, va, table, level, acc, descs).1, descs),
        forall|pa: u64, v: Option<u64>| call_ensures(read64, (pa,), v) ==> v == read(pa),
    ensures
        walk(g, va, table, level, acc, descs).0 == walk_with(g, va, table, level, acc, read),
    decreases 3 - level,
{
    let addr = entry_address(g, va, table, level);
    if level < 0 || level > 3 || addr > u64::MAX {
    } else if descs.len() == 0 {
    } else {
        let addrs = walk(g, va, table, level, acc, descs).1;
        assert(addrs[0] == addr as u64);
        assert(call_ensures(read64, (addrs[0],), descs[0]));
        match descs[0] {
            None => {},
            Some(d) => {
                let t = d & 3;
                if d & 1 == 0 {
                } else if level < 3 && t == 1 {
                } else if level < 3 && t != 3 {
                } else if level == 3 {
                } else {
                    let rest = descs.drop_first();
                    let (r, raddrs) = walk(g, va, d & spec_address_mask(g), level + 1, acc | (d & TABLE_ATTRIBUTES), rest);
                    assert(addrs == seq![addr as u64] + raddrs);
                    assert forall|i: int| 0 <= i < raddrs.len() implies call_ensures(read64, (#[trigger] raddrs[i],), rest[i]) by {
                        assert(addrs[i + 1] == raddrs[i]);
                        assert(call_ensures(read64, (addrs[i + 1],), descs[i + 1]));
                    }
                    lemma_walk_with(g, va, d & spec_address_mask(g), level + 1, acc | (d & TABLE_ATTRIBUTES), read64, rest, read);
                }
            },
        }
    }
}

/// A translation whose descriptor reads came from a closure that answers
/// `read(address)` gives what `translate_with` and `translated_mmu` say.
pub proof fn lemma_translate_with<F: Fn(u64) -> Option<u64>>(m: VfMmu, m2: VfMmu, va: u64, access: Access, el: ExceptionLevel, read64: F, descs: Seq<Option<u64>>, r: Result<Translation, Fault>, read: spec_fn(u64) -> Option<u64>)
    requires
        m.enabled && !(access == Access::Execute && va & 3 != 0) && spec_select_root(m, va) is Some
            && tlb_match(m.tlb@, m.asid, va, el10_regime(el), 0) is None,
        walk_produces(m, m2, va, access, el, read64, descs, r),
        same_config(m2, m),
        forall|pa: u64, v: Option<u64>| call_ensures(read64, (pa,), v) ==> v == read(pa),
    ensures
        r == translate_with(m, va, access, el, read),
        translated_mmu(m, m2, va, access, el, read),
{
    let (root, tsz) = spec_select_root(m, va)->Some_0;
    let start = spec_start_level(m.granule, tsz)->Some_0 as int;
    lemma_walk_with(m.granule, va, root & spec_address_mask(m.granule), start, 0, read64, descs, read);
}

pub open spec fn same_config(a: VfMmu, b: VfMmu) -> bool {
    &&& a.enabled == b.enabled
    &&& a.ttbr0 == b.ttbr0
    &&& a.ttbr1 == b.ttbr1
    &&& a.tcr_t0sz == b.tcr_t0sz
    &&& a.tcr_t1sz == b.tcr_t1sz
    &&& a.asid == b.asid
    &&& a.granule == b.granule
}

pub open spec fn mmu_wf(m: VfMmu) -> bool {
    m.next < 16
}

/// The granule a TCR.TG1 field selects, decoded on its own: 1 is 16 KiB,
/// 3 is 64 KiB (which this walker does not support), and 2 and the reserved
/// 0 are 4 KiB.
pub open spec fn tg1_granule(tg1: u64) -> Option<Granule> {
    if tg1 == 1 {
        Some(Granule::SixteenKiB)
    } else if tg1 == 3 {
        None
    } else {
        Some(Granule::FourKiB)
    }
}

/// Whether `configure_tcr(ttbr0, ttbr1, tcr, _)` accepts the configuration:
/// none of the optional HA, HD, HPD0, HPD1 fields (bits 42:39) is set, TG0
/// selects 4 or 16 KiB, a configured TTBR1 region (T1SZ non-zero) uses
/// the same granule through its own TG1 encoding, T0SZ (and T1SZ when TTBR1
/// walks are enabled) give a start level, and the roots are aligned.
pub open spec fn tcr_admissible(ttbr0: u64, ttbr1: u64, tcr: u64) -> bool {
    let t0sz = (tcr & 0x3f) as u8;
    let t1sz = ((tcr >> 16u64) & 0x3f) as u8;
    let tg0 = (tcr >> 14u64) & 3;
    let tg1 = (tcr >> 30u64) & 3;
    let g = if tg0 == 0 { Granule::FourKiB } else { Granule::SixteenKiB };
    let align = if tg0 == 0 { 0x1000u64 } else { 0x4000u64 };
    let ttbr1_enabled = t1sz != 0 && tcr & 0x80_0000 == 0;
    &&& tcr & 0x780_0000_0000 == 0
    &&& tg0 == 0 || tg0 == 2
    &&& t1sz != 0 ==> tg1_granule(tg1) == Some(g)
    &&& spec_start_level(g, t0sz) is Some
    &&& ttbr0 % align == 0
    &&& ttbr1_enabled ==> spec_start_level(g, t1sz) is Some && ttbr1 % align == 0
}

/// The MMU state `configure_tcr(ttbr0, ttbr1, tcr, asid)` installs: enabled,
/// the two roots, T0SZ, T1SZ (zero when TTBR1 walks are disabled), the ASID,
/// the TG0 granule and an empty TLB.
pub open spec fn configured_as(m: VfMmu, ttbr0: u64, ttbr1: u64, tcr: u64, asid: u16) -> bool {
    let t1sz = ((tcr >> 16u64) & 0x3f) as u8;
    &&& m.enabled
    &&& m.ttbr0 == ttbr0
    &&& m.ttbr1 == ttbr1
    &&& m.tcr_t0sz == (tcr & 0x3f) as u8
    &&& m.tcr_t1sz == (if t1sz != 0 && tcr & 0x80_0000 == 0 { t1sz } else { 0 })
    &&& m.asid == asid
    &&& m.granule == (if (tcr >> 14u64) & 3 == 0 { Granule::FourKiB } else { Granule::SixteenKiB })
    &&& tlb_cleared(m)
}

pub open spec fn tlb_cleared(m: VfMmu) -> bool {
    &&& m.next == 0
    &&& m.tlb@ == Seq::new(16, |i: int| spec_empty_entry())
}

/// A set bit below 64 is a positive word.
pub proof fn lemma_shl_positive(n: u64)
    requires
        n < 64,
    ensures
        1u64 << n >= 1,
{
    assert(n < 64 ==> 1u64 << n >= 1) by {
        crate::bits::lemma_u64_bits(n);
    }
}

impl VfMmu {
    pub fn disabled() -> (m: Self)
        ensures
            !m.enabled,
            m.ttbr0 == 0 && m.ttbr1 == 0 && m.tcr_t0sz == 16 && m.tcr_t1sz == 0 && m.asid == 0,
            m.granule == Granule::FourKiB,
            tlb_cleared(m),
    {
        let m = VfMmu {
            enabled: false,
            ttbr0: 0,
            ttbr1: 0,
            tcr_t0sz: 16,
            tcr_t1sz: 0,
            asid: 0,
            granule: Granule::FourKiB,
            tlb: [empty_entry(), empty_entry(), empty_entry(), empty_entry(), empty_entry(), empty_entry(), empty_entry(),
                empty_entry(), empty_entry(), empty_entry(), empty_entry(), empty_entry(), empty_entry(), empty_entry(),
                empty_entry(), empty_entry()],
            next: 0,
        };
        assert(m.tlb@ =~= Seq::new(16, |i: int| spec_empty_entry()));
        m
    }

    /// Configure the compatibility TTBR0 / 4 KiB regime.
    pub fn configure(&mut self, ttbr0: u64, t0sz: u8, asid: u16) -> (ok: bool)
        ensures
            ok == tcr_admissible(ttbr0, 0, t0sz as u64),
            ok ==> configured_as(*final(self), ttbr0, 0, t0sz as u64, asid),
            ok ==> final(self).tcr_t0sz == t0sz & 0x3f && final(self).tcr_t1sz == 0 && final(self).granule == Granule::FourKiB,
            !ok ==> *final(self) == *old(self),
    {
        let ok = self.configure_tcr(ttbr0, 0, t0sz as u64, asid);
        proof {
            let t = t0sz as u64;
            assert(t & 0x3f == (t0sz & 0x3f) as u64 && (t >> 16u64) & 0x3f == 0 && (t >> 14u64) & 3 == 0) by (bit_vector)
                requires
                    t == t0sz as u64,
            ;
        }
        ok
    }

    /// Set up stage-1 address mapping by the TCR fields (TG0, T0SZ, TG1, T1SZ, EPD1).
    /// A refused configuration leaves the MMU, including its TLB, unchanged.
    pub fn configure_tcr(&mut self, ttbr0: u64, ttbr1: u64, tcr: u64, asid: u16) -> (ok: bool)
        ensures
            ok == tcr_admissible(ttbr0, ttbr1, tcr),
            ok ==> configured_as(*final(self), ttbr0, ttbr1, tcr, asid),
            !ok ==> *final(self) == *old(self),
    {
        let t0sz = (tcr & 0x3f) as u8;
        let t1sz = ((tcr >> 16u64) & 0x3f) as u8;
        let tg0 = (tcr >> 14u64) & 3;
        let tg1 = (tcr >> 30u64) & 3;
        proof {
            assert(tcr & 0x3f <= 0x3f) by {
                crate::bits::lemma_u64_bits(tcr);
            }
            assert((tcr >> 16u64) & 0x3f <= 0x3f) by {
                crate::bits::lemma_u64_bits(tcr);
            }
        }
        // The optional HA, HD, HPD0 and HPD1 fields are not implemented.
        if tcr & 0x780_0000_0000 != 0 {
            return false;
        }
        let granule = if tg0 == 0 {
            Granule::FourKiB
        } else if tg0 == 2 {
            Granule::SixteenKiB
        } else {
            return false;
        };
        // TG1 uses its own encoding: 1 is 16 KiB, 3 is 64 KiB, 2 and the
        // reserved 0 are 4 KiB; a configured TTBR1 region must match TG0.
        if t1sz != 0 {
            let tg1_ok = if tg1 == 1 {
                tg0 == 2
            } else if tg1 == 3 {
                false
            } else {
                tg0 == 0
            };
            if !tg1_ok {
                return false;
            }
        }
        if granule.start_level(t0sz).is_none() || ttbr0 % granule.root_alignment() != 0 {
            return false;
        }
        let ttbr1_enabled = t1sz != 0 && tcr & 0x80_0000 == 0;
        if ttbr1_enabled && (granule.start_level(t1sz).is_none() || ttbr1 % granule.root_alignment() != 0) {
            return false;
        }
        self.enabled = true;
        self.ttbr0 = ttbr0;
        self.ttbr1 = ttbr1;
        self.tcr_t0sz = t0sz;
        self.tcr_t1sz = if ttbr1_enabled { t1sz } else { 0 };
        self.asid = asid;
        self.granule = granule;
        self.invalidate();
        true
    }

    pub fn disable(&mut self)
        ensures
            !final(self).enabled,
            final(self).ttbr0 == old(self).ttbr0 && final(self).ttbr1 == old(self).ttbr1,
            final(self).tcr_t0sz == old(self).tcr_t0sz && final(self).tcr_t1sz == old(self).tcr_t1sz,
            final(self).asid == old(self).asid && final(self).granule == old(self).granule,
            tlb_cleared(*final(self)),
    {
        self.enabled = false;
        self.invalidate();
    }

    /// Drop every cached translation.
    pub fn invalidate(&mut self)
        ensures
            same_config(*final(self), *old(self)),
            tlb_cleared(*final(self)),
    {
        self.tlb = [empty_entry(), empty_entry(), empty_entry(), empty_entry(), empty_entry(), empty_entry(),
            empty_entry(), empty_entry(), empty_entry(), empty_entry(), empty_entry(), empty_entry(), empty_entry(),
            empty_entry(), empty_entry(), empty_entry()];
        self.next = 0;
        assert(self.tlb@ =~= Seq::new(16, |i: int| spec_empty_entry()));
    }

    pub fn canonical_va(&self, va: u64) -> (b: bool)
        ensures
            b == (spec_select_root(*self, va) is Some),
    {
        self.select_root(va).is_some()
    }

    pub fn select_root(&self, va: u64) -> (r: Option<(u64, u8)>)
        ensures
            r == spec_select_root(*self, va),
            r matches Some((_, tsz)) ==> spec_start_level(self.granule, tsz) is Some,
    {
        if self.granule.start_level(self.tcr_t0sz).is_some() && va >> (64 - self.tcr_t0sz as u64) == 0 {
            return Some((self.ttbr0, self.tcr_t0sz));
        }
        if self.tcr_t1sz != 0 && self.granule.start_level(self.tcr_t1sz).is_some() {
            proof {
                lemma_shl_positive(self.tcr_t1sz as u64);
            }
            if va >> (64 - self.tcr_t1sz as u64) == (1u64 << self.tcr_t1sz as u64) - 1 {
                return Some((self.ttbr1, self.tcr_t1sz));
            }
        }
        None
    }

    /// The first matching TLB entry, checked against `access` at `current_el`.
    pub fn tlb_lookup(&self, va: u64, access: Access, current_el: ExceptionLevel) -> (r: Result<Option<Translation>, Fault>)
        ensures
            r == match tlb_match(self.tlb@, self.asid, va, el10_regime(current_el), 0) {
                None => Ok(None),
                Some(i) => match tlb_result(self.tlb@[i], va, access, current_el) {
                    Ok(t) => Ok(Some(t)),
                    Err(f) => Err(f),
                },
            },
    {
        let mut i: usize = 0;
        while i < TLB_ENTRIES
            invariant
                i <= 16,
                tlb_match(self.tlb@, self.asid, va, el10_regime(current_el), 0) == tlb_match(self.tlb@, self.asid, va, el10_regime(current_el), i as int),
            decreases 16 - i,
        {
            let entry = self.tlb[i];
            let el10 = current_el == ExceptionLevel::El0 || current_el == ExceptionLevel::El1;
            if entry.valid && entry.el10 == el10 && entry.asid == self.asid && entry.page_shift < 64 && (va
                >> entry.page_shift as u64) == entry.va_tag {
                let user = current_el == ExceptionLevel::El0;
                let allowed = match access {
                    Access::Read => !user || entry.user_accessible,
                    Access::Write => entry.writable && (!user || entry.user_accessible),
                    Access::Execute => if user { entry.executable_el0 } else { entry.executable_privileged },
                };
                if !allowed {
                    return Err(Fault::Permission);
                }
                proof {
                    lemma_shl_positive(entry.page_shift as u64);
                }
                let offset_mask = (1u64 << entry.page_shift as u64) - 1;
                return Ok(Some(Translation {
                    pa: entry.pa_base | (va & offset_mask),
                    writable: entry.writable && (!user || entry.user_accessible),
                    executable: if user { entry.executable_el0 } else { entry.executable_privileged },
                    page_shift: entry.page_shift,
                }));
            }
            i = i + 1;
        }
        Ok(None)
    }

    pub fn descriptor_permissions(descriptor: u64, level: usize, current_el: ExceptionLevel, access: Access) -> (r: Result<(bool, bool, bool, bool), Fault>)
        ensures
            r == spec_permissions(descriptor, level as int, current_el, access),
    {
        if descriptor & AF_BIT == 0 {
            return Err(Fault::AccessFlag);
        }
        if current_el == ExceptionLevel::El2 || current_el == ExceptionLevel::El3 {
            // EL2/EL3: AP[2] alone makes a page read-only, XN forbids
            // execution; the table attributes do not apply.
            let writable = descriptor & 0x80 == 0;
            let executable = descriptor & 0x40_0000_0000_0000 == 0;
            if access == Access::Write && !writable {
                return Err(Fault::Permission);
            }
            if access == Access::Execute && !executable {
                return Err(Fault::Permission);
            }
            if level == 0 && descriptor & DESCRIPTOR_TYPE_MASK == 1 {
                return Err(Fault::Translation);
            }
            return Ok((writable, false, false, executable));
        }
        // AP[2:1]: 00 = EL1 RW / EL0 none; 01 = EL0/EL1 RW; 10 = EL1 RO / EL0
        // none; 11 = EL0/EL1 RO.  APTable (bits 62:61, gathered from the
        // tables above) removes EL0 access (bit 61) and writes (bit 62).
        let ap = (descriptor >> 6u64) & 3;
        let ap_table = (descriptor >> 61u64) & 3;
        let writable = (ap == 0 || ap == 1) && ap_table & 2 == 0;
        let user_accessible = (ap == 1 || ap == 3) && ap_table & 1 == 0;
        let el0 = current_el == ExceptionLevel::El0;
        if access == Access::Read && el0 && !user_accessible {
            return Err(Fault::Permission);
        }
        if access == Access::Write && !(writable && (!el0 || user_accessible)) {
            return Err(Fault::Permission);
        }
        // UXN/UXNTable block EL0 execution; PXN/PXNTable block privileged
        // execution, as does memory that EL0 may write.
        let executable_el0 = descriptor & 0x40_0000_0000_0000 == 0 && descriptor & UXN_TABLE == 0;
        let executable_privileged = descriptor & 0x20_0000_0000_0000 == 0 && descriptor & PXN_TABLE == 0 && !(
        user_accessible && writable);
        let executable = if el0 { executable_el0 } else { executable_privileged };
        if access == Access::Execute && !executable {
            return Err(Fault::Permission);
        }
        if level == 0 && descriptor & DESCRIPTOR_TYPE_MASK == 1 {
            return Err(Fault::Translation);
        }
        Ok((writable, user_accessible, executable_el0, executable_privileged))
    }

    /// The walk from `table` at `level`; returns the terminal descriptor and
    /// its level, with the descriptors read.
    fn walk_from<F: Fn(u64) -> Option<u64>>(g: Granule, va: u64, table: u64, level: usize, acc: u64, read64: &F) -> (r: (Result<(u64, usize), Fault>, Ghost<Seq<Option<u64>>>))
        requires
            level <= 3,
            forall|pa: u64| call_requires(*read64, (pa,)),
        ensures
            ({
                let (w, addrs) = walk(g, va, table, level as int, acc, r.1@);
                &&& reads_match(*read64, addrs, r.1@)
                &&& w == match r.0 {
                    Ok((d, l)) => Ok::<(u64, int), Fault>((d, l as int)),
                    Err(f) => Err(f),
                }
            }),
            r.0 matches Ok((_, l)) ==> l <= 3,
        decreases 3 - level,
    {
        let shift = g.page_shift() + g.index_bits() * (3 - level as u64);
        let index_mask: u64 = match g {
            Granule::FourKiB => 0x1ff,
            Granule::SixteenKiB => 0x7ff,
        };
        let index = (va >> shift) & index_mask;
        proof {
            assert((va >> shift) & 0x1ff <= 0x1ff) by {
                crate::bits::lemma_u64_bits(va >> shift);
            }
            assert((va >> shift) & 0x7ff <= 0x7ff) by {
                crate::bits::lemma_u64_bits(va >> shift);
            }
        }
        if table > u64::MAX - index * 8 {
            return (Err(Fault::Translation), Ghost(Seq::empty()));
        }
        let entry_address = table + index * 8;
        let value = read64(entry_address);
        let ghost descs = seq![value];
        let descriptor = match value {
            None => return (Err(Fault::Translation), Ghost(descs)),
            Some(d) => d,
        };
        if descriptor & 1 == 0 {
            return (Err(Fault::Translation), Ghost(descs));
        }
        let descriptor_type = descriptor & DESCRIPTOR_TYPE_MASK;
        if level < MAX_LEVEL && descriptor_type == 1 {
            return (Ok(((descriptor & !TABLE_ATTRIBUTES) | acc, level)), Ghost(descs));
        }
        if level < MAX_LEVEL && descriptor_type != 3 {
            return (Err(Fault::Translation), Ghost(descs));
        }
        if level == MAX_LEVEL {
            if descriptor_type != 3 {
                return (Err(Fault::Translation), Ghost(descs));
            }
            return (Ok(((descriptor & !TABLE_ATTRIBUTES) | acc, 3)), Ghost(descs));
        }
        let (r, Ghost(rest)) = Self::walk_from(
            g,
            va,
            descriptor & g.address_mask(),
            level + 1,
            acc | (descriptor & TABLE_ATTRIBUTES),
            read64,
        );
        proof {
            let all = descs + rest;
            assert(all.drop_first() =~= rest);
            let (w2, addrs2) = walk(g, va, descriptor & spec_address_mask(g), level as int + 1, acc | (descriptor & TABLE_ATTRIBUTES), rest);
            let addrs = seq![entry_address] + addrs2;
            assert forall|i: int| 0 <= i < addrs.len() implies call_ensures(*read64, (#[trigger] addrs[i],), all[i]) by {
                if i > 0 {
                    assert(addrs[i] == addrs2[i - 1]);
                    assert(all[i] == rest[i - 1]);
                }
            }
        }
        (r, Ghost(descs + rest))
    }

    /// Translate `va` for `access` at `current_el`.  `read64` reads guest
    /// physical memory (never host memory); `None` is a translation fault.
    pub fn translate<F: Fn(u64) -> Option<u64>>(&mut self, va: u64, access: Access, current_el: ExceptionLevel, read64: F) -> (r: Result<Translation, Fault>)
        requires
            mmu_wf(*old(self)),
            forall|pa: u64| call_requires(read64, (pa,)),
        ensures
            mmu_wf(*final(self)),
            same_config(*final(self), *old(self)),
            access == Access::Execute && va & 3 != 0 ==> r == Err::<Translation, Fault>(Fault::Alignment) && *final(self) == *old(self),
            !(access == Access::Execute && va & 3 != 0) && !old(self).enabled ==> *final(self) == *old(self)
                && r == Ok::<Translation, Fault>(Translation {
                    pa: va,
                    writable: true,
                    executable: true,
                    page_shift: spec_page_shift(old(self).granule) as u8,
                }),
            !(access == Access::Execute && va & 3 != 0) && old(self).enabled ==> {
                if spec_select_root(*old(self), va) is None {
                    r == Err::<Translation, Fault>(Fault::AddressSize) && *final(self) == *old(self)
                } else if tlb_match(old(self).tlb@, old(self).asid, va, el10_regime(current_el), 0) is Some {
                    &&& r == tlb_result(old(self).tlb@[tlb_match(old(self).tlb@, old(self).asid, va, el10_regime(current_el), 0)->Some_0], va, access, current_el)
                    &&& *final(self) == *old(self)
                } else {
                    exists|descs: Seq<Option<u64>>| #[trigger] walk_produces(*old(self), *final(self), va, access, current_el, read64, descs, r)
                }
            },
            r is Err ==> final(self).tlb == old(self).tlb && final(self).next == old(self).next,
    {
        if access == Access::Execute && va & 3 != 0 {
            return Err(Fault::Alignment);
        }
        if !self.enabled {
            return Ok(Translation { pa: va, writable: true, executable: true, page_shift: self.granule.page_shift() as u8 });
        }
        let selected = self.select_root(va);
        let (root, tsz) = match selected {
            None => return Err(Fault::AddressSize),
            Some(v) => v,
        };
        match self.tlb_lookup(va, access, current_el) {
            Err(f) => return Err(f),
            Ok(Some(hit)) => return Ok(hit),
            Ok(None) => {},
        }
        let start_level = match self.granule.start_level(tsz) {
            None => return Err(Fault::AddressSize),
            Some(l) => l,
        };
        let g = self.granule;
        let address_mask = g.address_mask();
        let walked = Self::walk_from(g, va, root & address_mask, start_level, 0, &read64);
        let w = walked.0;
        let ghost descs = walked.1@;
        let (descriptor, level) = match w {
            Err(f) => {
                proof {
                    assert(walk_produces(*old(self), *self, va, access, current_el, read64, descs, Err(f)));
                }
                return Err(f);
            },
            Ok(v) => v,
        };
        assert(level <= 3);
        assert(spec_page_shift(g) <= 14 && spec_index_bits(g) <= 11);
        let below = 3 - level as u64;
        assert(spec_index_bits(g) * below <= 33) by (nonlinear_arith)
            requires
                spec_index_bits(g) <= 11,
                below <= 3,
        ;
        let shift = g.page_shift() + g.index_bits() * below;
        let (writable, user_accessible, executable_el0, executable_privileged) = match Self::descriptor_permissions(
            descriptor,
            level,
            current_el,
            access,
        ) {
            Err(f) => {
                proof {
                    assert(walk_produces(*old(self), *self, va, access, current_el, read64, descs, Err(f)));
                }
                return Err(f);
            },
            Ok(p) => p,
        };
        proof {
            lemma_shl_positive(shift);
        }
        let low = (1u64 << shift) - 1;
        let pa_base = if level < MAX_LEVEL { descriptor & address_mask & !low } else { descriptor & address_mask };
        let translation = Translation {
            pa: pa_base | (va & low),
            writable: writable && (current_el != ExceptionLevel::El0 || user_accessible),
            executable: if current_el == ExceptionLevel::El0 { executable_el0 } else { executable_privileged },
            page_shift: shift as u8,
        };
        let el10 = current_el == ExceptionLevel::El0 || current_el == ExceptionLevel::El1;
        self.cache(el10, va, pa_base, shift as u8, writable, user_accessible, executable_el0, executable_privileged);
        proof {
            assert(walk_produces(*old(self), *self, va, access, current_el, read64, descs, Ok(translation)));
        }
        Ok(translation)
    }

    fn cache(
        &mut self,
        el10: bool,
        va: u64,
        pa_base: u64,
        page_shift: u8,
        writable: bool,
        user_accessible: bool,
        executable_el0: bool,
        executable_privileged: bool,
    )
        requires
            mmu_wf(*old(self)),
            page_shift < 64,
        ensures
            mmu_wf(*final(self)),
            same_config(*final(self), *old(self)),
            final(self).next == (old(self).next + 1) % 16,
            final(self).tlb@ == old(self).tlb@.update(old(self).next as int, TlbEntry {
                valid: true,
                el10,
                asid: old(self).asid,
                va_tag: va >> (page_shift as u64),
                pa_base,
                page_shift,
                writable,
                user_accessible,
                executable_el0,
                executable_privileged,
            }),
    {
        let entry = TlbEntry {
            valid: true,
            el10,
            asid: self.asid,
            va_tag: va >> page_shift as u64,
            pa_base,
            page_shift,
            writable,
            user_accessible,
            executable_el0,
            executable_privileged,
        };
        let n = self.next;
        self.tlb[n] = entry;
        self.next = (n + 1) % TLB_ENTRIES;
    }
}

} // verus!
