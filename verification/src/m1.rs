//! M1-only native machine contract primitives: a fixed T8103 identity and
//! fixed-size components for interrupt routing, timer, DART-style DMA
//! translation, storage, recovery, display and firmware handoff.  The
//! logical MMIO windows are graph-local; they are not Apple physical
//! register addresses, and no signature is ever claimed verified.
use vstd::prelude::*;
use crate::arch::{GenericTimer, SmpState, SystemRegisters, ExceptionKind, GuestBus, GuestCpuState, le_value, le_bytes, read_width, write_width};
use crate::mmu::Access;

verus! {

pub const M1_SOC_T8103: u32 = 0x0000_8103;
pub const M1_CPU_COUNT: u32 = 8;
pub const M1_COUNTER_FREQUENCY: u64 = 24_000_000;
pub const M1_MAX_DEVICES: usize = 8;
pub const M1_MAX_DART_MAPPINGS: usize = 16;
pub const M1_DART_GRANULE: u64 = 0x1000;
/// One recovery envelope carries at most 1 KiB; larger artifacts are sent
/// as a sequence of envelopes.
pub const M1_MAX_RECOVERY_PAYLOAD: usize = 1024;
pub const M1_RECOVERY_HEADER_BYTES: usize = 20;
pub const M1_STORAGE_BLOCK_BYTES: usize = 4096;
pub const M1_MAX_DISPLAY_WIDTH: u32 = 8192;
pub const M1_MAX_DISPLAY_HEIGHT: u32 = 8192;

pub const M1_LOGICAL_WINDOW_BYTES: u64 = 0x1000;
pub const M1_LOGICAL_FIRMWARE_BASE: u64 = 0x0000;
pub const M1_LOGICAL_AIC_BASE: u64 = 0x1000;
pub const M1_LOGICAL_TIMER_BASE: u64 = 0x2000;
pub const M1_LOGICAL_DART_BASE: u64 = 0x3000;
pub const M1_LOGICAL_STORAGE_BASE: u64 = 0x4000;
pub const M1_LOGICAL_RECOVERY_BASE: u64 = 0x5000;
pub const M1_LOGICAL_DISPLAY_BASE: u64 = 0x6000;
pub const M1_LOGICAL_UART_BASE: u64 = 0x7000;

/// Guest-visible alias of the logical windows used by the reference bus;
/// it lies outside the fixed 64 KiB diagnostic RAM.
pub const M1_GUEST_MMIO_BASE: u64 = 0x1000_0000;
pub const M1_GUEST_MMIO_BYTES: u64 = 0x8000;

pub const TIMER_SOURCE: u8 = 0;
pub const STORAGE_SOURCE: u8 = 1;
pub const DISPLAY_SOURCE: u8 = 2;
pub const RECOVERY_SOURCE: u8 = 3;
pub const M1_INTERRUPT_SOURCES: usize = 8;

pub const DMA_READ: u8 = 1;
pub const DMA_WRITE: u8 = 2;

/// "VFR1" read as a little-endian word.
pub const RECOVERY_MAGIC: u32 = 0x3152_4656;

#[derive(Clone, Copy, Debug, PartialEq, Eq, Structural)]
pub enum M1DeviceKind {
    Firmware,
    Aic,
    Timer,
    Dart,
    Storage,
    Recovery,
    Display,
    Uart,
}

#[derive(Clone, Copy, Debug, PartialEq, Eq, Structural)]
pub enum M1MmioFault {
    Unmapped,
    OutOfRange,
    InvalidWidth,
    ReadOnly,
    InvalidRegister,
    Unsupported,
}

#[derive(Clone, Copy, Debug, PartialEq, Eq, Structural)]
pub enum M1LogicalWindow {
    Firmware,
    Aic,
    Timer,
    Dart,
    Storage,
    Recovery,
    Display,
    Uart,
}

/// The window with index `i` (0 to 7) in address order.
pub open spec fn window_at(i: int) -> M1LogicalWindow {
    if i == 0 {
        M1LogicalWindow::Firmware
    } else if i == 1 {
        M1LogicalWindow::Aic
    } else if i == 2 {
        M1LogicalWindow::Timer
    } else if i == 3 {
        M1LogicalWindow::Dart
    } else if i == 4 {
        M1LogicalWindow::Storage
    } else if i == 5 {
        M1LogicalWindow::Recovery
    } else if i == 6 {
        M1LogicalWindow::Display
    } else {
        M1LogicalWindow::Uart
    }
}

pub open spec fn valid_width(width: u32) -> bool {
    width == 8 || width == 16 || width == 32 || width == 64
}

/// Which 4 KiB window an access of `width` bits at `address` falls in,
/// and its offset there.  An access must lie inside one window.
pub open spec fn spec_logical_window(address: u64, width: u32) -> Result<(M1LogicalWindow, u64), M1MmioFault> {
    let end = address + width / 8;
    if !valid_width(width) {
        Err(M1MmioFault::InvalidWidth)
    } else if end > u64::MAX {
        Err(M1MmioFault::OutOfRange)
    } else if address < 0x8000 && end <= (address / 0x1000 + 1) * 0x1000 {
        Ok((window_at((address / 0x1000) as int), (address % 0x1000) as u64))
    } else if address >= 0x8000 {
        Err(M1MmioFault::Unmapped)
    } else {
        Err(M1MmioFault::OutOfRange)
    }
}

fn window_of(index: u64) -> (w: M1LogicalWindow)
    requires
        index < 8,
    ensures
        w == window_at(index as int),
{
    if index == 0 {
        M1LogicalWindow::Firmware
    } else if index == 1 {
        M1LogicalWindow::Aic
    } else if index == 2 {
        M1LogicalWindow::Timer
    } else if index == 3 {
        M1LogicalWindow::Dart
    } else if index == 4 {
        M1LogicalWindow::Storage
    } else if index == 5 {
        M1LogicalWindow::Recovery
    } else if index == 6 {
        M1LogicalWindow::Display
    } else {
        M1LogicalWindow::Uart
    }
}

pub fn logical_window(address: u64, width: u32) -> (r: Result<(M1LogicalWindow, u64), M1MmioFault>)
    ensures
        r == spec_logical_window(address, width),
{
    if !(width == 8 || width == 16 || width == 32 || width == 64) {
        return Err(M1MmioFault::InvalidWidth);
    }
    let bytes = (width / 8) as u64;
    let end = match address.checked_add(bytes) {
        Some(e) => e,
        None => return Err(M1MmioFault::OutOfRange),
    };
    if address < 0x8000 {
        let index = address / 0x1000;
        if end <= (index + 1) * 0x1000 {
            return Ok((window_of(index), address % 0x1000));
        }
        return Err(M1MmioFault::OutOfRange);
    }
    Err(M1MmioFault::Unmapped)
}

pub open spec fn spec_mmio_width(width: u32, expected: u32) -> Result<(), M1MmioFault> {
    if width == expected { Ok(()) } else { Err(M1MmioFault::InvalidWidth) }
}

pub fn mmio_width(width: u32, expected: u32) -> (r: Result<(), M1MmioFault>)
    ensures
        r == spec_mmio_width(width, expected),
{
    if width == expected {
        Ok(())
    } else {
        Err(M1MmioFault::InvalidWidth)
    }
}

#[derive(Clone, Copy, Debug, PartialEq, Eq, Structural)]
pub struct M1DeviceDescriptor {
    pub kind: M1DeviceKind,
    pub instance: u8,
    pub contract_ready: bool,
    pub guest_visible: bool,
}

pub fn empty_device() -> (d: M1DeviceDescriptor)
    ensures
        d == (M1DeviceDescriptor {
            kind: M1DeviceKind::Firmware,
            instance: 0,
            contract_ready: false,
            guest_visible: false,
        }),
{
    M1DeviceDescriptor { kind: M1DeviceKind::Firmware, instance: 0, contract_ready: false, guest_visible: false }
}

/// The identity of the native graph.  `board_id_len == 0` is deliberate:
/// a T8103 SoC identity is not a claim about one Mac board.
#[derive(Clone, Copy, Debug)]
pub struct M1FirmwareIdentity {
    pub soc_id: u32,
    pub cpu_count: u32,
    pub aarch64: bool,
    pub macos_only: bool,
    pub board_id: [u8; 16],
    pub board_id_len: u8,
}

pub open spec fn identity_valid(i: M1FirmwareIdentity) -> bool {
    i.soc_id == M1_SOC_T8103 && i.cpu_count == M1_CPU_COUNT && i.aarch64 && i.macos_only && i.board_id_len <= 16
}

/// The T8103 identity: its SoC and CPU count, AArch64, macOS only, no board id.
pub open spec fn is_identity_t8103(i: M1FirmwareIdentity) -> bool {
    &&& i.soc_id == M1_SOC_T8103 && i.cpu_count == M1_CPU_COUNT && i.aarch64 && i.macos_only
    &&& i.board_id@ == Seq::new(16, |j: int| 0u8) && i.board_id_len == 0
}

impl M1FirmwareIdentity {
    pub fn t8103() -> (i: Self)
        ensures
            is_identity_t8103(i),
            identity_valid(i),
            i.board_id_len == 0,
    {
        let i = M1FirmwareIdentity {
            soc_id: M1_SOC_T8103,
            cpu_count: M1_CPU_COUNT,
            aarch64: true,
            macos_only: true,
            board_id: [0; 16],
            board_id_len: 0,
        };
        assert(i.board_id@ =~= Seq::new(16, |j: int| 0u8));
        i
    }

    pub fn valid(&self) -> (b: bool)
        ensures
            b == identity_valid(*self),
    {
        self.soc_id == M1_SOC_T8103 && self.cpu_count == M1_CPU_COUNT && self.aarch64 && self.macos_only
            && self.board_id_len <= 16
    }
}

#[derive(Clone, Copy, Debug, PartialEq, Eq, Structural)]
pub struct M1FirmwareHandoff {
    pub entry_pa: u64,
    pub device_tree_pa: u64,
    pub device_tree_bytes: u64,
    pub prepared: bool,
    /// Never set here: reserved for a caller that has verified an Apple
    /// signature chain.
    pub signature_verified: bool,
}

pub open spec fn spec_handoff_initial() -> M1FirmwareHandoff {
    M1FirmwareHandoff { entry_pa: 0, device_tree_pa: 0, device_tree_bytes: 0, prepared: false, signature_verified: false }
}

/// A word-aligned entry and an 8-byte aligned, non-empty device tree that
/// lies inside RAM.
pub open spec fn handoff_admissible(entry_pa: u64, device_tree_pa: u64, device_tree_bytes: u64, ram_bytes: u64) -> bool {
    entry_pa % 4 == 0 && device_tree_pa % 8 == 0 && device_tree_bytes != 0 && device_tree_pa + device_tree_bytes
        <= ram_bytes
}

impl M1FirmwareHandoff {
    pub fn initial() -> (h: Self)
        ensures
            h == spec_handoff_initial(),
    {
        M1FirmwareHandoff { entry_pa: 0, device_tree_pa: 0, device_tree_bytes: 0, prepared: false, signature_verified: false }
    }

    pub fn prepare(&mut self, entry_pa: u64, device_tree_pa: u64, device_tree_bytes: u64, ram_bytes: u64) -> (ok: bool)
        ensures
            ok == handoff_admissible(entry_pa, device_tree_pa, device_tree_bytes, ram_bytes),
            ok ==> *final(self) == (M1FirmwareHandoff {
                entry_pa,
                device_tree_pa,
                device_tree_bytes,
                prepared: true,
                signature_verified: false,
            }),
            !ok ==> *final(self) == *old(self),
    {
        proof {
            assert(entry_pa & 3 == entry_pa % 4) by {
                crate::bits::lemma_u64_bits(entry_pa);
            }
            assert(device_tree_pa & 7 == device_tree_pa % 8) by {
                crate::bits::lemma_u64_bits(device_tree_pa);
            }
        }
        if entry_pa & 3 != 0 || device_tree_pa & 7 != 0 || device_tree_bytes == 0 {
            return false;
        }
        match device_tree_pa.checked_add(device_tree_bytes) {
            None => return false,
            Some(end) => if end > ram_bytes {
                return false;
            },
        }
        self.entry_pa = entry_pa;
        self.device_tree_pa = device_tree_pa;
        self.device_tree_bytes = device_tree_bytes;
        self.prepared = true;
        self.signature_verified = false;
        true
    }

    pub fn reset(&mut self)
        ensures
            *final(self) == spec_handoff_initial(),
    {
        *self = Self::initial();
    }
}

#[derive(Clone, Copy, Debug, PartialEq, Eq, Structural)]
pub enum M1DmaAccess {
    DeviceReadGuest,
    DeviceWriteGuest,
    Bidirectional,
}

pub open spec fn spec_access_bits(a: M1DmaAccess) -> u8 {
    match a {
        M1DmaAccess::DeviceReadGuest => DMA_READ,
        M1DmaAccess::DeviceWriteGuest => DMA_WRITE,
        M1DmaAccess::Bidirectional => 3,
    }
}

impl M1DmaAccess {
    pub fn bits(self) -> (b: u8)
        ensures
            b == spec_access_bits(self),
    {
        assert(DMA_READ | DMA_WRITE == 3u8) by {
            crate::bits::lemma_bit_constants();
        }
        match self {
            M1DmaAccess::DeviceReadGuest => DMA_READ,
            M1DmaAccess::DeviceWriteGuest => DMA_WRITE,
            M1DmaAccess::Bidirectional => DMA_READ | DMA_WRITE,
        }
    }
}

#[derive(Clone, Copy, Debug, PartialEq, Eq, Structural)]
pub enum M1DmaFault {
    InvalidArguments,
    Unmapped,
    Permission,
    Overlap,
    Bounds,
    TableFull,
}

#[derive(Clone, Copy, Debug, PartialEq, Eq, Structural)]
pub struct M1DartMapping {
    pub valid: bool,
    pub stream_id: u16,
    pub iova: u64,
    pub pa: u64,
    pub bytes: u64,
    pub permissions: u8,
}

pub open spec fn spec_empty_mapping() -> M1DartMapping {
    M1DartMapping { valid: false, stream_id: 0, iova: 0, pa: 0, bytes: 0, permissions: 0 }
}

pub fn empty_mapping() -> (m: M1DartMapping)
    ensures
        m == spec_empty_mapping(),
{
    M1DartMapping { valid: false, stream_id: 0, iova: 0, pa: 0, bytes: 0, permissions: 0 }
}

/// Whether two ranges overlap; a range whose end overflows overlaps
/// everything.
pub open spec fn spec_ranges_overlap(left_base: u64, left_bytes: u64, right_base: u64, right_bytes: u64) -> bool {
    if left_base + left_bytes > u64::MAX || right_base + right_bytes > u64::MAX {
        true
    } else {
        left_base < right_base + right_bytes && right_base < left_base + left_bytes
    }
}

pub fn ranges_overlap(left_base: u64, left_bytes: u64, right_base: u64, right_bytes: u64) -> (b: bool)
    ensures
        b == spec_ranges_overlap(left_base, left_bytes, right_base, right_bytes),
{
    match (left_base.checked_add(left_bytes), right_base.checked_add(right_bytes)) {
        (Some(left_end), Some(right_end)) => left_base < right_end && right_base < left_end,
        _ => true,
    }
}

/// `[start, start + bytes)` inside a buffer of `limit` bytes.
pub open spec fn spec_byte_range(address: u64, bytes: usize, limit: usize) -> Result<(usize, usize), M1DmaFault> {
    if address + bytes > limit {
        Err(M1DmaFault::Bounds)
    } else {
        Ok((address as usize, (address + bytes) as usize))
    }
}

pub fn byte_range(address: u64, bytes: usize, limit: usize) -> (r: Result<(usize, usize), M1DmaFault>)
    ensures
        r == spec_byte_range(address, bytes, limit),
{
    if address > limit as u64 {
        return Err(M1DmaFault::Bounds);
    }
    let start = address as usize;
    match start.checked_add(bytes) {
        None => Err(M1DmaFault::Bounds),
        Some(end) => if end > limit {
            Err(M1DmaFault::Bounds)
        } else {
            Ok((start, end))
        },
    }
}

/// A bounded DART-style translation table: a semantic DMA boundary, not
/// Apple's physical DART page tables.  Device accesses go through
/// `dma_read`/`dma_write`, so a mapped IOVA never becomes an unrestricted
/// RAM offset.
pub struct M1Dart {
    pub mappings: [M1DartMapping; 16],
    pub mapping_count: u32,
    pub ram_bytes: u64,
    pub generation: u32,
}

pub open spec fn sat_inc(v: u32) -> u32 {
    if v == u32::MAX { v } else { (v + 1) as u32 }
}

pub open spec fn sat_dec(v: u32) -> u32 {
    if v == 0 { 0 } else { (v - 1) as u32 }
}

/// Granule-aligned, non-empty, non-wrapping and inside RAM.
pub open spec fn map_arguments_valid(iova: u64, pa: u64, bytes: u64, ram_bytes: u64) -> bool {
    &&& bytes != 0
    &&& iova % M1_DART_GRANULE == 0
    &&& pa % M1_DART_GRANULE == 0
    &&& bytes % M1_DART_GRANULE == 0
    &&& iova + bytes <= u64::MAX
    &&& pa + bytes <= ram_bytes
}

/// A live mapping of `stream_id` that overlaps `[iova, iova + bytes)`.
pub open spec fn conflicts(m: M1DartMapping, stream_id: u16, iova: u64, bytes: u64) -> bool {
    m.valid && m.stream_id == stream_id && spec_ranges_overlap(m.iova, m.bytes, iova, bytes)
}

/// `i` is the first index of `ms` satisfying `p`.
pub open spec fn first_where(ms: Seq<M1DartMapping>, p: spec_fn(M1DartMapping) -> bool, i: int) -> bool {
    0 <= i < ms.len() && p(ms[i]) && forall|j: int| 0 <= j < i ==> !p(#[trigger] ms[j])
}

pub open spec fn none_where(ms: Seq<M1DartMapping>, p: spec_fn(M1DartMapping) -> bool) -> bool {
    forall|j: int| 0 <= j < ms.len() ==> !p(#[trigger] ms[j])
}

pub open spec fn is_free(m: M1DartMapping) -> bool {
    !m.valid
}

/// The mapping of `stream_id` that covers `[iova, iova + bytes)`.
pub open spec fn covers(m: M1DartMapping, stream_id: u16, iova: u64, bytes: u64) -> bool {
    m.valid && m.stream_id == stream_id && iova >= m.iova && iova + bytes <= u64::MAX && iova + bytes <= if m.iova
        + m.bytes > u64::MAX {
        u64::MAX as int
    } else {
        m.iova + m.bytes
    }
}

/// The mapping registered exactly as `(stream_id, iova, bytes)`.
pub open spec fn registered(m: M1DartMapping, stream_id: u16, iova: u64, bytes: u64) -> bool {
    m.valid && m.stream_id == stream_id && m.iova == iova && m.bytes == bytes
}

/// The number of live mappings.
pub open spec fn live_count(ms: Seq<M1DartMapping>) -> nat
    decreases ms.len(),
{
    if ms.len() == 0 {
        0
    } else {
        live_count(ms.drop_last()) + if ms.last().valid { 1nat } else { 0nat }
    }
}

/// What a DMA translation of `[iova, iova + bytes)` gives.
pub open spec fn spec_translate(d: M1Dart, stream_id: u16, iova: u64, bytes: u64, access: M1DmaAccess) -> Result<u64, M1DmaFault> {
    let p = |m: M1DartMapping| covers(m, stream_id, iova, bytes);
    if bytes == 0 {
        Err(M1DmaFault::InvalidArguments)
    } else if none_where(d.mappings@, p) {
        Err(M1DmaFault::Unmapped)
    } else {
        let i = choose|i: int| first_where(d.mappings@, p, i);
        let m = d.mappings@[i];
        if m.permissions & spec_access_bits(access) != spec_access_bits(access) {
            Err(M1DmaFault::Permission)
        } else if m.pa + (iova - m.iova) > u64::MAX {
            Err(M1DmaFault::Bounds)
        } else {
            Ok((m.pa + (iova - m.iova)) as u64)
        }
    }
}

pub open spec fn dart_valid(d: M1Dart) -> bool {
    d.mapping_count <= 16 && d.ram_bytes != 0 && live_count(d.mappings@) == d.mapping_count
}

/// The first live mapping of `stream_id` overlapping the range.
fn find_conflict(ms: &[M1DartMapping; 16], stream_id: u16, iova: u64, bytes: u64) -> (r: Option<usize>)
    ensures
        r is None <==> none_where(ms@, |m: M1DartMapping| conflicts(m, stream_id, iova, bytes)),
        r matches Some(i) ==> first_where(ms@, |m: M1DartMapping| conflicts(m, stream_id, iova, bytes), i as int),
{
    let mut i: usize = 0;
    while i < 16
        invariant
            i <= 16,
            ms@.len() == 16,
            forall|j: int| 0 <= j < i ==> !conflicts(#[trigger] ms@[j], stream_id, iova, bytes),
        decreases 16 - i,
    {
        let m = ms[i];
        if m.valid && m.stream_id == stream_id && ranges_overlap(m.iova, m.bytes, iova, bytes) {
            return Some(i);
        }
        i = i + 1;
    }
    None
}

/// The first free slot.
fn find_free(ms: &[M1DartMapping; 16]) -> (r: Option<usize>)
    ensures
        r is None <==> none_where(ms@, |m: M1DartMapping| is_free(m)),
        r matches Some(i) ==> first_where(ms@, |m: M1DartMapping| is_free(m), i as int),
{
    let mut i: usize = 0;
    while i < 16
        invariant
            i <= 16,
            ms@.len() == 16,
            forall|j: int| 0 <= j < i ==> !is_free(#[trigger] ms@[j]),
        decreases 16 - i,
    {
        if !ms[i].valid {
            return Some(i);
        }
        i = i + 1;
    }
    None
}

/// The first mapping registered exactly as `(stream_id, iova, bytes)`.
fn find_registered(ms: &[M1DartMapping; 16], stream_id: u16, iova: u64, bytes: u64) -> (r: Option<usize>)
    ensures
        r is None <==> none_where(ms@, |m: M1DartMapping| registered(m, stream_id, iova, bytes)),
        r matches Some(i) ==> first_where(ms@, |m: M1DartMapping| registered(m, stream_id, iova, bytes), i as int),
{
    let mut i: usize = 0;
    while i < 16
        invariant
            i <= 16,
            ms@.len() == 16,
            forall|j: int| 0 <= j < i ==> !registered(#[trigger] ms@[j], stream_id, iova, bytes),
        decreases 16 - i,
    {
        let m = ms[i];
        if m.valid && m.stream_id == stream_id && m.iova == iova && m.bytes == bytes {
            return Some(i);
        }
        i = i + 1;
    }
    None
}

/// The first mapping of `stream_id` covering the range.
fn find_covering(ms: &[M1DartMapping; 16], stream_id: u16, iova: u64, bytes: u64) -> (r: Option<usize>)
    ensures
        r is None <==> none_where(ms@, |m: M1DartMapping| covers(m, stream_id, iova, bytes)),
        r matches Some(i) ==> first_where(ms@, |m: M1DartMapping| covers(m, stream_id, iova, bytes), i as int),
{
    let mut i: usize = 0;
    while i < 16
        invariant
            i <= 16,
            ms@.len() == 16,
            forall|j: int| 0 <= j < i ==> !covers(#[trigger] ms@[j], stream_id, iova, bytes),
        decreases 16 - i,
    {
        let m = ms[i];
        let inside = match iova.checked_add(bytes) {
            Some(end) => end <= m.iova.saturating_add(m.bytes),
            None => false,
        };
        if m.valid && m.stream_id == stream_id && iova >= m.iova && inside {
            return Some(i);
        }
        i = i + 1;
    }
    None
}

impl M1Dart {
    pub fn new(ram_bytes: u64) -> (d: Self)
        ensures
            d.mappings@ == Seq::new(16, |i: int| spec_empty_mapping()),
            d.mapping_count == 0 && d.ram_bytes == ram_bytes && d.generation == 0,
    {
        let e = empty_mapping();
        let d = M1Dart {
            mappings: [e, e, e, e, e, e, e, e, e, e, e, e, e, e, e, e],
            mapping_count: 0,
            ram_bytes,
            generation: 0,
        };
        assert(d.mappings@ =~= Seq::new(16, |i: int| spec_empty_mapping()));
        d
    }

    /// Drop every mapping; the generation moves on.
    pub fn reset(&mut self)
        ensures
            final(self).mappings@ == Seq::new(16, |i: int| spec_empty_mapping()),
            final(self).mapping_count == 0,
            final(self).ram_bytes == old(self).ram_bytes,
            final(self).generation == sat_inc(old(self).generation),
    {
        let cleared = M1Dart::new(self.ram_bytes);
        self.mappings = cleared.mappings;
        self.mapping_count = 0;
        self.generation = self.generation.saturating_add(1);
    }

    /// Map `[iova, iova + bytes)` of `stream_id` to `[pa, pa + bytes)` in
    /// the first free slot.
    pub fn map(&mut self, stream_id: u16, iova: u64, pa: u64, bytes: u64, access: M1DmaAccess) -> (r: Result<(), M1DmaFault>)
        ensures
            !map_arguments_valid(iova, pa, bytes, old(self).ram_bytes) ==> r == Err::<(), M1DmaFault>(
                M1DmaFault::InvalidArguments,
            ),
            map_arguments_valid(iova, pa, bytes, old(self).ram_bytes) && !none_where(
                old(self).mappings@,
                |m: M1DartMapping| conflicts(m, stream_id, iova, bytes),
            ) ==> r == Err::<(), M1DmaFault>(M1DmaFault::Overlap),
            map_arguments_valid(iova, pa, bytes, old(self).ram_bytes) && none_where(
                old(self).mappings@,
                |m: M1DartMapping| conflicts(m, stream_id, iova, bytes),
            ) && none_where(old(self).mappings@, |m: M1DartMapping| is_free(m)) ==> r == Err::<(), M1DmaFault>(
                M1DmaFault::TableFull,
            ),
            r is Err ==> *final(self) == *old(self),
            (r is Ok) == (map_arguments_valid(iova, pa, bytes, old(self).ram_bytes) && none_where(
                old(self).mappings@,
                |m: M1DartMapping| conflicts(m, stream_id, iova, bytes),
            ) && !none_where(old(self).mappings@, |m: M1DartMapping| is_free(m))),
            r is Ok ==> {
                &&& map_arguments_valid(iova, pa, bytes, old(self).ram_bytes)
                &&& none_where(old(self).mappings@, |m: M1DartMapping| conflicts(m, stream_id, iova, bytes))
                &&& exists|i: int|
                    first_where(old(self).mappings@, |m: M1DartMapping| is_free(m), i) && final(self).mappings@
                        == #[trigger] old(self).mappings@.update(
                        i,
                        M1DartMapping { valid: true, stream_id, iova, pa, bytes, permissions: spec_access_bits(access) },
                    )
                &&& final(self).mapping_count == sat_inc(old(self).mapping_count)
                &&& final(self).generation == sat_inc(old(self).generation)
                &&& final(self).ram_bytes == old(self).ram_bytes
            },
    {
        proof {
            assert(iova & 0xfff == iova % 0x1000) by {
                crate::bits::lemma_u64_bits(iova);
            }
            assert(pa & 0xfff == pa % 0x1000) by {
                crate::bits::lemma_u64_bits(pa);
            }
            assert(bytes & 0xfff == bytes % 0x1000) by {
                crate::bits::lemma_u64_bits(bytes);
            }
        }
        if bytes == 0 || iova & (M1_DART_GRANULE - 1) != 0 || pa & (M1_DART_GRANULE - 1) != 0 || bytes & (
        M1_DART_GRANULE - 1) != 0 || iova.checked_add(bytes).is_none() {
            return Err(M1DmaFault::InvalidArguments);
        }
        match pa.checked_add(bytes) {
            None => return Err(M1DmaFault::InvalidArguments),
            Some(end) => if end > self.ram_bytes {
                return Err(M1DmaFault::InvalidArguments);
            },
        }
        let conflict = find_conflict(&self.mappings, stream_id, iova, bytes);
        if conflict.is_some() {
            return Err(M1DmaFault::Overlap);
        }
        let slot = match find_free(&self.mappings) {
            Some(i) => i,
            None => return Err(M1DmaFault::TableFull),
        };
        let permissions = access.bits();
        self.mappings[slot] = M1DartMapping { valid: true, stream_id, iova, pa, bytes, permissions };
        self.mapping_count = self.mapping_count.saturating_add(1);
        self.generation = self.generation.saturating_add(1);
        assert(self.mappings@ == old(self).mappings@.update(
            slot as int,
            M1DartMapping { valid: true, stream_id, iova, pa, bytes, permissions: spec_access_bits(access) },
        ));
        Ok(())
    }

    /// Remove the mapping registered exactly as `(stream_id, iova, bytes)`.
    pub fn unmap(&mut self, stream_id: u16, iova: u64, bytes: u64) -> (ok: bool)
        ensures
            ok == !none_where(old(self).mappings@, |m: M1DartMapping| registered(m, stream_id, iova, bytes)),
            !ok ==> *final(self) == *old(self),
            ok ==> {
                &&& exists|i: int|
                    first_where(old(self).mappings@, |m: M1DartMapping| registered(m, stream_id, iova, bytes), i)
                        && final(self).mappings@ == #[trigger] old(self).mappings@.update(i, spec_empty_mapping())
                &&& final(self).mapping_count == sat_dec(old(self).mapping_count)
                &&& final(self).generation == sat_inc(old(self).generation)
                &&& final(self).ram_bytes == old(self).ram_bytes
            },
    {
        let found = find_registered(&self.mappings, stream_id, iova, bytes);
        let slot = match found {
            Some(i) => i,
            None => return false,
        };
        self.mappings[slot] = empty_mapping();
        self.mapping_count = self.mapping_count.saturating_sub(1);
        self.generation = self.generation.saturating_add(1);
        assert(self.mappings@ == old(self).mappings@.update(slot as int, spec_empty_mapping()));
        true
    }

    pub fn translate(&self, stream_id: u16, iova: u64, bytes: u64, access: M1DmaAccess) -> (r: Result<u64, M1DmaFault>)
        ensures
            r == spec_translate(*self, stream_id, iova, bytes, access),
    {
        if bytes == 0 {
            return Err(M1DmaFault::InvalidArguments);
        }
        let found = find_covering(&self.mappings, stream_id, iova, bytes);
        let i = match found {
            Some(i) => i,
            None => return Err(M1DmaFault::Unmapped),
        };
        proof {
            let p = |m: M1DartMapping| covers(m, stream_id, iova, bytes);
            let c = choose|c: int| first_where(self.mappings@, p, c);
            assert(first_where(self.mappings@, p, i as int));
            if c != i as int {
                if c < i {
                    assert(!p(self.mappings@[c]));
                } else {
                    assert(!p(self.mappings@[i as int]));
                }
            }
        }
        let mapping = self.mappings[i];
        let bits = access.bits();
        if mapping.permissions & bits != bits {
            return Err(M1DmaFault::Permission);
        }
        match mapping.pa.checked_add(iova - mapping.iova) {
            Some(pa) => Ok(pa),
            None => Err(M1DmaFault::Bounds),
        }
    }

    /// Device read of guest RAM through the table into `destination`.
    pub fn dma_read(&self, stream_id: u16, iova: u64, destination: &mut [u8], guest_ram: &[u8]) -> (r: Result<(), M1DmaFault>)
        ensures
            ({
                let t = spec_translate(*self, stream_id, iova, old(destination)@.len() as u64, M1DmaAccess::DeviceReadGuest);
                match t {
                    Err(f) => r == Err::<(), M1DmaFault>(f),
                    Ok(pa) => if pa + old(destination)@.len() > guest_ram@.len() {
                        r == Err::<(), M1DmaFault>(M1DmaFault::Bounds)
                    } else {
                        r is Ok && final(destination)@ == guest_ram@.subrange(pa as int, pa + old(destination)@.len())
                    },
                }
            }),
            r is Err ==> final(destination)@ == old(destination)@,
    {
        let len = destination.len();
        let pa = match self.translate(stream_id, iova, len as u64, M1DmaAccess::DeviceReadGuest) {
            Ok(p) => p,
            Err(f) => return Err(f),
        };
        let (start, end) = match byte_range(pa, len, guest_ram.len()) {
            Ok(range) => range,
            Err(f) => return Err(f),
        };
        let mut k: usize = 0;
        while k < len
            invariant
                k <= len,
                len == destination@.len(),
                start + len == end <= guest_ram@.len(),
                destination@.len() == old(destination)@.len(),
                forall|j: int| 0 <= j < k ==> destination@[j] == guest_ram@[start + j],
            decreases len - k,
        {
            destination[k] = guest_ram[start + k];
            k = k + 1;
        }
        assert(destination@ =~= guest_ram@.subrange(pa as int, pa + old(destination)@.len()));
        Ok(())
    }

    /// Device write of `source` into guest RAM through the table.
    pub fn dma_write(&self, stream_id: u16, iova: u64, source: &[u8], guest_ram: &mut [u8]) -> (r: Result<(), M1DmaFault>)
        ensures
            ({
                let t = spec_translate(*self, stream_id, iova, source@.len() as u64, M1DmaAccess::DeviceWriteGuest);
                match t {
                    Err(f) => r == Err::<(), M1DmaFault>(f),
                    Ok(pa) => if pa + source@.len() > old(guest_ram)@.len() {
                        r == Err::<(), M1DmaFault>(M1DmaFault::Bounds)
                    } else {
                        r is Ok && final(guest_ram)@ == old(guest_ram)@.subrange(0, pa as int) + source@ + old(
                            guest_ram,
                        )@.subrange(pa + source@.len(), old(guest_ram)@.len() as int)
                    },
                }
            }),
            r is Err ==> final(guest_ram)@ == old(guest_ram)@,
    {
        let len = source.len();
        let pa = match self.translate(stream_id, iova, len as u64, M1DmaAccess::DeviceWriteGuest) {
            Ok(p) => p,
            Err(f) => return Err(f),
        };
        let (start, end) = match byte_range(pa, len, guest_ram.len()) {
            Ok(range) => range,
            Err(f) => return Err(f),
        };
        let mut k: usize = 0;
        while k < len
            invariant
                k <= len,
                len == source@.len(),
                start + len == end <= guest_ram@.len(),
                guest_ram@.len() == old(guest_ram)@.len(),
                forall|j: int| 0 <= j < start ==> guest_ram@[j] == old(guest_ram)@[j],
                forall|j: int| end <= j < guest_ram@.len() ==> guest_ram@[j] == old(guest_ram)@[j],
                forall|j: int| 0 <= j < k ==> guest_ram@[start + j] == source@[j],
            decreases len - k,
        {
            guest_ram[start + k] = source[k];
            k = k + 1;
        }
        assert(guest_ram@ =~= old(guest_ram)@.subrange(0, pa as int) + source@ + old(guest_ram)@.subrange(
            pa + source@.len(),
            old(guest_ram)@.len() as int,
        ));
        Ok(())
    }

    pub fn valid(&self) -> (b: bool)
        ensures
            b == dart_valid(*self),
    {
        let mut count: u32 = 0;
        let mut i: usize = 0;
        while i < 16
            invariant
                i <= 16,
                self.mappings@.len() == 16,
                count == live_count(self.mappings@.subrange(0, i as int)),
                count <= i,
            decreases 16 - i,
        {
            proof {
                assert(self.mappings@.subrange(0, i + 1).drop_last() =~= self.mappings@.subrange(0, i as int));
            }
            if self.mappings[i].valid {
                count = count + 1;
            }
            i = i + 1;
        }
        assert(self.mappings@.subrange(0, 16) =~= self.mappings@);
        self.mapping_count <= 16 && self.ram_bytes != 0 && count == self.mapping_count
    }
}

#[derive(Clone, Copy, Debug)]
pub struct M1Aic {
    pub pending: u64,
    pub enabled: u64,
    pub targets: [u64; 8],
}

/// Source `source` is pending, enabled and routed to `cpu`.
pub open spec fn deliverable(a: M1Aic, source: int, cpu: u32) -> bool {
    &&& a.pending & (1u64 << source as u64) != 0
    &&& a.enabled & (1u64 << source as u64) != 0
    &&& a.targets@[source] & (1u64 << cpu as u64) != 0
}

/// The lowest deliverable source at or above `from`, for `cpu`.
pub open spec fn lowest_deliverable(a: M1Aic, cpu: u32, from: int) -> Option<u8> {
    if exists|s: int| from <= s < 8 && deliverable(a, s, cpu) {
        let s = choose|s: int| from <= s < 8 && deliverable(a, s, cpu) && forall|t: int|
            from <= t < s ==> !deliverable(a, t, cpu);
        Some(s as u8)
    } else {
        None
    }
}

impl M1Aic {
    pub fn reset() -> (a: Self)
        ensures
            a.pending == 0 && a.enabled == u64::MAX,
            a.targets@ == Seq::new(8, |i: int| 1u64),
    {
        let a = M1Aic { pending: 0, enabled: u64::MAX, targets: [1; 8] };
        assert(a.targets@ =~= Seq::new(8, |i: int| 1u64));
        a
    }

    pub fn valid_source(source: u8) -> (b: bool)
        ensures
            b == (source < 8),
    {
        source < 8
    }

    pub fn enable(&mut self, source: u8, enabled: bool) -> (ok: bool)
        ensures
            ok == (source < 8),
            !ok ==> *final(self) == *old(self),
            ok ==> *final(self) == (M1Aic {
                enabled: if enabled {
                    old(self).enabled | (1u64 << source as u64)
                } else {
                    old(self).enabled & !(1u64 << source as u64)
                },
                ..*old(self)
            }),
    {
        if !Self::valid_source(source) {
            return false;
        }
        let bit = 1u64 << (source as u64);
        if enabled {
            self.enabled = self.enabled | bit;
        } else {
            self.enabled = self.enabled & !bit;
        }
        true
    }

    pub fn route(&mut self, source: u8, cpu_mask: u64) -> (ok: bool)
        ensures
            ok == (source < 8 && cpu_mask != 0),
            !ok ==> *final(self) == *old(self),
            ok ==> final(self).targets@ == old(self).targets@.update(source as int, cpu_mask) && final(self).pending
                == old(self).pending && final(self).enabled == old(self).enabled,
    {
        if !Self::valid_source(source) || cpu_mask == 0 {
            return false;
        }
        self.targets[source as usize] = cpu_mask;
        true
    }

    pub fn raise(&mut self, source: u8) -> (ok: bool)
        ensures
            ok == (source < 8),
            !ok ==> *final(self) == *old(self),
            ok ==> *final(self) == (M1Aic { pending: old(self).pending | (1u64 << source as u64), ..*old(self) }),
    {
        if !Self::valid_source(source) {
            return false;
        }
        self.pending = self.pending | (1u64 << (source as u64));
        true
    }

    /// The lowest source pending, enabled and routed to `cpu`.
    pub fn take(&self, cpu: u32) -> (r: Option<u8>)
        ensures
            cpu >= 64 ==> r is None,
            cpu < 64 ==> r == lowest_deliverable(*self, cpu, 0),
    {
        if cpu >= 64 {
            return None;
        }
        self.first_deliverable(cpu, 0)
    }

    /// As `take`, skipping the timer source (it has its own CNTP path).
    pub fn take_non_timer(&self, cpu: u32) -> (r: Option<u8>)
        ensures
            cpu >= 64 ==> r is None,
            cpu < 64 ==> r == lowest_deliverable(*self, cpu, 1),
    {
        if cpu >= 64 {
            return None;
        }
        self.first_deliverable(cpu, 1)
    }

    fn first_deliverable(&self, cpu: u32, from: usize) -> (r: Option<u8>)
        requires
            cpu < 64,
            from <= 8,
        ensures
            r == lowest_deliverable(*self, cpu, from as int),
    {
        let cpu_bit = 1u64 << (cpu as u64);
        let mut source: usize = from;
        while source < 8
            invariant
                from <= source <= 8,
                cpu < 64,
                cpu_bit == 1u64 << cpu as u64,
                forall|t: int| from <= t < source ==> !deliverable(*self, t, cpu),
            decreases 8 - source,
        {
            let bit = 1u64 << (source as u64);
            if self.pending & bit != 0 && self.enabled & bit != 0 && self.targets[source] & cpu_bit != 0 {
                assert(deliverable(*self, source as int, cpu));
                return Some(source as u8);
            }
            source = source + 1;
        }
        None
    }

    /// Clear a pending source; refused when it is not pending.
    pub fn acknowledge(&mut self, source: u8) -> (ok: bool)
        ensures
            ok == (source < 8 && old(self).pending & (1u64 << source as u64) != 0),
            !ok ==> *final(self) == *old(self),
            ok ==> *final(self) == (M1Aic { pending: old(self).pending & !(1u64 << source as u64), ..*old(self) }),
    {
        if !Self::valid_source(source) || self.pending & (1u64 << (source as u64)) == 0 {
            return false;
        }
        self.pending = self.pending & !(1u64 << (source as u64));
        true
    }

    pub fn pending(&self) -> (p: u64)
        ensures
            p == self.pending,
    {
        self.pending
    }
}

#[derive(Clone, Copy, Debug, PartialEq, Eq, Structural)]
pub struct M1Timer {
    pub frequency: u64,
    pub counter: u64,
    pub compare: u64,
    pub enabled: bool,
    pub masked: bool,
}

pub open spec fn m1_timer_pending(t: M1Timer) -> bool {
    t.enabled && !t.masked && t.counter >= t.compare
}

impl M1Timer {
    pub fn reset() -> (t: Self)
        ensures
            t == (M1Timer { frequency: M1_COUNTER_FREQUENCY, counter: 0, compare: 0, enabled: false, masked: false }),
    {
        M1Timer { frequency: M1_COUNTER_FREQUENCY, counter: 0, compare: 0, enabled: false, masked: false }
    }

    pub fn pending(&self) -> (b: bool)
        ensures
            b == m1_timer_pending(*self),
    {
        self.enabled && !self.masked && self.counter >= self.compare
    }

    pub fn advance(&mut self, ticks: u64)
        ensures
            *final(self) == (M1Timer { counter: crate::arch::sat_add(old(self).counter, ticks), ..*old(self) }),
    {
        self.counter = self.counter.saturating_add(ticks);
    }

    pub fn program(&mut self, compare: u64, enabled: bool, masked: bool)
        ensures
            *final(self) == (M1Timer { compare, enabled, masked, ..*old(self) }),
    {
        self.compare = compare;
        self.enabled = enabled;
        self.masked = masked;
    }
}

#[derive(Clone, Copy, Debug, PartialEq, Eq, Structural)]
pub enum M1StorageFault {
    NotAttached,
    InvalidBlock,
    BackendBounds,
    ReadOnly,
}

#[derive(Clone, Copy, Debug, PartialEq, Eq, Structural)]
pub struct M1Storage {
    pub attached: bool,
    pub read_only: bool,
    pub block_count: u64,
    pub generation: u32,
}

/// Where block `block` lies in a caller-owned backend of `backend_len`
/// bytes.
pub open spec fn spec_backend_range(st: M1Storage, block: u64, backend_len: usize) -> Result<(usize, usize), M1StorageFault> {
    let start = block * 4096;
    if !st.attached {
        Err(M1StorageFault::NotAttached)
    } else if block >= st.block_count {
        Err(M1StorageFault::InvalidBlock)
    } else if start + 4096 > backend_len {
        Err(M1StorageFault::BackendBounds)
    } else {
        Ok((start as usize, (start + 4096) as usize))
    }
}

impl M1Storage {
    pub fn reset() -> (st: Self)
        ensures
            st == (M1Storage { attached: false, read_only: false, block_count: 0, generation: 0 }),
    {
        M1Storage { attached: false, read_only: false, block_count: 0, generation: 0 }
    }

    pub fn attach(&mut self, block_count: u64, read_only: bool) -> (ok: bool)
        ensures
            ok == (block_count != 0 && block_count * 4096 <= u64::MAX),
            !ok ==> *final(self) == *old(self),
            ok ==> *final(self) == (M1Storage {
                attached: true,
                read_only,
                block_count,
                generation: sat_inc(old(self).generation),
            }),
    {
        if block_count == 0 || block_count.checked_mul(M1_STORAGE_BLOCK_BYTES as u64).is_none() {
            return false;
        }
        self.attached = true;
        self.read_only = read_only;
        self.block_count = block_count;
        self.generation = self.generation.saturating_add(1);
        true
    }

    pub fn reset_runtime(&mut self)
        ensures
            *final(self) == (M1Storage { attached: false, read_only: false, block_count: 0, generation: 0 }),
    {
        *self = Self::reset();
    }

    pub fn backend_range(&self, block: u64, backend_len: usize) -> (r: Result<(usize, usize), M1StorageFault>)
        ensures
            r == spec_backend_range(*self, block, backend_len),
    {
        if !self.attached {
            return Err(M1StorageFault::NotAttached);
        }
        if block >= self.block_count {
            return Err(M1StorageFault::InvalidBlock);
        }
        let start = match block.checked_mul(4096) {
            Some(v) => v,
            None => return Err(M1StorageFault::BackendBounds),
        };
        if start > backend_len as u64 || backend_len as u64 - start < 4096 {
            return Err(M1StorageFault::BackendBounds);
        }
        Ok((start as usize, start as usize + 4096))
    }

    /// Copy block `block` of the backend into a block-sized destination.
    pub fn read(&self, block: u64, backend: &[u8], destination: &mut [u8]) -> (r: Result<(), M1StorageFault>)
        ensures
            old(destination)@.len() != 4096 ==> r == Err::<(), M1StorageFault>(M1StorageFault::BackendBounds),
            old(destination)@.len() == 4096 ==> match spec_backend_range(*self, block, backend@.len() as usize) {
                Err(f) => r == Err::<(), M1StorageFault>(f),
                Ok((start, end)) => r is Ok && final(destination)@ == backend@.subrange(start as int, end as int),
            },
            r is Err ==> final(destination)@ == old(destination)@,
    {
        if destination.len() != M1_STORAGE_BLOCK_BYTES {
            return Err(M1StorageFault::BackendBounds);
        }
        let (start, end) = match self.backend_range(block, backend.len()) {
            Ok(range) => range,
            Err(f) => return Err(f),
        };
        let mut k: usize = 0;
        while k < 4096
            invariant
                k <= 4096,
                destination@.len() == 4096,
                start + 4096 == end <= backend@.len(),
                forall|j: int| 0 <= j < k ==> destination@[j] == backend@[start + j],
            decreases 4096 - k,
        {
            destination[k] = backend[start + k];
            k = k + 1;
        }
        assert(destination@ =~= backend@.subrange(start as int, end as int));
        Ok(())
    }

    /// Copy a block-sized source over block `block` of the backend.
    pub fn write(&self, block: u64, source: &[u8], backend: &mut [u8]) -> (r: Result<(), M1StorageFault>)
        ensures
            self.read_only ==> r == Err::<(), M1StorageFault>(M1StorageFault::ReadOnly),
            !self.read_only && source@.len() != 4096 ==> r == Err::<(), M1StorageFault>(M1StorageFault::BackendBounds),
            !self.read_only && source@.len() == 4096 ==> match spec_backend_range(*self, block, old(backend)@.len() as usize) {
                Err(f) => r == Err::<(), M1StorageFault>(f),
                Ok((start, end)) => r is Ok && final(backend)@ == old(backend)@.subrange(0, start as int) + source@ + old(
                    backend,
                )@.subrange(end as int, old(backend)@.len() as int),
            },
            r is Err ==> final(backend)@ == old(backend)@,
    {
        if self.read_only {
            return Err(M1StorageFault::ReadOnly);
        }
        if source.len() != M1_STORAGE_BLOCK_BYTES {
            return Err(M1StorageFault::BackendBounds);
        }
        let (start, end) = match self.backend_range(block, backend.len()) {
            Ok(range) => range,
            Err(f) => return Err(f),
        };
        let mut k: usize = 0;
        while k < 4096
            invariant
                k <= 4096,
                source@.len() == 4096,
                start + 4096 == end <= backend@.len(),
                backend@.len() == old(backend)@.len(),
                forall|j: int| 0 <= j < start ==> backend@[j] == old(backend)@[j],
                forall|j: int| end <= j < backend@.len() ==> backend@[j] == old(backend)@[j],
                forall|j: int| 0 <= j < k ==> backend@[start + j] == source@[j],
            decreases 4096 - k,
        {
            backend[start + k] = source[k];
            k = k + 1;
        }
        assert(backend@ =~= old(backend)@.subrange(0, start as int) + source@ + old(backend)@.subrange(
            end as int,
            old(backend)@.len() as int,
        ));
        Ok(())
    }
}

#[derive(Clone, Copy, Debug, PartialEq, Eq, Structural)]
pub enum M1DisplayFormat {
    Xrgb8888,
}

#[derive(Clone, Copy, Debug, PartialEq, Eq, Structural)]
pub enum M1DisplayFault {
    InvalidMode,
    UnsupportedFormat,
    NotConfigured,
    InvalidRegister,
}

#[derive(Clone, Copy, Debug, PartialEq, Eq, Structural)]
pub struct M1Framebuffer {
    pub guest_address: u64,
    pub backing_bytes: u64,
    pub width: u32,
    pub height: u32,
    pub stride: u32,
    pub format: Option<M1DisplayFormat>,
    pub enabled: bool,
    pub presented: bool,
    pub frame_count: u64,
    pub generation: u32,
}

pub open spec fn spec_framebuffer_reset() -> M1Framebuffer {
    M1Framebuffer {
        guest_address: 0,
        backing_bytes: 0,
        width: 0,
        height: 0,
        stride: 0,
        format: None,
        enabled: false,
        presented: false,
        frame_count: 0,
        generation: 0,
    }
}

pub open spec fn fb_configured(f: M1Framebuffer) -> bool {
    f.format is Some && f.width != 0 && f.height != 0 && f.backing_bytes != 0
}

/// An 8-byte aligned framebuffer of at most 8192 x 8192 XRGB pixels whose
/// rows (stride at least four bytes a pixel) fit the backing.
pub open spec fn mode_admissible(guest_address: u64, backing_bytes: u64, width: u32, height: u32, stride: u32) -> bool {
    &&& guest_address % 8 == 0
    &&& backing_bytes != 0
    &&& width != 0 && height != 0
    &&& width <= M1_MAX_DISPLAY_WIDTH && height <= M1_MAX_DISPLAY_HEIGHT
    &&& stride >= (if width * 4 > u32::MAX { u32::MAX as int } else { width * 4 })
    &&& stride * height <= backing_bytes
}

/// The status word: configured, enabled, presented in bits 0-2.
pub open spec fn fb_status(f: M1Framebuffer) -> u64 {
    ((if fb_configured(f) { 1int } else { 0 }) + (if f.enabled { 2int } else { 0 }) + (if f.presented { 4int } else { 0 })) as u64
}

/// The display registers, 32-bit only.
pub open spec fn spec_fb_read(f: M1Framebuffer, offset: u64, width: u32) -> Option<u64> {
    if width != 4 {
        None
    } else if offset == 0 {
        Some(fb_status(f))
    } else if offset == 4 {
        Some(f.width as u64)
    } else if offset == 8 {
        Some(f.height as u64)
    } else if offset == 0x0c {
        Some(f.stride as u64)
    } else if offset == 0x10 {
        Some(f.frame_count)
    } else {
        None
    }
}

pub open spec fn presented(f: M1Framebuffer) -> M1Framebuffer {
    M1Framebuffer { enabled: true, presented: true, frame_count: crate::arch::sat_add(f.frame_count, 1), ..f }
}

impl M1Framebuffer {
    pub fn reset() -> (f: Self)
        ensures
            f == spec_framebuffer_reset(),
    {
        M1Framebuffer {
            guest_address: 0,
            backing_bytes: 0,
            width: 0,
            height: 0,
            stride: 0,
            format: None,
            enabled: false,
            presented: false,
            frame_count: 0,
            generation: 0,
        }
    }

    pub fn configured(&self) -> (b: bool)
        ensures
            b == fb_configured(*self),
    {
        self.format.is_some() && self.width != 0 && self.height != 0 && self.backing_bytes != 0
    }

    pub fn configure(&mut self, guest_address: u64, backing_bytes: u64, width: u32, height: u32, stride: u32, format: M1DisplayFormat) -> (r: Result<(), M1DisplayFault>)
        ensures
            (r is Ok) == mode_admissible(guest_address, backing_bytes, width, height, stride),
            r is Err ==> r == Err::<(), M1DisplayFault>(M1DisplayFault::InvalidMode) && *final(self) == *old(self),
            r is Ok ==> *final(self) == (M1Framebuffer {
                guest_address,
                backing_bytes,
                width,
                height,
                stride,
                format: Some(format),
                enabled: false,
                presented: false,
                generation: sat_inc(old(self).generation),
                ..*old(self)
            }),
    {
        proof {
            assert(guest_address & 7 == guest_address % 8) by {
                crate::bits::lemma_u64_bits(guest_address);
            }
            assert((stride as u64) * (height as u64) <= 0xffff_ffff * 0xffff_ffff) by (nonlinear_arith)
                requires
                    stride <= 0xffff_ffff,
                    height <= 0xffff_ffff,
            ;
        }
        let required = (stride as u64) * (height as u64);
        if guest_address & 7 != 0 || backing_bytes == 0 || width == 0 || height == 0 || width > M1_MAX_DISPLAY_WIDTH
            || height > M1_MAX_DISPLAY_HEIGHT || stride < width * 4 || required > backing_bytes {
            return Err(M1DisplayFault::InvalidMode);
        }
        self.guest_address = guest_address;
        self.backing_bytes = backing_bytes;
        self.width = width;
        self.height = height;
        self.stride = stride;
        self.format = Some(format);
        self.enabled = false;
        self.presented = false;
        self.generation = self.generation.saturating_add(1);
        Ok(())
    }

    pub fn present(&mut self) -> (r: Result<(), M1DisplayFault>)
        ensures
            (r is Ok) == fb_configured(*old(self)),
            r is Err ==> r == Err::<(), M1DisplayFault>(M1DisplayFault::NotConfigured) && *final(self) == *old(self),
            r is Ok ==> *final(self) == presented(*old(self)),
    {
        if !self.configured() {
            return Err(M1DisplayFault::NotConfigured);
        }
        self.enabled = true;
        self.presented = true;
        self.frame_count = self.frame_count.saturating_add(1);
        Ok(())
    }

    pub fn read_mmio(&self, offset: u64, width: u32) -> (r: Option<u64>)
        ensures
            r == spec_fb_read(*self, offset, width),
    {
        if width != 4 {
            return None;
        }
        if offset == 0 {
            let c: u64 = if self.configured() { 1 } else { 0 };
            let e: u64 = if self.enabled { 2 } else { 0 };
            let p: u64 = if self.presented { 4 } else { 0 };
            Some(c + e + p)
        } else if offset == 4 {
            Some(self.width as u64)
        } else if offset == 8 {
            Some(self.height as u64)
        } else if offset == 0x0c {
            Some(self.stride as u64)
        } else if offset == 0x10 {
            Some(self.frame_count)
        } else {
            None
        }
    }

    /// Control register: 0 blanks, 1 presents a frame.
    pub fn write_mmio(&mut self, offset: u64, width: u32, value: u64) -> (r: Result<(), M1DisplayFault>)
        ensures
            (width != 4 || offset != 0 || (value as u32 != 0 && value as u32 != 1)) ==> r == Err::<(), M1DisplayFault>(
                M1DisplayFault::InvalidRegister,
            ) && *final(self) == *old(self),
            width == 4 && offset == 0 && value as u32 == 0 ==> r is Ok && *final(self) == (M1Framebuffer {
                enabled: false,
                ..*old(self)
            }),
            width == 4 && offset == 0 && value as u32 == 1 ==> if fb_configured(*old(self)) {
                r is Ok && *final(self) == presented(*old(self))
            } else {
                r == Err::<(), M1DisplayFault>(M1DisplayFault::NotConfigured) && *final(self) == *old(self)
            },
    {
        if width != 4 || offset != 0 {
            return Err(M1DisplayFault::InvalidRegister);
        }
        let v = value as u32;
        if v == 0 {
            self.enabled = false;
            Ok(())
        } else if v == 1 {
            self.present()
        } else {
            Err(M1DisplayFault::InvalidRegister)
        }
    }
}

#[derive(Clone, Copy, Debug, PartialEq, Eq, Structural)]
pub enum M1RecoveryFault {
    ShortFrame,
    BadMagic,
    BadLength,
    BadChecksum,
    Sequence,
    PayloadTooLarge,
    OutputTooSmall,
}

/// One CRC-32 (reflected, polynomial 0xedb88320) shift step.
pub open spec fn crc_shift(c: u32) -> u32 {
    if c & 1 == 1 { (c >> 1u32) ^ 0xedb8_8320 } else { c >> 1u32 }
}

pub open spec fn crc_shifts(c: u32, n: nat) -> u32
    decreases n,
{
    if n == 0 { c } else { crc_shifts(crc_shift(c), (n - 1) as nat) }
}

/// The CRC register after feeding `bytes` from the all-ones start.
pub open spec fn crc_register(bytes: Seq<u8>) -> u32
    decreases bytes.len(),
{
    if bytes.len() == 0 {
        0xffff_ffff
    } else {
        crc_shifts(crc_register(bytes.drop_last()) ^ (bytes.last() as u32), 8)
    }
}

/// CRC-32 of `bytes`.
pub open spec fn spec_crc32(bytes: Seq<u8>) -> u32 {
    !crc_register(bytes)
}

/// The all-ones or all-zeros mask selects the CRC polynomial or nothing.
proof fn lemma_crc_mask(c: u32, mask: u32)
    by (bit_vector)
    ensures
        mask == 0xffff_ffff ==> (c >> 1u32) ^ (0xedb8_8320u32 & mask) == (c >> 1u32) ^ 0xedb8_8320u32,
        mask == 0 ==> (c >> 1u32) ^ (0xedb8_8320u32 & mask) == c >> 1u32,
{
}

pub fn crc32(bytes: &[u8]) -> (c: u32)
    ensures
        c == spec_crc32(bytes@),
{
    let mut crc: u32 = 0xffff_ffff;
    let mut i: usize = 0;
    while i < bytes.len()
        invariant
            i <= bytes@.len(),
            crc == crc_register(bytes@.subrange(0, i as int)),
        decreases bytes@.len() - i,
    {
        proof {
            assert(bytes@.subrange(0, i + 1).drop_last() =~= bytes@.subrange(0, i as int));
        }
        let mut c = crc ^ (bytes[i] as u32);
        let ghost start = c;
        let mut bit: u32 = 0;
        while bit < 8
            invariant
                bit <= 8,
                crc_shifts(start, 8) == crc_shifts(c, (8 - bit) as nat),
            decreases 8 - bit,
        {
            let mask: u32 = if c & 1 != 0 { 0xffff_ffff } else { 0 };
            proof {
                lemma_crc_mask(c, mask);
                assert((c & 1 != 0) == (c & 1 == 1)) by {
                    crate::bits::lemma_u32_bits(c);
                }
            }
            c = (c >> 1u32) ^ (0xedb8_8320 & mask);
            bit = bit + 1;
        }
        crc = c;
        i = i + 1;
    }
    assert(bytes@.subrange(0, bytes@.len() as int) =~= bytes@);
    !crc
}

/// Write `value` little-endian into the four bytes at `at`.
pub fn put_u32(destination: &mut [u8], at: usize, value: u32)
    requires
        at + 4 <= old(destination)@.len(),
    ensures
        final(destination)@ == old(destination)@.subrange(0, at as int) + vstd::bytes::spec_u32_to_le_bytes(value)
            + old(destination)@.subrange(at + 4, old(destination)@.len() as int),
        final(destination)@.len() == old(destination)@.len(),
{
    proof {
        vstd::bytes::lemma_auto_spec_u32_to_from_le_bytes();
    }
    let bytes = vstd::bytes::u32_to_le_bytes(value);
    destination[at] = bytes[0];
    destination[at + 1] = bytes[1];
    destination[at + 2] = bytes[2];
    destination[at + 3] = bytes[3];
    assert(destination@ =~= old(destination)@.subrange(0, at as int) + vstd::bytes::spec_u32_to_le_bytes(value)
        + old(destination)@.subrange(at + 4, old(destination)@.len() as int));
}

/// The little-endian word in the first four bytes.
pub fn read_u32(source: &[u8]) -> (v: u32)
    requires
        source@.len() >= 4,
    ensures
        v == vstd::bytes::spec_u32_from_le_bytes(source@.subrange(0, 4)),
{
    vstd::bytes::u32_from_le_bytes(vstd::slice::slice_subrange(source, 0, 4))
}

/// Bounded envelope for recovery data: opaque bytes with a CRC for
/// transport integrity.  `signature_verified` stays false until an
/// external trust-chain verifier supplies evidence.
#[derive(Clone, Copy)]
pub struct M1RecoveryTransport {
    pub expected_sequence: u32,
    pub last_sequence: u32,
    pub flags: u32,
    pub payload: [u8; 1024],
    pub payload_len: usize,
    pub ready: bool,
    pub signature_verified: bool,
}

/// The 32-bit little-endian header field `k` of a frame.
pub open spec fn frame_field(frame: Seq<u8>, k: int) -> u32 {
    vstd::bytes::spec_u32_from_le_bytes(frame.subrange(4 * k, 4 * k + 4))
}

/// The envelope of `payload`: magic, sequence, flags, length and CRC-32 as
/// little-endian words, then the payload.
pub open spec fn frame_bytes(sequence: u32, flags: u32, payload: Seq<u8>) -> Seq<u8> {
    vstd::bytes::spec_u32_to_le_bytes(RECOVERY_MAGIC) + vstd::bytes::spec_u32_to_le_bytes(sequence)
        + vstd::bytes::spec_u32_to_le_bytes(flags) + vstd::bytes::spec_u32_to_le_bytes(payload.len() as u32)
        + vstd::bytes::spec_u32_to_le_bytes(spec_crc32(payload)) + payload
}

/// The payload the transport holds.
pub open spec fn held_payload(t: M1RecoveryTransport) -> Seq<u8> {
    t.payload@.subrange(0, t.payload_len as int)
}

/// What ingesting `frame` reports.
pub open spec fn spec_ingest_result(t: M1RecoveryTransport, frame: Seq<u8>) -> Result<usize, M1RecoveryFault> {
    let len = frame_field(frame, 3);
    if frame.len() < 20 {
        Err(M1RecoveryFault::ShortFrame)
    } else if frame_field(frame, 0) != RECOVERY_MAGIC {
        Err(M1RecoveryFault::BadMagic)
    } else if len > 1024 {
        Err(M1RecoveryFault::PayloadTooLarge)
    } else if frame.len() != 20 + len {
        Err(M1RecoveryFault::BadLength)
    } else if frame_field(frame, 4) != spec_crc32(frame.subrange(20, frame.len() as int)) {
        Err(M1RecoveryFault::BadChecksum)
    } else if frame_field(frame, 1) != t.expected_sequence {
        Err(M1RecoveryFault::Sequence)
    } else {
        Ok(len as usize)
    }
}

pub open spec fn recovery_wf(t: M1RecoveryTransport) -> bool {
    t.payload_len <= 1024
}

impl M1RecoveryTransport {
    pub fn reset() -> (t: Self)
        ensures
            t.expected_sequence == 0 && t.last_sequence == 0 && t.flags == 0,
            t.payload@ == Seq::new(1024, |i: int| 0u8),
            t.payload_len == 0 && !t.ready && !t.signature_verified,
    {
        let t = M1RecoveryTransport {
            expected_sequence: 0,
            last_sequence: 0,
            flags: 0,
            payload: [0; 1024],
            payload_len: 0,
            ready: false,
            signature_verified: false,
        };
        assert(t.payload@ =~= Seq::new(1024, |i: int| 0u8));
        t
    }

    /// Frame `payload` into `output`; returns the frame length.
    pub fn encode(sequence: u32, flags: u32, payload: &[u8], output: &mut [u8]) -> (r: Result<usize, M1RecoveryFault>)
        ensures
            payload@.len() > 1024 ==> r == Err::<usize, M1RecoveryFault>(M1RecoveryFault::PayloadTooLarge),
            payload@.len() <= 1024 && old(output)@.len() < 20 + payload@.len() ==> r == Err::<usize, M1RecoveryFault>(
                M1RecoveryFault::OutputTooSmall,
            ),
            payload@.len() <= 1024 && old(output)@.len() >= 20 + payload@.len() ==> r == Ok::<usize, M1RecoveryFault>(
                (20 + payload@.len()) as usize,
            ),
            r is Err ==> final(output)@ == old(output)@,
            r matches Ok(total) ==> {
                &&& total == 20 + payload@.len()
                &&& final(output)@.len() == old(output)@.len()
                &&& final(output)@.subrange(0, total as int) == frame_bytes(sequence, flags, payload@)
                &&& final(output)@.subrange(total as int, old(output)@.len() as int) == old(output)@.subrange(
                    total as int,
                    old(output)@.len() as int,
                )
            },
    {
        if payload.len() > M1_MAX_RECOVERY_PAYLOAD {
            return Err(M1RecoveryFault::PayloadTooLarge);
        }
        let total = M1_RECOVERY_HEADER_BYTES + payload.len();
        if output.len() < total {
            return Err(M1RecoveryFault::OutputTooSmall);
        }
        let crc = crc32(payload);
        proof {
            vstd::bytes::lemma_auto_spec_u32_to_from_le_bytes();
        }
        put_u32(output, 0, RECOVERY_MAGIC);
        assert(output@.len() == old(output)@.len());
        let ghost h0 = output@.subrange(0, 4);
        put_u32(output, 4, sequence);
        assert(output@.len() == old(output)@.len());
        assert(output@.subrange(0, 4) =~= h0);
        let ghost h1 = output@.subrange(0, 8);
        put_u32(output, 8, flags);
        assert(output@.len() == old(output)@.len());
        assert(output@.subrange(0, 8) =~= h1);
        let ghost h2 = output@.subrange(0, 12);
        put_u32(output, 12, payload.len() as u32);
        assert(output@.len() == old(output)@.len());
        assert(output@.subrange(0, 12) =~= h2);
        let ghost h3 = output@.subrange(0, 16);
        put_u32(output, 16, crc);
        assert(output@.len() == old(output)@.len());
        assert(output@.subrange(0, 16) =~= h3);
        let ghost header = output@.subrange(0, 20);
        assert(header =~= frame_bytes(sequence, flags, payload@).subrange(0, 20));
        let mut k: usize = 0;
        while k < payload.len()
            invariant
                k <= payload@.len() <= 1024,
                total == 20 + payload@.len(),
                total <= output@.len(),
                output@.len() == old(output)@.len(),
                output@.subrange(0, 20) == header,
                forall|j: int| 0 <= j < k ==> output@[20 + j] == payload@[j],
                forall|j: int| total <= j < output@.len() ==> output@[j] == old(output)@[j],
            decreases payload@.len() - k,
        {
            output[20 + k] = payload[k];
            proof {
                assert(output@.subrange(0, 20) =~= header);
            }
            k = k + 1;
        }
        assert(output@.subrange(0, total as int) =~= frame_bytes(sequence, flags, payload@));
        assert(output@.subrange(total as int, old(output)@.len() as int) =~= old(output)@.subrange(
            total as int,
            old(output)@.len() as int,
        ));
        Ok(total)
    }

    /// Accept the next envelope: magic, length, CRC and sequence checked
    /// in that order; a refusal leaves the transport unchanged.
    pub fn ingest(&mut self, frame: &[u8]) -> (r: Result<usize, M1RecoveryFault>)
        ensures
            r == spec_ingest_result(*old(self), frame@),
            r is Err ==> *final(self) == *old(self),
            r matches Ok(len) ==> {
                &&& held_payload(*final(self)) == frame@.subrange(20, frame@.len() as int)
                &&& final(self).payload_len == len
                &&& final(self).flags == frame_field(frame@, 2)
                &&& final(self).last_sequence == frame_field(frame@, 1)
                &&& final(self).expected_sequence == ((old(self).expected_sequence + 1) % 0x1_0000_0000) as u32
                &&& final(self).ready && !final(self).signature_verified
                &&& recovery_wf(*final(self))
            },
    {
        if frame.len() < M1_RECOVERY_HEADER_BYTES {
            return Err(M1RecoveryFault::ShortFrame);
        }
        proof {
            assert(frame@.subrange(0, 4).subrange(0, 4) =~= frame@.subrange(0, 4));
            assert(frame@.subrange(4, 8).subrange(0, 4) =~= frame@.subrange(4, 8));
            assert(frame@.subrange(8, 12).subrange(0, 4) =~= frame@.subrange(8, 12));
            assert(frame@.subrange(12, 16).subrange(0, 4) =~= frame@.subrange(12, 16));
            assert(frame@.subrange(16, 20).subrange(0, 4) =~= frame@.subrange(16, 20));
        }
        if read_u32(vstd::slice::slice_subrange(frame, 0, 4)) != RECOVERY_MAGIC {
            return Err(M1RecoveryFault::BadMagic);
        }
        let sequence = read_u32(vstd::slice::slice_subrange(frame, 4, 8));
        let flags = read_u32(vstd::slice::slice_subrange(frame, 8, 12));
        let payload_len = read_u32(vstd::slice::slice_subrange(frame, 12, 16)) as usize;
        if payload_len > M1_MAX_RECOVERY_PAYLOAD {
            return Err(M1RecoveryFault::PayloadTooLarge);
        }
        let total = M1_RECOVERY_HEADER_BYTES + payload_len;
        if frame.len() != total {
            return Err(M1RecoveryFault::BadLength);
        }
        let payload = vstd::slice::slice_subrange(frame, M1_RECOVERY_HEADER_BYTES, total);
        if read_u32(vstd::slice::slice_subrange(frame, 16, 20)) != crc32(payload) {
            return Err(M1RecoveryFault::BadChecksum);
        }
        if sequence != self.expected_sequence {
            return Err(M1RecoveryFault::Sequence);
        }
        let mut k: usize = 0;
        while k < payload_len
            invariant
                k <= payload_len <= 1024,
                payload@.len() == payload_len,
                self.payload@.len() == 1024,
                forall|j: int| 0 <= j < k ==> self.payload@[j] == payload@[j],
                self.expected_sequence == old(self).expected_sequence,
            decreases payload_len - k,
        {
            self.payload[k] = payload[k];
            k = k + 1;
        }
        self.payload_len = payload_len;
        self.flags = flags;
        self.last_sequence = sequence;
        self.expected_sequence = self.expected_sequence.wrapping_add(1);
        self.ready = true;
        self.signature_verified = false;
        assert(held_payload(*self) =~= frame@.subrange(20, frame@.len() as int));
        Ok(payload_len)
    }

    /// The payload of the last accepted envelope.
    pub fn payload(&self) -> (p: &[u8])
        requires
            recovery_wf(*self),
        ensures
            p@ == held_payload(*self),
    {
        vstd::slice::slice_subrange(vstd::array::array_as_slice(&self.payload), 0, self.payload_len)
    }

    pub fn reset_runtime(&mut self)
        ensures
            final(self).expected_sequence == 0 && final(self).last_sequence == 0 && final(self).flags == 0,
            final(self).payload_len == 0 && !final(self).ready && !final(self).signature_verified,
    {
        *self = Self::reset();
    }
}

/// An envelope encoded for the sequence the transport expects is accepted
/// whole: the payload comes back unchanged.
pub proof fn lemma_recovery_round_trip(t: M1RecoveryTransport, flags: u32, payload: Seq<u8>)
    requires
        payload.len() <= 1024,
    ensures
        spec_ingest_result(t, frame_bytes(t.expected_sequence, flags, payload)) == Ok::<usize, M1RecoveryFault>(
            payload.len() as usize,
        ),
        frame_bytes(t.expected_sequence, flags, payload).subrange(20, 20 + payload.len() as int) == payload,
        frame_field(frame_bytes(t.expected_sequence, flags, payload), 2) == flags,
{
    vstd::bytes::lemma_auto_spec_u32_to_from_le_bytes();
    let f = frame_bytes(t.expected_sequence, flags, payload);
    let w = |x: u32| vstd::bytes::spec_u32_to_le_bytes(x);
    assert(f.len() == 20 + payload.len());
    assert(f.subrange(0, 4) =~= w(RECOVERY_MAGIC));
    assert(f.subrange(4, 8) =~= w(t.expected_sequence));
    assert(f.subrange(8, 12) =~= w(flags));
    assert(f.subrange(12, 16) =~= w(payload.len() as u32));
    assert(f.subrange(16, 20) =~= w(spec_crc32(payload)));
    assert(f.subrange(20, f.len() as int) =~= payload);
}

/// The native M1 graph.  All components reset together, so a handoff
/// never observes a half-reset device set.
pub struct M1MachineGraph {
    pub identity: M1FirmwareIdentity,
    pub ram_bytes: u64,
    pub devices: [M1DeviceDescriptor; 8],
    pub device_count: u32,
    pub aic: M1Aic,
    pub timer: M1Timer,
    pub dart: M1Dart,
    pub storage: M1Storage,
    pub recovery: M1RecoveryTransport,
    pub display: M1Framebuffer,
    pub handoff: M1FirmwareHandoff,
    pub reset_generation: u32,
    pub runtime_active: bool,
    pub uart_last_byte: u8,
}

/// The device kinds in window order.
pub open spec fn kind_at(i: int) -> M1DeviceKind {
    if i == 0 {
        M1DeviceKind::Firmware
    } else if i == 1 {
        M1DeviceKind::Aic
    } else if i == 2 {
        M1DeviceKind::Timer
    } else if i == 3 {
        M1DeviceKind::Dart
    } else if i == 4 {
        M1DeviceKind::Storage
    } else if i == 5 {
        M1DeviceKind::Recovery
    } else if i == 6 {
        M1DeviceKind::Display
    } else {
        M1DeviceKind::Uart
    }
}

pub open spec fn device_ok(d: M1DeviceDescriptor) -> bool {
    d.contract_ready && d.guest_visible
}

/// The graph is complete and consistent, and claims no signature.
pub open spec fn graph_valid(g: M1MachineGraph) -> bool {
    &&& identity_valid(g.identity)
    &&& g.ram_bytes != 0
    &&& g.device_count == 8
    &&& forall|i: int| 0 <= i < 8 ==> #[trigger] device_ok(g.devices@[i])
    &&& dart_valid(g.dart)
    &&& g.timer.frequency == M1_COUNTER_FREQUENCY
    &&& g.reset_generation != 0
    &&& !g.handoff.signature_verified
    &&& !g.recovery.signature_verified
}

/// The state that a reset gives every runtime component: the AIC with every
/// source enabled and routed to CPU 0, nothing pending; the timer stopped at
/// the counter frequency; no DMA mapping; no storage; an idle recovery
/// transport; the reset display and handoff; the runtime inactive.
pub open spec fn reset_components(n: M1MachineGraph) -> bool {
    &&& n.aic.pending == 0 && n.aic.enabled == u64::MAX && n.aic.targets@ == Seq::new(8, |i: int| 1u64)
    &&& n.timer == (M1Timer { frequency: M1_COUNTER_FREQUENCY, counter: 0, compare: 0, enabled: false, masked: false })
    &&& n.dart.mappings@ == Seq::new(16, |i: int| spec_empty_mapping()) && n.dart.mapping_count == 0
    &&& n.storage == (M1Storage { attached: false, read_only: false, block_count: 0, generation: 0 })
    &&& n.recovery.payload_len == 0 && n.recovery.expected_sequence == 0 && n.recovery.last_sequence == 0
    &&& !n.recovery.ready && !n.recovery.signature_verified && n.recovery.flags == 0
    &&& n.display == spec_framebuffer_reset()
    &&& n.handoff == spec_handoff_initial()
    &&& !n.runtime_active && n.uart_last_byte == 0
}

/// The graph's components after a reset (identity, RAM size and the
/// device table are kept; the DART generation moves on).
pub open spec fn graph_reset(g: M1MachineGraph, n: M1MachineGraph) -> bool {
    &&& n.identity == g.identity && n.ram_bytes == g.ram_bytes && n.devices == g.devices && n.device_count
        == g.device_count
    &&& reset_components(n)
    &&& n.dart.ram_bytes == g.dart.ram_bytes && n.dart.generation == sat_inc(g.dart.generation)
    &&& n.reset_generation == sat_inc(g.reset_generation)
}

/// The graph with the AIC replaced.
pub open spec fn with_aic(g: M1MachineGraph, a: M1Aic) -> M1MachineGraph {
    M1MachineGraph { aic: a, ..g }
}

/// The AIC after raising `source` (a no-op for an invalid source).
pub open spec fn aic_raised(a: M1Aic, source: u8) -> M1Aic {
    if source < 8 { M1Aic { pending: a.pending | (1u64 << source as u64), ..a } } else { a }
}

/// The AIC after acknowledging `source`, when it was pending.
pub open spec fn aic_acked(a: M1Aic, source: u8) -> M1Aic {
    if source < 8 && a.pending & (1u64 << source as u64) != 0 {
        M1Aic { pending: a.pending & !(1u64 << source as u64), ..a }
    } else {
        a
    }
}

impl M1MachineGraph {
    pub fn new(ram_bytes: u64) -> (g: Self)
        ensures
            g.ram_bytes == ram_bytes,
            is_identity_t8103(g.identity),
            g.device_count == 8,
            forall|i: int| 0 <= i < 8 ==> #[trigger] g.devices@[i] == (M1DeviceDescriptor {
                kind: kind_at(i),
                instance: 0,
                contract_ready: true,
                guest_visible: true,
            }),
            reset_components(g),
            g.dart.ram_bytes == ram_bytes && g.dart.generation == 1,
            g.reset_generation == 1,
            ram_bytes != 0 ==> graph_valid(g),
            recovery_wf(g.recovery),
    {
        let d = empty_device();
        let mut graph = M1MachineGraph {
            identity: M1FirmwareIdentity::t8103(),
            ram_bytes,
            devices: [d; 8],
            device_count: 0,
            aic: M1Aic::reset(),
            timer: M1Timer::reset(),
            dart: M1Dart::new(ram_bytes),
            storage: M1Storage::reset(),
            recovery: M1RecoveryTransport::reset(),
            display: M1Framebuffer::reset(),
            handoff: M1FirmwareHandoff::initial(),
            reset_generation: 0,
            runtime_active: false,
            uart_last_byte: 0,
        };
        let kinds = [
            M1DeviceKind::Firmware,
            M1DeviceKind::Aic,
            M1DeviceKind::Timer,
            M1DeviceKind::Dart,
            M1DeviceKind::Storage,
            M1DeviceKind::Recovery,
            M1DeviceKind::Display,
            M1DeviceKind::Uart,
        ];
        let mut i: usize = 0;
        while i < 8
            invariant
                i <= 8,
                graph.device_count == i,
                kinds@ == seq![
                    M1DeviceKind::Firmware,
                    M1DeviceKind::Aic,
                    M1DeviceKind::Timer,
                    M1DeviceKind::Dart,
                    M1DeviceKind::Storage,
                    M1DeviceKind::Recovery,
                    M1DeviceKind::Display,
                    M1DeviceKind::Uart,
                ],
                forall|j: int| 0 <= j < i ==> #[trigger] graph.devices@[j] == (M1DeviceDescriptor {
                    kind: kind_at(j),
                    instance: 0,
                    contract_ready: true,
                    guest_visible: true,
                }),
                graph.ram_bytes == ram_bytes,
                identity_valid(graph.identity),
                is_identity_t8103(graph.identity),
                graph.identity.board_id_len == 0,
                graph.dart.generation == 0,
                graph.dart.mapping_count == 0 && graph.dart.ram_bytes == ram_bytes,
                graph.dart.mappings@ == Seq::new(16, |i: int| spec_empty_mapping()),
                graph.reset_generation == 0,
                recovery_wf(graph.recovery),
                !graph.handoff.signature_verified && !graph.recovery.signature_verified,
            decreases 8 - i,
        {
            graph.devices[i] = M1DeviceDescriptor { kind: kinds[i], instance: 0, contract_ready: true, guest_visible: true };
            graph.device_count = graph.device_count + 1;
            i = i + 1;
        }
        graph.reset();
        proof {
            assert(graph.dart.mappings@ =~= Seq::new(16, |i: int| spec_empty_mapping()));
            assert(live_count(graph.dart.mappings@) == 0) by {
                lemma_live_count_empty(graph.dart.mappings@);
            }
        }
        graph
    }

    pub fn reset(&mut self)
        ensures
            graph_reset(*old(self), *final(self)),
    {
        self.aic = M1Aic::reset();
        self.timer = M1Timer::reset();
        self.dart.reset();
        self.storage.reset_runtime();
        self.recovery.reset_runtime();
        self.display = M1Framebuffer::reset();
        self.handoff.reset();
        self.runtime_active = false;
        self.uart_last_byte = 0;
        self.reset_generation = self.reset_generation.saturating_add(1);
    }

    /// Wire the contract-backed interrupt sources (timer, storage, display,
    /// recovery) to CPU 0 and enable them; refused on an invalid graph.
    pub fn activate_runtime(&mut self) -> (ok: bool)
        ensures
            ok == graph_valid(*old(self)),
            !ok ==> *final(self) == *old(self),
            ok ==> {
                &&& final(self).runtime_active
                &&& final(self).aic.targets@ == old(self).aic.targets@.update(0, 1).update(1, 1).update(2, 1).update(3, 1)
                &&& final(self).aic.enabled == old(self).aic.enabled | 0xf
                &&& final(self).aic.pending == old(self).aic.pending
                &&& *final(self) == (M1MachineGraph { aic: final(self).aic, runtime_active: true, ..*old(self) })
            },
    {
        if !self.valid() {
            return false;
        }
        let e0 = self.aic.enabled;
        self.aic.route(TIMER_SOURCE, 1);
        self.aic.enable(TIMER_SOURCE, true);
        self.aic.route(STORAGE_SOURCE, 1);
        self.aic.enable(STORAGE_SOURCE, true);
        self.aic.route(DISPLAY_SOURCE, 1);
        self.aic.enable(DISPLAY_SOURCE, true);
        self.aic.route(RECOVERY_SOURCE, 1);
        self.aic.enable(RECOVERY_SOURCE, true);
        assert(e0 | (1u64 << 0u64) | (1u64 << 1u64) | (1u64 << 2u64) | (1u64 << 3u64) == e0 | 0xf) by {
            crate::bits::lemma_u64_bits(e0);
        }
        self.runtime_active = true;
        true
    }

    /// Mirror the architectural timer after a retired instruction and keep
    /// the AIC timer source in step; refused before activation.
    pub fn sync_guest_timer(&mut self, counter: u64, ctl: u64, cval: u64) -> (ok: bool)
        ensures
            ok == old(self).runtime_active,
            !ok ==> *final(self) == *old(self),
            ok ==> {
                let t = M1Timer { counter, compare: cval, enabled: ctl & 1 != 0, masked: ctl & 2 != 0, ..old(self).timer };
                &&& final(self).timer == t
                &&& final(self).aic == if m1_timer_pending(t) {
                    aic_raised(old(self).aic, TIMER_SOURCE)
                } else {
                    aic_acked(old(self).aic, TIMER_SOURCE)
                }
                &&& *final(self) == (M1MachineGraph { timer: t, aic: final(self).aic, ..*old(self) })
            },
    {
        if !self.runtime_active {
            return false;
        }
        assert(1u64 << 0u64 == 1) by {
            crate::bits::lemma_bit_constants();
        }
        self.timer.counter = counter;
        self.timer.program(cval, ctl & 1 != 0, ctl & 2 != 0);
        if self.timer.pending() {
            let _ = self.aic.raise(TIMER_SOURCE);
        } else if self.aic.pending() & 1 != 0 {
            let _ = self.aic.acknowledge(TIMER_SOURCE);
        }
        true
    }

    pub fn tick(&mut self, ticks: u64)
        ensures
            ({
                let t = M1Timer { counter: crate::arch::sat_add(old(self).timer.counter, ticks), ..old(self).timer };
                *final(self) == M1MachineGraph {
                    timer: t,
                    aic: if m1_timer_pending(t) { aic_raised(old(self).aic, TIMER_SOURCE) } else { old(self).aic },
                    ..*old(self)
                }
            }),
    {
        self.timer.advance(ticks);
        if self.timer.pending() {
            let _ = self.aic.raise(TIMER_SOURCE);
        }
    }

    pub fn program_timer(&mut self, compare: u64, enabled: bool, masked: bool)
        ensures
            ({
                let t = M1Timer { compare, enabled, masked, ..old(self).timer };
                *final(self) == M1MachineGraph {
                    timer: t,
                    aic: if m1_timer_pending(t) { old(self).aic } else { aic_acked(old(self).aic, TIMER_SOURCE) },
                    ..*old(self)
                }
            }),
    {
        self.timer.program(compare, enabled, masked);
        if !self.timer.pending() {
            let _ = self.aic.acknowledge(TIMER_SOURCE);
        }
    }

    pub fn route_interrupt(&mut self, source: u8, cpu_mask: u64) -> (ok: bool)
        ensures
            ok == (source < 8 && cpu_mask != 0),
            !ok ==> *final(self) == *old(self),
            ok ==> final(self).aic.targets@ == old(self).aic.targets@.update(source as int, cpu_mask)
                && final(self).aic.pending == old(self).aic.pending && final(self).aic.enabled == old(self).aic.enabled
                && *final(self) == (M1MachineGraph { aic: final(self).aic, ..*old(self) }),
    {
        self.aic.route(source, cpu_mask)
    }

    pub fn enable_interrupt(&mut self, source: u8, enabled: bool) -> (ok: bool)
        ensures
            ok == (source < 8),
            !ok ==> *final(self) == *old(self),
            ok ==> *final(self) == (M1MachineGraph {
                aic: M1Aic {
                    enabled: if enabled {
                        old(self).aic.enabled | (1u64 << source as u64)
                    } else {
                        old(self).aic.enabled & !(1u64 << source as u64)
                    },
                    ..old(self).aic
                },
                ..*old(self)
            }),
    {
        self.aic.enable(source, enabled)
    }

    pub fn raise_interrupt(&mut self, source: u8) -> (ok: bool)
        ensures
            ok == (source < 8),
            *final(self) == with_aic(*old(self), aic_raised(old(self).aic, source)),
    {
        self.aic.raise(source)
    }

    pub fn take_interrupt(&self, cpu: u32) -> (r: Option<u8>)
        ensures
            cpu >= 64 ==> r is None,
            cpu < 64 ==> r == lowest_deliverable(self.aic, cpu, 0),
    {
        self.aic.take(cpu)
    }

    pub fn acknowledge_interrupt(&mut self, source: u8) -> (ok: bool)
        ensures
            ok == (source < 8 && old(self).aic.pending & (1u64 << source as u64) != 0),
            *final(self) == with_aic(*old(self), aic_acked(old(self).aic, source)),
    {
        self.aic.acknowledge(source)
    }

    pub fn map_dma(&mut self, stream_id: u16, iova: u64, pa: u64, bytes: u64, access: M1DmaAccess) -> (r: Result<(), M1DmaFault>)
        ensures
            r is Err ==> *final(self) == *old(self),
            (r is Ok) == (map_arguments_valid(iova, pa, bytes, old(self).dart.ram_bytes) && none_where(
                old(self).dart.mappings@,
                |m: M1DartMapping| conflicts(m, stream_id, iova, bytes),
            ) && !none_where(old(self).dart.mappings@, |m: M1DartMapping| is_free(m))),
            r is Ok ==> exists|i: int|
                first_where(old(self).dart.mappings@, |m: M1DartMapping| is_free(m), i) && final(self).dart.mappings@
                    == #[trigger] old(self).dart.mappings@.update(
                    i,
                    M1DartMapping { valid: true, stream_id, iova, pa, bytes, permissions: spec_access_bits(access) },
                ),
            *final(self) == (M1MachineGraph { dart: final(self).dart, ..*old(self) }),
    {
        self.dart.map(stream_id, iova, pa, bytes, access)
    }

    pub fn unmap_dma(&mut self, stream_id: u16, iova: u64, bytes: u64) -> (ok: bool)
        ensures
            ok == !none_where(old(self).dart.mappings@, |m: M1DartMapping| registered(m, stream_id, iova, bytes)),
            !ok ==> *final(self) == *old(self),
            ok ==> exists|i: int|
                first_where(old(self).dart.mappings@, |m: M1DartMapping| registered(m, stream_id, iova, bytes), i)
                    && final(self).dart.mappings@ == #[trigger] old(self).dart.mappings@.update(i, spec_empty_mapping()),
            *final(self) == (M1MachineGraph { dart: final(self).dart, ..*old(self) }),
    {
        self.dart.unmap(stream_id, iova, bytes)
    }

    pub fn dma_read(&self, stream_id: u16, iova: u64, destination: &mut [u8], guest_ram: &[u8]) -> (r: Result<(), M1DmaFault>)
        ensures
            ({
                let t = spec_translate(self.dart, stream_id, iova, old(destination)@.len() as u64, M1DmaAccess::DeviceReadGuest);
                match t {
                    Err(f) => r == Err::<(), M1DmaFault>(f),
                    Ok(pa) => if pa + old(destination)@.len() > guest_ram@.len() {
                        r == Err::<(), M1DmaFault>(M1DmaFault::Bounds)
                    } else {
                        r is Ok && final(destination)@ == guest_ram@.subrange(pa as int, pa + old(destination)@.len())
                    },
                }
            }),
            r is Err ==> final(destination)@ == old(destination)@,
    {
        self.dart.dma_read(stream_id, iova, destination, guest_ram)
    }

    pub fn dma_write(&self, stream_id: u16, iova: u64, source: &[u8], guest_ram: &mut [u8]) -> (r: Result<(), M1DmaFault>)
        ensures
            ({
                let t = spec_translate(self.dart, stream_id, iova, source@.len() as u64, M1DmaAccess::DeviceWriteGuest);
                match t {
                    Err(f) => r == Err::<(), M1DmaFault>(f),
                    Ok(pa) => if pa + source@.len() > old(guest_ram)@.len() {
                        r == Err::<(), M1DmaFault>(M1DmaFault::Bounds)
                    } else {
                        r is Ok && final(guest_ram)@ == old(guest_ram)@.subrange(0, pa as int) + source@ + old(
                            guest_ram,
                        )@.subrange(pa + source@.len(), old(guest_ram)@.len() as int)
                    },
                }
            }),
            r is Err ==> final(guest_ram)@ == old(guest_ram)@,
    {
        self.dart.dma_write(stream_id, iova, source, guest_ram)
    }

    pub fn attach_storage(&mut self, block_count: u64, read_only: bool) -> (ok: bool)
        ensures
            ok == (block_count != 0 && block_count * 4096 <= u64::MAX),
            !ok ==> *final(self) == *old(self),
            ok ==> *final(self) == (M1MachineGraph {
                storage: M1Storage {
                    attached: true,
                    read_only,
                    block_count,
                    generation: sat_inc(old(self).storage.generation),
                },
                ..*old(self)
            }),
    {
        self.storage.attach(block_count, read_only)
    }

    pub fn configure_display(&mut self, guest_address: u64, backing_bytes: u64, width: u32, height: u32, stride: u32, format: M1DisplayFormat) -> (r: Result<(), M1DisplayFault>)
        ensures
            (r is Ok) == mode_admissible(guest_address, backing_bytes, width, height, stride),
            r is Err ==> r == Err::<(), M1DisplayFault>(M1DisplayFault::InvalidMode) && *final(self) == *old(self),
            r is Ok ==> *final(self) == (M1MachineGraph {
                display: M1Framebuffer {
                    guest_address,
                    backing_bytes,
                    width,
                    height,
                    stride,
                    format: Some(format),
                    enabled: false,
                    presented: false,
                    generation: sat_inc(old(self).display.generation),
                    ..old(self).display
                },
                ..*old(self)
            }),
    {
        self.display.configure(guest_address, backing_bytes, width, height, stride, format)
    }

    /// Present a frame and raise the display interrupt.
    pub fn present_display(&mut self) -> (r: Result<(), M1DisplayFault>)
        ensures
            (r is Ok) == fb_configured(old(self).display),
            r is Err ==> r == Err::<(), M1DisplayFault>(M1DisplayFault::NotConfigured) && *final(self) == *old(self),
            r is Ok ==> *final(self) == (M1MachineGraph {
                display: presented(old(self).display),
                aic: aic_raised(old(self).aic, DISPLAY_SOURCE),
                ..*old(self)
            }),
    {
        let result = self.display.present();
        if result.is_ok() {
            let _ = self.aic.raise(DISPLAY_SOURCE);
        }
        result
    }

    pub fn configure_handoff(&mut self, entry_pa: u64, device_tree_pa: u64, device_tree_bytes: u64) -> (ok: bool)
        ensures
            ok == handoff_admissible(entry_pa, device_tree_pa, device_tree_bytes, old(self).ram_bytes),
            !ok ==> *final(self) == *old(self),
            ok ==> *final(self) == (M1MachineGraph {
                handoff: M1FirmwareHandoff {
                    entry_pa,
                    device_tree_pa,
                    device_tree_bytes,
                    prepared: true,
                    signature_verified: false,
                },
                ..*old(self)
            }),
    {
        let ram_bytes = self.ram_bytes;
        self.handoff.prepare(entry_pa, device_tree_pa, device_tree_bytes, ram_bytes)
    }

    /// Ingest a recovery envelope and raise the recovery interrupt.
    pub fn ingest_recovery(&mut self, frame: &[u8]) -> (r: Result<usize, M1RecoveryFault>)
        ensures
            r == spec_ingest_result(old(self).recovery, frame@),
            r is Err ==> *final(self) == *old(self),
            r matches Ok(len) ==> {
                &&& held_payload(final(self).recovery) == frame@.subrange(20, frame@.len() as int)
                &&& final(self).recovery.payload_len == len
                &&& recovery_wf(final(self).recovery)
                &&& !final(self).recovery.signature_verified
                &&& final(self).aic == aic_raised(old(self).aic, RECOVERY_SOURCE)
                &&& *final(self) == (M1MachineGraph { recovery: final(self).recovery, aic: final(self).aic, ..*old(self) })
            },
    {
        let result = self.recovery.ingest(frame);
        if result.is_ok() {
            let _ = self.aic.raise(RECOVERY_SOURCE);
        }
        result
    }

    pub fn recovery_payload(&self) -> (p: &[u8])
        requires
            recovery_wf(self.recovery),
        ensures
            p@ == held_payload(self.recovery),
    {
        self.recovery.payload()
    }

    pub fn display_mmio_read(&self, offset: u64, width: u32) -> (r: Option<u64>)
        ensures
            r == spec_fb_read(self.display, offset, width),
    {
        self.display.read_mmio(offset, width)
    }

    /// A display register write; a present raises the display interrupt.
    pub fn display_mmio_write(&mut self, offset: u64, width: u32, value: u64) -> (r: Result<(), M1DisplayFault>)
        ensures
            display_written(*old(self), *final(self), offset, width, value, r),
    {
        let result = self.display.write_mmio(offset, width, value);
        if result.is_ok() && offset == 0 && value == 1 {
            let _ = self.aic.raise(DISPLAY_SOURCE);
        }
        result
    }
}

/// A display register write through the graph.
pub open spec fn display_written(g: M1MachineGraph, n: M1MachineGraph, offset: u64, width: u32, value: u64, r: Result<(), M1DisplayFault>) -> bool {
    if width != 4 || offset != 0 || (value as u32 != 0 && value as u32 != 1) {
        r == Err::<(), M1DisplayFault>(M1DisplayFault::InvalidRegister) && n == g
    } else if value as u32 == 0 {
        r is Ok && n == M1MachineGraph { display: M1Framebuffer { enabled: false, ..g.display }, ..g }
    } else if !fb_configured(g.display) {
        r == Err::<(), M1DisplayFault>(M1DisplayFault::NotConfigured) && n == g
    } else {
        r is Ok && n == M1MachineGraph {
            display: presented(g.display),
            aic: if value == 1 { aic_raised(g.aic, DISPLAY_SOURCE) } else { g.aic },
            ..g
        }
    }
}

/// No mapping is live in a table of empty slots.
pub proof fn lemma_live_count_empty(ms: Seq<M1DartMapping>)
    requires
        forall|i: int| 0 <= i < ms.len() ==> !(#[trigger] ms[i]).valid,
    ensures
        live_count(ms) == 0,
    decreases ms.len(),
{
    if ms.len() > 0 {
        lemma_live_count_empty(ms.drop_last());
    }
}

pub open spec fn flag(b: bool, value: u64) -> u64 {
    if b { value } else { 0 }
}

/// A graph-local MMIO read: each window exposes a few registers at a fixed
/// width; anything else fails closed.
pub open spec fn spec_mmio_read(g: M1MachineGraph, address: u64, width: u32) -> Result<u64, M1MmioFault> {
    match spec_logical_window(address, width) {
        Err(f) => Err(f),
        Ok((window, offset)) => match window {
            M1LogicalWindow::Firmware => if width != 32 {
                Err(M1MmioFault::InvalidWidth)
            } else if offset == 0 {
                Ok(g.identity.soc_id as u64)
            } else if offset == 4 {
                Ok(g.identity.cpu_count as u64)
            } else if offset == 8 {
                Ok((flag(g.identity.aarch64, 1) + flag(g.identity.macos_only, 2)) as u64)
            } else if offset == 0x0c {
                Ok((flag(g.handoff.prepared, 1) + flag(g.handoff.signature_verified, 2)) as u64)
            } else {
                Err(M1MmioFault::InvalidRegister)
            },
            M1LogicalWindow::Aic => if offset == 0 {
                if width != 64 { Err(M1MmioFault::InvalidWidth) } else { Ok(g.aic.pending) }
            } else if offset == 8 {
                if width != 64 { Err(M1MmioFault::InvalidWidth) } else { Ok(g.aic.enabled) }
            } else if offset == 0x10 {
                if width != 32 { Err(M1MmioFault::InvalidWidth) } else { Ok((g.aic.targets@[0] as u32) as u64) }
            } else {
                Err(M1MmioFault::InvalidRegister)
            },
            M1LogicalWindow::Timer => if offset == 0 {
                if width != 64 { Err(M1MmioFault::InvalidWidth) } else { Ok(g.timer.counter) }
            } else if offset == 8 {
                if width != 64 { Err(M1MmioFault::InvalidWidth) } else { Ok(g.timer.compare) }
            } else if offset == 0x10 {
                if width != 32 {
                    Err(M1MmioFault::InvalidWidth)
                } else {
                    Ok((flag(g.timer.enabled, 1) + flag(g.timer.masked, 2)) as u64)
                }
            } else if offset == 0x18 {
                if width != 64 { Err(M1MmioFault::InvalidWidth) } else { Ok(g.timer.frequency) }
            } else {
                Err(M1MmioFault::InvalidRegister)
            },
            M1LogicalWindow::Dart => if width != 32 {
                Err(M1MmioFault::InvalidWidth)
            } else if offset == 0 {
                Ok(g.dart.mapping_count as u64)
            } else if offset == 4 {
                Ok(g.dart.generation as u64)
            } else {
                Err(M1MmioFault::InvalidRegister)
            },
            M1LogicalWindow::Storage => if width != 64 {
                Err(M1MmioFault::InvalidWidth)
            } else if offset == 0 {
                Ok((flag(g.storage.attached, 1) + flag(g.storage.read_only, 2)) as u64)
            } else if offset == 8 {
                Ok(g.storage.block_count)
            } else if offset == 0x10 {
                Ok(g.storage.generation as u64)
            } else {
                Err(M1MmioFault::InvalidRegister)
            },
            M1LogicalWindow::Recovery => if width != 32 {
                Err(M1MmioFault::InvalidWidth)
            } else if offset == 0 {
                Ok((flag(g.recovery.ready, 1) + flag(g.recovery.signature_verified, 2)) as u64)
            } else if offset == 4 {
                Ok(g.recovery.last_sequence as u64)
            } else if offset == 8 {
                Ok(g.recovery.payload_len as u64)
            } else {
                Err(M1MmioFault::InvalidRegister)
            },
            M1LogicalWindow::Display => match spec_fb_read(g.display, offset, width / 8) {
                Some(v) => Ok(v),
                None => Err(if width != 32 { M1MmioFault::InvalidWidth } else { M1MmioFault::InvalidRegister }),
            },
            M1LogicalWindow::Uart => if width != 32 {
                Err(M1MmioFault::InvalidWidth)
            } else if offset == 0 {
                Ok(g.uart_last_byte as u64)
            } else if offset == 4 {
                Ok(1)
            } else {
                Err(M1MmioFault::InvalidRegister)
            },
        },
    }
}

/// The graph after programming the timer.
pub open spec fn timer_programmed(g: M1MachineGraph, compare: u64, enabled: bool, masked: bool) -> M1MachineGraph {
    let t = M1Timer { compare, enabled, masked, ..g.timer };
    M1MachineGraph { timer: t, aic: if m1_timer_pending(t) { g.aic } else { aic_acked(g.aic, TIMER_SOURCE) }, ..g }
}

/// A graph-local MMIO write.
pub open spec fn mmio_written(g: M1MachineGraph, n: M1MachineGraph, address: u64, width: u32, value: u64, r: Result<(), M1MmioFault>) -> bool {
    match spec_logical_window(address, width) {
        Err(f) => r == Err::<(), M1MmioFault>(f) && n == g,
        Ok((window, offset)) => match window {
            M1LogicalWindow::Firmware | M1LogicalWindow::Storage | M1LogicalWindow::Recovery => r == Err::<
                (),
                M1MmioFault,
            >(M1MmioFault::ReadOnly) && n == g,
            M1LogicalWindow::Aic => if offset == 8 {
                if width != 64 {
                    r == Err::<(), M1MmioFault>(M1MmioFault::InvalidWidth) && n == g
                } else if value & !0xffu64 != 0 {
                    r == Err::<(), M1MmioFault>(M1MmioFault::InvalidRegister) && n == g
                } else {
                    r is Ok && n == with_aic(g, M1Aic { enabled: value, ..g.aic })
                }
            } else if offset == 0x10 {
                let source = value as u8;
                if width != 32 {
                    r == Err::<(), M1MmioFault>(M1MmioFault::InvalidWidth) && n == g
                } else if source < 8 && g.aic.pending & (1u64 << source as u64) != 0 {
                    r is Ok && n == with_aic(g, aic_acked(g.aic, source))
                } else {
                    r == Err::<(), M1MmioFault>(M1MmioFault::InvalidRegister) && n == g
                }
            } else if offset == 0x18 {
                let source = (value & 0xff) as u8;
                let mask = value >> 8u64;
                if width != 64 {
                    r == Err::<(), M1MmioFault>(M1MmioFault::InvalidWidth) && n == g
                } else if mask == 0 || mask & !0xffu64 != 0 || source >= 8 {
                    r == Err::<(), M1MmioFault>(M1MmioFault::InvalidRegister) && n == g
                } else {
                    r is Ok && n.aic.targets@ == g.aic.targets@.update(source as int, mask) && n == M1MachineGraph {
                        aic: M1Aic { targets: n.aic.targets, ..g.aic },
                        ..g
                    }
                }
            } else {
                r == Err::<(), M1MmioFault>(M1MmioFault::InvalidRegister) && n == g
            },
            M1LogicalWindow::Timer => if offset == 8 {
                if width != 64 {
                    r == Err::<(), M1MmioFault>(M1MmioFault::InvalidWidth) && n == g
                } else {
                    r is Ok && n == timer_programmed(g, value, g.timer.enabled, g.timer.masked)
                }
            } else if offset == 0x10 {
                if width != 32 {
                    r == Err::<(), M1MmioFault>(M1MmioFault::InvalidWidth) && n == g
                } else if value & !3u64 != 0 {
                    r == Err::<(), M1MmioFault>(M1MmioFault::InvalidRegister) && n == g
                } else {
                    r is Ok && n == timer_programmed(g, g.timer.compare, value & 1 != 0, value & 2 != 0)
                }
            } else {
                r == Err::<(), M1MmioFault>(M1MmioFault::ReadOnly) && n == g
            },
            M1LogicalWindow::Dart => if width != 32 {
                r == Err::<(), M1MmioFault>(M1MmioFault::InvalidWidth) && n == g
            } else if offset == 8 && value == 1 {
                &&& r is Ok
                &&& n.dart.mappings@ == Seq::new(16, |i: int| spec_empty_mapping())
                &&& n.dart.mapping_count == 0 && n.dart.ram_bytes == g.dart.ram_bytes
                &&& n.dart.generation == sat_inc(g.dart.generation)
                &&& n == M1MachineGraph { dart: n.dart, ..g }
            } else {
                r == Err::<(), M1MmioFault>(M1MmioFault::InvalidRegister) && n == g
            },
            M1LogicalWindow::Display => exists|dr: Result<(), M1DisplayFault>|
                #[trigger] display_written(g, n, offset, width / 8, value, dr) && r == match dr {
                    Ok(_) => Ok::<(), M1MmioFault>(()),
                    Err(_) => Err(if width != 32 { M1MmioFault::InvalidWidth } else { M1MmioFault::InvalidRegister }),
                },
            M1LogicalWindow::Uart => if width != 32 {
                r == Err::<(), M1MmioFault>(M1MmioFault::InvalidWidth) && n == g
            } else if offset != 0 || value > 0xff {
                r == Err::<(), M1MmioFault>(M1MmioFault::InvalidRegister) && n == g
            } else {
                r is Ok && n == M1MachineGraph { uart_last_byte: value as u8, ..g }
            },
        },
    }
}

fn flag_bits(low: bool, high: bool) -> (v: u64)
    ensures
        v == flag(low, 1) + flag(high, 2),
{
    let a: u64 = if low { 1 } else { 0 };
    let b: u64 = if high { 2 } else { 0 };
    a + b
}

impl M1MachineGraph {
    pub fn valid(&self) -> (b: bool)
        ensures
            b == graph_valid(*self),
    {
        let mut all_ready = true;
        let mut i: usize = 0;
        while i < 8
            invariant
                i <= 8,
                all_ready <==> (forall|j: int| 0 <= j < i ==> #[trigger] device_ok(self.devices@[j])),
            decreases 8 - i,
        {
            let d = self.devices[i];
            assert(device_ok(self.devices@[i as int]) == (d.contract_ready && d.guest_visible));
            all_ready = all_ready && d.contract_ready && d.guest_visible;
            i = i + 1;
        }
        self.identity.valid() && self.ram_bytes != 0 && self.device_count == 8 && all_ready && self.dart.valid()
            && self.timer.frequency == M1_COUNTER_FREQUENCY && self.reset_generation != 0
            && !self.handoff.signature_verified && !self.recovery.signature_verified
    }

    /// Some registered device of `kind` is ready and guest visible.
    pub fn device_ready(&self, kind: M1DeviceKind) -> (b: bool)
        requires
            self.device_count <= 8,
        ensures
            b == exists|j: int|
                0 <= j < self.device_count && (#[trigger] self.devices@[j]).kind == kind && self.devices@[j].contract_ready
                    && self.devices@[j].guest_visible,
    {
        let mut i: usize = 0;
        while i < self.device_count as usize
            invariant
                i <= self.device_count <= 8,
                forall|j: int| 0 <= j < i ==> !((#[trigger] self.devices@[j]).kind == kind && self.devices@[j].contract_ready
                    && self.devices@[j].guest_visible),
            decreases self.device_count - i,
        {
            let d = self.devices[i];
            if d.kind == kind && d.contract_ready && d.guest_visible {
                return true;
            }
            i = i + 1;
        }
        false
    }

    /// Dispatch a graph-local MMIO read; see `spec_mmio_read`.
    pub fn mmio_read(&self, address: u64, width: u32) -> (r: Result<u64, M1MmioFault>)
        ensures
            r == spec_mmio_read(*self, address, width),
    {
        let (window, offset) = match logical_window(address, width) {
            Ok(w) => w,
            Err(f) => return Err(f),
        };
        match window {
            M1LogicalWindow::Firmware => {
                if width != 32 {
                    Err(M1MmioFault::InvalidWidth)
                } else if offset == 0 {
                    Ok(self.identity.soc_id as u64)
                } else if offset == 4 {
                    Ok(self.identity.cpu_count as u64)
                } else if offset == 8 {
                    Ok(flag_bits(self.identity.aarch64, self.identity.macos_only))
                } else if offset == 0x0c {
                    Ok(flag_bits(self.handoff.prepared, self.handoff.signature_verified))
                } else {
                    Err(M1MmioFault::InvalidRegister)
                }
            },
            M1LogicalWindow::Aic => {
                if offset == 0 {
                    if width != 64 { Err(M1MmioFault::InvalidWidth) } else { Ok(self.aic.pending()) }
                } else if offset == 8 {
                    if width != 64 { Err(M1MmioFault::InvalidWidth) } else { Ok(self.aic.enabled) }
                } else if offset == 0x10 {
                    if width != 32 { Err(M1MmioFault::InvalidWidth) } else { Ok((self.aic.targets[0] as u32) as u64) }
                } else {
                    Err(M1MmioFault::InvalidRegister)
                }
            },
            M1LogicalWindow::Timer => {
                if offset == 0 {
                    if width != 64 { Err(M1MmioFault::InvalidWidth) } else { Ok(self.timer.counter) }
                } else if offset == 8 {
                    if width != 64 { Err(M1MmioFault::InvalidWidth) } else { Ok(self.timer.compare) }
                } else if offset == 0x10 {
                    if width != 32 {
                        Err(M1MmioFault::InvalidWidth)
                    } else {
                        Ok(flag_bits(self.timer.enabled, self.timer.masked))
                    }
                } else if offset == 0x18 {
                    if width != 64 { Err(M1MmioFault::InvalidWidth) } else { Ok(self.timer.frequency) }
                } else {
                    Err(M1MmioFault::InvalidRegister)
                }
            },
            M1LogicalWindow::Dart => {
                if width != 32 {
                    Err(M1MmioFault::InvalidWidth)
                } else if offset == 0 {
                    Ok(self.dart.mapping_count as u64)
                } else if offset == 4 {
                    Ok(self.dart.generation as u64)
                } else {
                    Err(M1MmioFault::InvalidRegister)
                }
            },
            M1LogicalWindow::Storage => {
                if width != 64 {
                    Err(M1MmioFault::InvalidWidth)
                } else if offset == 0 {
                    Ok(flag_bits(self.storage.attached, self.storage.read_only))
                } else if offset == 8 {
                    Ok(self.storage.block_count)
                } else if offset == 0x10 {
                    Ok(self.storage.generation as u64)
                } else {
                    Err(M1MmioFault::InvalidRegister)
                }
            },
            M1LogicalWindow::Recovery => {
                if width != 32 {
                    Err(M1MmioFault::InvalidWidth)
                } else if offset == 0 {
                    Ok(flag_bits(self.recovery.ready, self.recovery.signature_verified))
                } else if offset == 4 {
                    Ok(self.recovery.last_sequence as u64)
                } else if offset == 8 {
                    Ok(self.recovery.payload_len as u64)
                } else {
                    Err(M1MmioFault::InvalidRegister)
                }
            },
            M1LogicalWindow::Display => match self.display_mmio_read(offset, width / 8) {
                Some(v) => Ok(v),
                None => Err(if width != 32 { M1MmioFault::InvalidWidth } else { M1MmioFault::InvalidRegister }),
            },
            M1LogicalWindow::Uart => {
                if width != 32 {
                    Err(M1MmioFault::InvalidWidth)
                } else if offset == 0 {
                    Ok(self.uart_last_byte as u64)
                } else if offset == 4 {
                    Ok(1)
                } else {
                    Err(M1MmioFault::InvalidRegister)
                }
            },
        }
    }

    /// Dispatch a graph-local MMIO write; see `mmio_written`.
    pub fn mmio_write(&mut self, address: u64, width: u32, value: u64) -> (r: Result<(), M1MmioFault>)
        ensures
            mmio_written(*old(self), *final(self), address, width, value, r),
    {
        let (window, offset) = match logical_window(address, width) {
            Ok(w) => w,
            Err(f) => return Err(f),
        };
        match window {
            M1LogicalWindow::Firmware | M1LogicalWindow::Storage | M1LogicalWindow::Recovery => Err(
                M1MmioFault::ReadOnly,
            ),
            M1LogicalWindow::Aic => {
                if offset == 8 {
                    if width != 64 {
                        return Err(M1MmioFault::InvalidWidth);
                    }
                    if value & !0xffu64 != 0 {
                        return Err(M1MmioFault::InvalidRegister);
                    }
                    self.aic.enabled = value;
                    Ok(())
                } else if offset == 0x10 {
                    if width != 32 {
                        return Err(M1MmioFault::InvalidWidth);
                    }
                    if self.acknowledge_interrupt(value as u8) {
                        Ok(())
                    } else {
                        Err(M1MmioFault::InvalidRegister)
                    }
                } else if offset == 0x18 {
                    if width != 64 {
                        return Err(M1MmioFault::InvalidWidth);
                    }
                    let source = (value & 0xff) as u8;
                    let cpu_mask = value >> 8u64;
                    if cpu_mask == 0 || cpu_mask & !0xffu64 != 0 {
                        return Err(M1MmioFault::InvalidRegister);
                    }
                    if self.route_interrupt(source, cpu_mask) {
                        Ok(())
                    } else {
                        Err(M1MmioFault::InvalidRegister)
                    }
                } else {
                    Err(M1MmioFault::InvalidRegister)
                }
            },
            M1LogicalWindow::Timer => {
                if offset == 8 {
                    if width != 64 {
                        return Err(M1MmioFault::InvalidWidth);
                    }
                    let enabled = self.timer.enabled;
                    let masked = self.timer.masked;
                    self.program_timer(value, enabled, masked);
                    Ok(())
                } else if offset == 0x10 {
                    if width != 32 {
                        return Err(M1MmioFault::InvalidWidth);
                    }
                    if value & !3u64 != 0 {
                        return Err(M1MmioFault::InvalidRegister);
                    }
                    let compare = self.timer.compare;
                    self.program_timer(compare, value & 1 != 0, value & 2 != 0);
                    Ok(())
                } else {
                    Err(M1MmioFault::ReadOnly)
                }
            },
            M1LogicalWindow::Dart => {
                if width != 32 {
                    return Err(M1MmioFault::InvalidWidth);
                }
                if offset == 8 && value == 1 {
                    self.dart.reset();
                    Ok(())
                } else {
                    Err(M1MmioFault::InvalidRegister)
                }
            },
            M1LogicalWindow::Display => {
                let result = self.display_mmio_write(offset, width / 8, value);
                match result {
                    Ok(()) => Ok(()),
                    Err(_) => Err(if width != 32 { M1MmioFault::InvalidWidth } else { M1MmioFault::InvalidRegister }),
                }
            },
            M1LogicalWindow::Uart => {
                if width != 32 {
                    return Err(M1MmioFault::InvalidWidth);
                }
                if offset != 0 || value > 0xff {
                    return Err(M1MmioFault::InvalidRegister);
                }
                self.uart_last_byte = value as u8;
                Ok(())
            },
        }
    }
}

/// The logical offset of an access inside the guest MMIO alias.
pub open spec fn spec_guest_mmio_logical(address: u64, size: usize) -> Option<u64> {
    if address >= M1_GUEST_MMIO_BASE && address + size <= M1_GUEST_MMIO_BASE + M1_GUEST_MMIO_BYTES {
        Some((address - M1_GUEST_MMIO_BASE) as u64)
    } else {
        None
    }
}

pub fn guest_mmio_logical(address: u64, size: usize) -> (r: Option<u64>)
    ensures
        r == spec_guest_mmio_logical(address, size),
{
    let bytes = size as u64;
    let end = match address.checked_add(bytes) {
        Some(e) => e,
        None => return None,
    };
    if address >= M1_GUEST_MMIO_BASE && end <= M1_GUEST_MMIO_BASE + M1_GUEST_MMIO_BYTES {
        Some(address - M1_GUEST_MMIO_BASE)
    } else {
        None
    }
}

/// How a refused MMIO access is reported to the CPU.
pub open spec fn spec_mmio_fault_exception(fault: M1MmioFault) -> ExceptionKind {
    if fault == M1MmioFault::ReadOnly { ExceptionKind::PermissionFault } else { ExceptionKind::DataAbort }
}

pub fn mmio_fault_exception(fault: M1MmioFault) -> (k: ExceptionKind)
    ensures
        k == spec_mmio_fault_exception(fault),
{
    match fault {
        M1MmioFault::ReadOnly => ExceptionKind::PermissionFault,
        M1MmioFault::Unmapped | M1MmioFault::OutOfRange | M1MmioFault::InvalidWidth | M1MmioFault::InvalidRegister
        | M1MmioFault::Unsupported => ExceptionKind::DataAbort,
    }
}

pub open spec fn access_size(size: usize) -> bool {
    size == 1 || size == 2 || size == 4 || size == 8
}

/// Adapter from the architectural core to the M1 graph: RAM below, the
/// high alias dispatched to graph-local MMIO, and the graph's timer and
/// interrupts kept in step after each committed instruction.
pub struct M1GuestBus<'a> {
    pub graph: &'a mut M1MachineGraph,
    pub ram: &'a mut [u8],
    pub timer_mmio_dirty: bool,
}

/// A bus read of `size` bytes at `address`.
pub open spec fn spec_bus_read(g: M1MachineGraph, mem: Seq<u8>, address: u64, size: usize, access: Access) -> Result<u64, ExceptionKind> {
    if !access_size(size) {
        Err(ExceptionKind::AlignmentFault)
    } else if spec_guest_mmio_logical(address, size) is Some {
        if address % (size as u64) != 0 {
            Err(ExceptionKind::AlignmentFault)
        } else if access == Access::Execute {
            Err(ExceptionKind::PermissionFault)
        } else {
            match spec_mmio_read(g, spec_guest_mmio_logical(address, size)->Some_0, (size * 8) as u32) {
                Ok(v) => Ok(v),
                Err(f) => Err(spec_mmio_fault_exception(f)),
            }
        }
    } else if address + size <= mem.len() {
        Ok(le_value(mem.subrange(address as int, address + size)))
    } else {
        Err(ExceptionKind::DataAbort)
    }
}

impl<'a> M1GuestBus<'a> {
    pub open spec fn graph_view(&self) -> M1MachineGraph {
        *self.graph
    }

    pub open spec fn mem(&self) -> Seq<u8> {
        (*self.ram)@
    }

    pub fn new(graph: &'a mut M1MachineGraph, ram: &'a mut [u8]) -> (b: Self)
        ensures
            b.graph_view() == *old(graph),
            b.mem() == old(ram)@,
            !b.timer_mmio_dirty,
    {
        M1GuestBus { graph, ram, timer_mmio_dirty: false }
    }
}

impl<'a> GuestBus for M1GuestBus<'a> {
    /// The image lands at the start of RAM when it fits; RAM is unchanged
    /// otherwise, and the device graph is untouched.
    open spec fn spec_loaded(&self, after: Self, code: Seq<u8>, ok: bool) -> bool {
        &&& ok == (code.len() <= self.mem().len())
        &&& ok ==> after.mem() == code + self.mem().subrange(code.len() as int, self.mem().len() as int)
        &&& !ok ==> after.mem() == self.mem()
        &&& after.graph_view() == self.graph_view()
    }

    /// At each boundary the bus syncs the timer between the graph and the
    /// bank and latches a deliverable non-timer source as this CPU's
    /// external interrupt; RAM is untouched.
    open spec fn spec_observed(&self, after: Self, s: GuestCpuState, n: GuestCpuState) -> bool {
        let g = self.graph_view();
        let t = spec_boundary_timer(s.timer, g, self.timer_mmio_dirty);
        let synced = spec_synced_graph(g, t.counter, t.ctl, t.cval);
        &&& n.timer == t
        &&& n.sys == if self.timer_mmio_dirty {
            SystemRegisters { cntp_cval_el0: t.cval, cntp_ctl_el0: t.ctl, ..s.sys }
        } else {
            s.sys
        }
        &&& after.graph_view() == synced
        &&& n.smp == if s.affinity < 64 && lowest_deliverable(synced.aic, s.affinity, 1) is Some {
            SmpState { external_pending: s.smp.external_pending | ((1u64 << s.affinity) & s.smp.online_mask), ..s.smp }
        } else {
            s.smp
        }
        &&& !after.timer_mmio_dirty
        &&& after.mem() == self.mem()
    }

    fn load_code(&mut self, code: &[u8]) -> (ok: bool)
        ensures
            ok == (code@.len() <= old(self).mem().len()),
            ok ==> final(self).mem() == code@ + old(self).mem().subrange(code@.len() as int, old(self).mem().len() as int),
            !ok ==> final(self).mem() == old(self).mem(),
            final(self).graph_view() == old(self).graph_view(),
    {
        if code.len() > self.ram.len() {
            return false;
        }
        let mut i: usize = 0;
        while i < code.len()
            invariant
                i <= code@.len() <= self.mem().len(),
                self.mem().len() == old(self).mem().len(),
                self.graph_view() == old(self).graph_view(),
                forall|j: int| 0 <= j < i ==> self.mem()[j] == code@[j],
                forall|j: int| code@.len() <= j < self.mem().len() ==> self.mem()[j] == old(self).mem()[j],
            decreases code@.len() - i,
        {
            self.ram[i] = code[i];
            i = i + 1;
        }
        assert(self.mem() =~= code@ + old(self).mem().subrange(code@.len() as int, old(self).mem().len() as int));
        true
    }

    open spec fn spec_read(&self, address: u64, size: usize, access: Access) -> Result<u64, ExceptionKind> {
        spec_bus_read(self.graph_view(), self.mem(), address, size, access)
    }

    fn read(&self, address: u64, size: usize, access: Access) -> (r: Result<u64, ExceptionKind>)
    {
        if !(size == 1 || size == 2 || size == 4 || size == 8) {
            return Err(ExceptionKind::AlignmentFault);
        }
        if let Some(logical) = guest_mmio_logical(address, size) {
            proof {
                assert(address & 0 == address % 1) by {
                    crate::bits::lemma_u64_bits(address);
                }
                assert(address & 1 == address % 2) by {
                    crate::bits::lemma_u64_bits(address);
                }
                assert(address & 3 == address % 4) by {
                    crate::bits::lemma_u64_bits(address);
                }
                assert(address & 7 == address % 8) by {
                    crate::bits::lemma_u64_bits(address);
                }
            }
            if address & (size as u64 - 1) != 0 {
                return Err(ExceptionKind::AlignmentFault);
            }
            if access == Access::Execute {
                return Err(ExceptionKind::PermissionFault);
            }
            return match self.graph.mmio_read(logical, (size * 8) as u32) {
                Ok(v) => Ok(v),
                Err(f) => Err(mmio_fault_exception(f)),
            };
        }
        let n = self.ram.len();
        if address > n as u64 {
            return Err(ExceptionKind::DataAbort);
        }
        match read_width(self.ram, address as usize, size) {
            Some(v) => Ok(v),
            None => Err(ExceptionKind::DataAbort),
        }
    }

    /// The write of `write`: refused (permission fault) but for a data
    /// write of 1, 2, 4 or 8 bytes; a misaligned MMIO write faults; an MMIO
    /// write goes to the graph; a RAM write replaces the bytes or aborts.
    open spec fn spec_wrote(&self, after: Self, address: u64, size: usize, value: u64, access: Access, r: Result<
        (),
        ExceptionKind,
    >) -> bool {
        &&& !(access == Access::Write && access_size(size)) ==> r == Err::<(), ExceptionKind>(
            ExceptionKind::PermissionFault,
        ) && after == *self
        &&& access == Access::Write && access_size(size) && spec_guest_mmio_logical(address, size) is Some ==> {
            let logical = spec_guest_mmio_logical(address, size)->Some_0;
            if address % (size as u64) != 0 {
                r == Err::<(), ExceptionKind>(ExceptionKind::AlignmentFault) && after == *self
            } else {
                &&& exists|mr: Result<(), M1MmioFault>|
                    #[trigger] mmio_written(self.graph_view(), after.graph_view(), logical, (size * 8) as u32, value, mr)
                        && r == match mr {
                        Ok(_) => Ok::<(), ExceptionKind>(()),
                        Err(f) => Err(spec_mmio_fault_exception(f)),
                    }
                &&& after.mem() == self.mem()
                &&& after.timer_mmio_dirty == (self.timer_mmio_dirty || (r is Ok && (logical == 0x2008 || logical
                    == 0x2010)))
            }
        }
        &&& access == Access::Write && access_size(size) && spec_guest_mmio_logical(address, size) is None ==> {
            &&& after.graph_view() == self.graph_view()
            &&& after.timer_mmio_dirty == self.timer_mmio_dirty
            &&& if address + size <= self.mem().len() {
                r is Ok && after.mem() == self.mem().subrange(0, address as int) + le_bytes(value, size as nat)
                    + self.mem().subrange(address + size, self.mem().len() as int)
            } else {
                r == Err::<(), ExceptionKind>(ExceptionKind::DataAbort) && after.mem() == self.mem()
            }
        }
    }

    fn write(&mut self, address: u64, size: usize, value: u64, access: Access) -> (r: Result<(), ExceptionKind>)
    {
        if access != Access::Write || !(size == 1 || size == 2 || size == 4 || size == 8) {
            return Err(ExceptionKind::PermissionFault);
        }
        if let Some(logical) = guest_mmio_logical(address, size) {
            proof {
                assert(address & 0 == address % 1) by {
                    crate::bits::lemma_u64_bits(address);
                }
                assert(address & 1 == address % 2) by {
                    crate::bits::lemma_u64_bits(address);
                }
                assert(address & 3 == address % 4) by {
                    crate::bits::lemma_u64_bits(address);
                }
                assert(address & 7 == address % 8) by {
                    crate::bits::lemma_u64_bits(address);
                }
            }
            if address & (size as u64 - 1) != 0 {
                return Err(ExceptionKind::AlignmentFault);
            }
            let result = self.graph.mmio_write(logical, (size * 8) as u32, value);
            let ghost mr = result;
            let mapped = match result {
                Ok(()) => Ok(()),
                Err(f) => Err(mmio_fault_exception(f)),
            };
            if mapped.is_ok() && (logical == M1_LOGICAL_TIMER_BASE + 0x08 || logical == M1_LOGICAL_TIMER_BASE + 0x10) {
                self.timer_mmio_dirty = true;
            }
            assert(mmio_written(old(self).graph_view(), self.graph_view(), logical, (size * 8) as u32, value, mr));
            return mapped;
        }
        let n = self.ram.len();
        if address > n as u64 {
            return Err(ExceptionKind::DataAbort);
        }
        if write_width(self.ram, address as usize, size, value) {
            Ok(())
        } else {
            Err(ExceptionKind::DataAbort)
        }
    }

    /// Copy a guest MMIO programming of the timer into the architectural
    /// bank, mirror the architectural timer into the graph, and turn a
    /// deliverable non-timer source into this CPU's external interrupt.
    fn after_instruction(&mut self, state: &mut GuestCpuState)
        ensures
            ({
                let g = old(self).graph_view();
                let t = spec_boundary_timer(old(state).timer, g, old(self).timer_mmio_dirty);
                let synced = spec_synced_graph(g, t.counter, t.ctl, t.cval);
                &&& final(state).timer == t
                &&& final(state).sys == if old(self).timer_mmio_dirty {
                    SystemRegisters { cntp_cval_el0: t.cval, cntp_ctl_el0: t.ctl, ..old(state).sys }
                } else {
                    old(state).sys
                }
                &&& final(self).graph_view() == synced
                &&& final(state).smp == if old(state).affinity < 64 && lowest_deliverable(synced.aic, old(state).affinity, 1) is Some {
                    SmpState {
                        external_pending: old(state).smp.external_pending | ((1u64 << old(state).affinity) & old(state).smp.online_mask),
                        ..old(state).smp
                    }
                } else {
                    old(state).smp
                }
                &&& !final(self).timer_mmio_dirty
                &&& final(self).mem() == old(self).mem()
            }),
    {
        if self.timer_mmio_dirty {
            // A guest timer MMIO write is the device-side programming path:
            // reflect it into the architectural bank before the mirror below
            // would overwrite it.
            state.timer.cval = self.graph.timer.compare;
            let enabled: u64 = if self.graph.timer.enabled { 1 } else { 0 };
            let masked: u64 = if self.graph.timer.masked { 2 } else { 0 };
            state.timer.ctl = enabled | masked;
            state.sys.cntp_cval_el0 = state.timer.cval;
            state.sys.cntp_ctl_el0 = state.timer.ctl;
            self.timer_mmio_dirty = false;
        }
        let _ = self.graph.sync_guest_timer(state.timer.counter, state.timer.ctl, state.timer.cval);
        // Non-timer sources become the CPU's external-pending state at the
        // same boundary; the timer has its own CNTP path.
        if state.affinity < 64 && self.graph.aic.take_non_timer(state.affinity).is_some() {
            state.smp.route_external(1u64 << state.affinity);
        }
    }
}

/// The graph after mirroring the architectural timer `(counter, ctl,
/// cval)`: unchanged before activation, otherwise the timer programmed
/// and the AIC timer source raised or acknowledged by its pending state.
pub open spec fn spec_synced_graph(g: M1MachineGraph, counter: u64, ctl: u64, cval: u64) -> M1MachineGraph {
    if !g.runtime_active {
        g
    } else {
        let t = M1Timer { counter, compare: cval, enabled: ctl & 1 != 0, masked: ctl & 2 != 0, ..g.timer };
        M1MachineGraph {
            timer: t,
            aic: if m1_timer_pending(t) { aic_raised(g.aic, TIMER_SOURCE) } else { aic_acked(g.aic, TIMER_SOURCE) },
            ..g
        }
    }
}

/// The architectural timer after a boundary: a guest MMIO programming of
/// the timer (the dirty flag) is copied in, compare and enable/mask bits.
pub open spec fn spec_boundary_timer(t: GenericTimer, g: M1MachineGraph, dirty: bool) -> GenericTimer {
    if dirty {
        GenericTimer {
            cval: g.timer.compare,
            ctl: (if g.timer.enabled { 1u64 } else { 0u64 }) | (if g.timer.masked { 2u64 } else { 0u64 }),
            ..t
        }
    } else {
        t
    }
}

/// A mapping accepted by the DART translates every sub-range of its IOVA
/// window to the same offset in its physical window, for any access its
/// permissions include.
pub proof fn lemma_dart_map_then_translate(d: M1Dart, n: M1Dart, i: int, stream_id: u16, iova: u64, pa: u64, bytes: u64, access: M1DmaAccess, q: u64, len: u64, want: M1DmaAccess)
    requires
        map_arguments_valid(iova, pa, bytes, d.ram_bytes),
        none_where(d.mappings@, |m: M1DartMapping| conflicts(m, stream_id, iova, bytes)),
        first_where(d.mappings@, |m: M1DartMapping| is_free(m), i),
        n.mappings@ == d.mappings@.update(
            i,
            M1DartMapping { valid: true, stream_id, iova, pa, bytes, permissions: spec_access_bits(access) },
        ),
        iova <= q,
        len != 0,
        q + len <= iova + bytes,
        spec_access_bits(access) & spec_access_bits(want) == spec_access_bits(want),
    ensures
        spec_translate(n, stream_id, q, len, want) == Ok::<u64, M1DmaFault>((pa + (q - iova)) as u64),
{
    let p = |m: M1DartMapping| covers(m, stream_id, q, len);
    let fresh = M1DartMapping { valid: true, stream_id, iova, pa, bytes, permissions: spec_access_bits(access) };
    assert(p(n.mappings@[i]));
    assert forall|j: int| 0 <= j < i implies !p(#[trigger] n.mappings@[j]) by {
        assert(n.mappings@[j] == d.mappings@[j]);
        if p(d.mappings@[j]) {
            assert(conflicts(d.mappings@[j], stream_id, iova, bytes));
        }
    }
    assert(first_where(n.mappings@, p, i));
    let c = choose|c: int| first_where(n.mappings@, p, c);
    if c < i {
        assert(!p(n.mappings@[c]));
    } else if c > i {
        assert(!p(n.mappings@[i]));
    }
}

/// Raising source `su` sets its pending bit, acknowledging clears it, and
/// lower sources keep theirs.
proof fn lemma_pending_bits(pend: u64, su: u64, tu: u64)
    by (bit_vector)
    ensures
        su < 8 ==> (pend | (1u64 << su)) & (1u64 << su) != 0,
        su < 8 ==> (pend | (1u64 << su)) & !(1u64 << su) & (1u64 << su) == 0,
        tu < su && su < 8 ==> ((pend | (1u64 << su)) & (1u64 << tu) != 0 ==> pend & (1u64 << tu) != 0),
{
}

/// A raised source that is enabled, routed to `cpu` and has no lower
/// deliverable source is what `cpu` takes; acknowledging it withdraws it.
pub proof fn lemma_aic_raise_take_acknowledge(a: M1Aic, source: u8, cpu: u32)
    requires
        source < 8,
        cpu < 64,
        a.enabled & (1u64 << source as u64) != 0,
        a.targets@[source as int] & (1u64 << cpu as u64) != 0,
        forall|t: int| 0 <= t < source ==> !deliverable(a, t, cpu),
    ensures
        lowest_deliverable(aic_raised(a, source), cpu, 0) == Some(source),
        !deliverable(aic_acked(aic_raised(a, source), source), source as int, cpu),
{
    let r = aic_raised(a, source);
    let pend = a.pending;
    let su = source as u64;
    lemma_pending_bits(pend, su, 0);
    assert(deliverable(r, source as int, cpu));
    assert forall|t: int| 0 <= t < source implies !deliverable(r, t, cpu) by {
        assert(t < source);
        if deliverable(r, t, cpu) {
            assert(t < 8);
            let tu = t as u64;
            lemma_pending_bits(pend, su, tu);
            assert(deliverable(a, t, cpu));
        }
    }
    let s = choose|s: int| 0 <= s < 8 && deliverable(r, s, cpu) && forall|t: int| 0 <= t < s ==> !deliverable(r, t, cpu);
    if s < source {
        assert(!deliverable(r, s, cpu));
    } else if s > source {
        assert(!deliverable(r, source as int, cpu));
    }
}

/// Block storage keeps what it is given: after a successful write of a
/// block, reading that block gives the written bytes.
pub proof fn lemma_storage_write_then_read(st: M1Storage, block: u64, source: Seq<u8>, before: Seq<u8>, after: Seq<u8>)
    requires
        source.len() == 4096,
        spec_backend_range(st, block, before.len() as usize) is Ok,
        before.len() <= usize::MAX,
        after == before.subrange(0, spec_backend_range(st, block, before.len() as usize)->Ok_0.0 as int) + source
            + before.subrange(spec_backend_range(st, block, before.len() as usize)->Ok_0.1 as int, before.len() as int),
    ensures
        spec_backend_range(st, block, after.len() as usize) == spec_backend_range(st, block, before.len() as usize),
        after.subrange(
            spec_backend_range(st, block, after.len() as usize)->Ok_0.0 as int,
            spec_backend_range(st, block, after.len() as usize)->Ok_0.1 as int,
        ) == source,
{
    let (start, end) = spec_backend_range(st, block, before.len() as usize)->Ok_0;
    assert(after.len() == before.len());
    assert(after.subrange(start as int, end as int) =~= source);
}

/// No two live mappings of one stream overlap.
pub open spec fn mappings_disjoint(ms: Seq<M1DartMapping>) -> bool {
    forall|i: int, j: int|
        0 <= i < ms.len() && 0 <= j < ms.len() && i != j && #[trigger] ms[i].valid && #[trigger] ms[j].valid
            && ms[i].stream_id == ms[j].stream_id ==> !spec_ranges_overlap(ms[i].iova, ms[i].bytes, ms[j].iova, ms[j].bytes)
}

/// A mapping the DART accepts (no conflicting live mapping, first free
/// slot) keeps the live mappings of every stream disjoint.
pub proof fn lemma_map_keeps_disjoint(d: M1Dart, n: M1Dart, i: int, stream_id: u16, iova: u64, pa: u64, bytes: u64, access: M1DmaAccess)
    requires
        mappings_disjoint(d.mappings@),
        none_where(d.mappings@, |m: M1DartMapping| conflicts(m, stream_id, iova, bytes)),
        first_where(d.mappings@, |m: M1DartMapping| is_free(m), i),
        n.mappings@ == d.mappings@.update(
            i,
            M1DartMapping { valid: true, stream_id, iova, pa, bytes, permissions: spec_access_bits(access) },
        ),
    ensures
        mappings_disjoint(n.mappings@),
{
    let ms = n.mappings@;
    assert forall|a: int, b: int|
        0 <= a < ms.len() && 0 <= b < ms.len() && a != b && #[trigger] ms[a].valid && #[trigger] ms[b].valid
            && ms[a].stream_id == ms[b].stream_id implies !spec_ranges_overlap(ms[a].iova, ms[a].bytes, ms[b].iova, ms[b].bytes) by {
        if a == i {
            assert(!conflicts(d.mappings@[b], stream_id, iova, bytes));
        } else if b == i {
            assert(!conflicts(d.mappings@[a], stream_id, iova, bytes));
        } else {
            assert(d.mappings@[a] == ms[a] && d.mappings@[b] == ms[b]);
        }
    }
}

/// Unmapping a registered mapping makes every range inside its window
/// unmapped for its stream, as long as the stream's mappings were
/// disjoint.
pub proof fn lemma_unmap_then_unmapped(d: M1Dart, n: M1Dart, i: int, stream_id: u16, iova: u64, bytes: u64, q: u64, len: u64, want: M1DmaAccess)
    requires
        mappings_disjoint(d.mappings@),
        first_where(d.mappings@, |m: M1DartMapping| registered(m, stream_id, iova, bytes), i),
        n.mappings@ == d.mappings@.update(i, spec_empty_mapping()),
        iova <= q,
        len != 0,
        q + len <= iova + bytes,
    ensures
        spec_translate(n, stream_id, q, len, want) == Err::<u64, M1DmaFault>(M1DmaFault::Unmapped),
{
    let p = |m: M1DartMapping| covers(m, stream_id, q, len);
    assert forall|j: int| 0 <= j < n.mappings@.len() implies !p(#[trigger] n.mappings@[j]) by {
        if j != i && p(n.mappings@[j]) {
            let m = d.mappings@[j];
            assert(m == n.mappings@[j]);
            assert(d.mappings@[i].valid && d.mappings@[j].valid);
            assert(spec_ranges_overlap(m.iova, m.bytes, d.mappings@[i].iova, d.mappings@[i].bytes));
        }
    }
}

} // verus!
