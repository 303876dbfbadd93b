//! The caller-owned physical memory service: fixed-width FETCH/LOAD/STORE
//! requests against one RAM window, each element preflighted before any
//! byte moves.
use vstd::prelude::*;
use crate::arch::{le_bytes, le_value, read_width, write_width, wrap_add};

verus! {

pub const ABI_VERSION: u32 = 1;
pub const FETCH: u32 = 1;
pub const LOAD: u32 = 2;
pub const STORE: u32 = 3;
pub const OK: u32 = 0;
pub const GUEST_FAULT: u32 = 1;
pub const UNSUPPORTED: u32 = 2;
pub const INVALID_REQUEST: u32 = 3;
pub const PC_ALIGNMENT: u32 = 1;
pub const DATA_ALIGNMENT: u32 = 2;
/// Byte size of the request and reply records.
pub const RECORD_BYTES: u32 = 80;

#[derive(Clone, Copy, Debug, PartialEq, Eq, Structural)]
pub struct Request {
    pub abi_version: u32,
    pub struct_size: u32,
    pub operation: u32,
    pub flags: u32,
    pub pc: u64,
    pub address: u64,
    pub value0: u64,
    pub value1: u64,
    pub sctlr: u64,
    pub epoch: u64,
    pub width: u32,
    pub count: u32,
    pub current_el: u32,
    pub reserved: u32,
}

#[derive(Clone, Copy, Debug, PartialEq, Eq)]
pub struct Reply {
    pub abi_version: u32,
    pub struct_size: u32,
    pub result: u32,
    pub fault: u32,
    pub value0: u64,
    pub value1: u64,
    pub address: u64,
    pub esr: u64,
    pub epoch: u64,
    pub reserved: [u64; 3],
}

#[derive(Clone, Copy, Debug, PartialEq, Eq, Structural)]
pub enum Error {
    InvalidRange,
}

/// A reply carrying only `result`, `address`, `fault` and `esr`.
pub open spec fn reply_of(result: u32, address: u64, fault: u32, esr: u64) -> Reply {
    Reply {
        abi_version: ABI_VERSION,
        struct_size: RECORD_BYTES,
        result,
        fault,
        value0: 0,
        value1: 0,
        address,
        esr,
        epoch: 0,
        reserved: [0u64, 0u64, 0u64],
    }
}

fn make_reply(result: u32, address: u64, fault: u32, esr: u64) -> (out: Reply)
    ensures
        out == reply_of(result, address, fault, esr),
{
    Reply {
        abi_version: ABI_VERSION,
        struct_size: RECORD_BYTES,
        result,
        fault,
        value0: 0,
        value1: 0,
        address,
        esr,
        epoch: 0,
        reserved: [0, 0, 0],
    }
}

/// The value mask of an element of `width` bytes.
pub open spec fn element_mask(width: u32) -> u64 {
    if width == 8 { u64::MAX } else { ((1u64 << (width * 8) as u64) - 1) as u64 }
}

/// The request's shape: ABI header, one of FETCH/LOAD/STORE, 1 to 8-byte
/// elements (pairs of 4 or 8 bytes), a FETCH of one word at PC, values
/// only on stores and within the element width.
pub open spec fn well_formed(r: Request) -> bool {
    &&& r.abi_version == ABI_VERSION && r.struct_size == RECORD_BYTES && r.flags == 0 && r.reserved == 0 && r.epoch == 0
    &&& r.operation == FETCH || r.operation == LOAD || r.operation == STORE
    &&& r.width == 1 || r.width == 2 || r.width == 4 || r.width == 8
    &&& r.count == 1 || r.count == 2
    &&& r.count == 2 ==> (r.width == 4 || r.width == 8)
    &&& r.operation == FETCH ==> r.width == 4 && r.count == 1 && r.address == r.pc
    &&& r.operation != STORE ==> r.value0 == 0 && r.value1 == 0
    &&& r.count == 1 ==> r.value1 == 0
    &&& r.value0 & !element_mask(r.width) == 0 && r.value1 & !element_mask(r.width) == 0
}

/// EL0 or EL1 with the MMU off and big-endian data off.
pub open spec fn mode_supported(r: Request) -> bool {
    r.current_el <= 1 && r.sctlr & 1 == 0 && r.sctlr & (1u64 << (if r.current_el == 0 { 24u64 } else { 25u64 })) == 0
}

/// The ESR of a misaligned access.
pub open spec fn alignment_esr(r: Request) -> u64 {
    if r.operation == FETCH {
        0x8a00_0000
    } else {
        (((0x24 + r.current_el) as u64) << 26u64) | 0x200_0000 | 0x21 | (if r.operation == STORE { 64u64 } else { 0 })
    }
}

/// Element `e` of the request.
pub open spec fn element_address(r: Request, e: int) -> int {
    r.address + e * r.width
}

/// Element `e` lies inside RAM.
pub open spec fn element_in_ram(r: Request, e: int, base: u64, len: nat) -> bool {
    element_address(r, e) <= u64::MAX && element_address(r, e) >= base && element_address(r, e) - base + r.width <= len
}

/// RAM offset of element `e`.
pub open spec fn element_offset(r: Request, e: int, base: u64) -> int {
    element_address(r, e) - base
}

/// RAM after storing the request's elements.
pub open spec fn stored(mem: Seq<u8>, r: Request, base: u64) -> Seq<u8> {
    let at0 = element_offset(r, 0, base);
    let m1 = mem.subrange(0, at0) + le_bytes(r.value0, r.width as nat) + mem.subrange(at0 + r.width, mem.len() as int);
    if r.count == 1 {
        m1
    } else {
        let at1 = element_offset(r, 1, base);
        m1.subrange(0, at1) + le_bytes(r.value1, r.width as nat) + m1.subrange(at1 + r.width, m1.len() as int)
    }
}

/// The element read at element `e`.
pub open spec fn loaded(mem: Seq<u8>, r: Request, e: int, base: u64) -> u64 {
    if e < r.count {
        let at = element_offset(r, e, base);
        le_value(mem.subrange(at, at + r.width))
    } else {
        0
    }
}

/// What `execute` answers and does to RAM.
pub open spec fn executed(r: Request, base: u64, mem: Seq<u8>, out: Reply, after: Seq<u8>) -> bool {
    if !well_formed(r) {
        out == reply_of(INVALID_REQUEST, 0, 0, 0) && after == mem
    } else if !mode_supported(r) {
        out == reply_of(UNSUPPORTED, r.address, 0, 0) && after == mem
    } else if r.address % (r.width as u64) != 0 {
        out == reply_of(GUEST_FAULT, r.address, if r.operation == FETCH { PC_ALIGNMENT } else { DATA_ALIGNMENT }, alignment_esr(r))
            && after == mem
    } else if !element_in_ram(r, 0, base, mem.len()) {
        out == reply_of(UNSUPPORTED, r.address, 0, 0) && after == mem
    } else if r.count == 2 && !element_in_ram(r, 1, base, mem.len()) {
        out == reply_of(UNSUPPORTED, wrap_add(r.address, r.width as u64), 0, 0) && after == mem
    } else if r.operation == STORE {
        out == reply_of(OK, 0, 0, 0) && after == stored(mem, r, base)
    } else {
        out == Reply { value0: loaded(mem, r, 0, base), value1: loaded(mem, r, 1, base), ..reply_of(OK, 0, 0, 0) }
            && after == mem
    }
}

/// Guest RAM at `base`, borrowed from the caller.
pub struct MemoryService<'a> {
    pub ram: &'a mut [u8],
    pub base: u64,
}

impl<'a> MemoryService<'a> {
    pub open spec fn mem(&self) -> Seq<u8> {
        (*self.ram)@
    }

    /// At least eight bytes of RAM whose end does not wrap.
    pub fn new(ram: &'a mut [u8], base: u64) -> (r: Result<Self, Error>)
        ensures
            (r is Ok) == (old(ram)@.len() >= 8 && base + old(ram)@.len() <= u64::MAX),
            r is Err ==> r == Err::<Self, Error>(Error::InvalidRange),
            r matches Ok(s) ==> s.mem() == old(ram)@ && s.base == base,
            r matches Ok(s) ==> final(ram)@ == final(s.ram)@,
            r is Err ==> final(ram)@ == old(ram)@,
    {
        let len = ram.len();
        if len < 8 || base.checked_add(len as u64).is_none() {
            return Err(Error::InvalidRange);
        }
        Ok(MemoryService { ram, base })
    }

    pub fn base(&self) -> (b: u64)
        ensures
            b == self.base,
    {
        self.base
    }

    pub fn size(&self) -> (s: u64)
        ensures
            s == self.mem().len(),
    {
        self.ram.len() as u64
    }

    /// The in-RAM offset of `address` for an element of `width` bytes.
    fn element_offset_of(&self, address: Option<u64>, width: u32) -> (r: Option<usize>)
        requires
            width <= 8,
        ensures
            r matches Some(at) ==> address matches Some(a) && a >= self.base && at == a - self.base && at + width
                <= self.mem().len(),
            r is None ==> !(address matches Some(a) && a >= self.base && a - self.base + width <= self.mem().len()),
    {
        let a = match address {
            Some(a) => a,
            None => return None,
        };
        if a < self.base {
            return None;
        }
        let n = self.ram.len();
        let v = a - self.base;
        if (width as usize) > n || v > (n - width as usize) as u64 {
            return None;
        }
        Some(v as usize)
    }

    /// Serve one request; see `executed`.  Every element is checked before
    /// any transfer, so a refused pair never writes its first element.
    pub fn execute(&mut self, r: &Request) -> (out: Reply)
        ensures
            executed(*r, old(self).base, old(self).mem(), out, final(self).mem()),
            final(self).base == old(self).base,
            final(self).mem().len() == old(self).mem().len(),
    {
        let shape = r.abi_version == ABI_VERSION && r.struct_size == RECORD_BYTES && r.flags == 0 && r.reserved == 0
            && r.epoch == 0 && (r.operation == FETCH || r.operation == LOAD || r.operation == STORE) && (r.width == 1
            || r.width == 2 || r.width == 4 || r.width == 8) && (r.count == 1 || r.count == 2) && !(r.count == 2 && !(
        r.width == 4 || r.width == 8)) && !(r.operation == FETCH && (r.width != 4 || r.count != 1 || r.address
            != r.pc)) && !(r.operation != STORE && (r.value0 != 0 || r.value1 != 0)) && !(r.count == 1 && r.value1 != 0);
        if !shape {
            return make_reply(INVALID_REQUEST, 0, 0, 0);
        }
        let mask: u64 = if r.width == 8 {
            u64::MAX
        } else {
            proof {
                assert(r.width * 8 <= 32);
                crate::mmu::lemma_shl_positive((r.width * 8) as u64);
            }
            (1u64 << ((r.width * 8) as u64)) - 1
        };
        if r.value0 & !mask != 0 || r.value1 & !mask != 0 {
            return make_reply(INVALID_REQUEST, 0, 0, 0);
        }
        let bit: u64 = if r.current_el == 0 { 1u64 << 24u64 } else { 1u64 << 25u64 };
        if r.current_el > 1 || r.sctlr & 1 != 0 || r.sctlr & bit != 0 {
            return make_reply(UNSUPPORTED, r.address, 0, 0);
        }
        proof {
            let a = r.address;
            assert(a & 0 == a % 1) by {
                crate::bits::lemma_u64_bits(a);
            }
            assert(a & 1 == a % 2) by {
                crate::bits::lemma_u64_bits(a);
            }
            assert(a & 3 == a % 4) by {
                crate::bits::lemma_u64_bits(a);
            }
            assert(a & 7 == a % 8) by {
                crate::bits::lemma_u64_bits(a);
            }
        }
        if r.address & ((r.width - 1) as u64) != 0 {
            if r.operation == FETCH {
                return make_reply(GUEST_FAULT, r.address, PC_ALIGNMENT, 0x8a00_0000);
            }
            let store_bit: u64 = if r.operation == STORE { 64 } else { 0 };
            let esr = (((0x24 + r.current_el) as u64) << 26u64) | 0x200_0000 | 0x21 | store_bit;
            return make_reply(GUEST_FAULT, r.address, DATA_ALIGNMENT, esr);
        }
        let width = r.width as usize;
        let at0 = match self.element_offset_of(Some(r.address), r.width) {
            Some(at) => at,
            None => return make_reply(UNSUPPORTED, r.address, 0, 0),
        };
        let mut at1: usize = 0;
        if r.count == 2 {
            at1 = match self.element_offset_of(r.address.checked_add(r.width as u64), r.width) {
                Some(at) => at,
                None => return make_reply(UNSUPPORTED, r.address.wrapping_add(r.width as u64), 0, 0),
            };
        }
        // Every element is preflighted before any transfer, including stores.
        if r.operation == STORE {
            write_width(self.ram, at0, width, r.value0);
            if r.count == 2 {
                write_width(self.ram, at1, width, r.value1);
            }
            make_reply(OK, 0, 0, 0)
        } else {
            let value0 = match read_width(self.ram, at0, width) {
                Some(v) => v,
                None => 0,
            };
            let value1 = if r.count == 2 {
                match read_width(self.ram, at1, width) {
                    Some(v) => v,
                    None => 0,
                }
            } else {
                0
            };
            let mut out = make_reply(OK, 0, 0, 0);
            out.value0 = value0;
            out.value1 = value1;
            out
        }
    }
}

/// The low `k` bytes of `v`.
pub open spec fn low_bytes(v: u64, k: nat) -> u64 {
    if k >= 8 { v } else { v & (((1u64 << (8 * k) as u64) - 1) as u64) }
}

/// Low-byte masks of a 64-bit value, one byte at a time.
proof fn lemma_byte_masks(v: u64)
    by (bit_vector)
    ensures
        v & ((1u64 << 0u64) - 1) as u64 == 0,
        (v & ((1u64 << 0u64) - 1) as u64) | (((v >> 0u64) as u8) as u64) << 0u64 == v & ((1u64 << 8u64) - 1) as u64,
        (v & ((1u64 << 8u64) - 1) as u64) | (((v >> 8u64) as u8) as u64) << 8u64 == v & ((1u64 << 16u64) - 1) as u64,
        (v & ((1u64 << 16u64) - 1) as u64) | (((v >> 16u64) as u8) as u64) << 16u64 == v & ((1u64 << 24u64) - 1) as u64,
        (v & ((1u64 << 24u64) - 1) as u64) | (((v >> 24u64) as u8) as u64) << 24u64 == v & ((1u64 << 32u64) - 1) as u64,
        (v & ((1u64 << 32u64) - 1) as u64) | (((v >> 32u64) as u8) as u64) << 32u64 == v & ((1u64 << 40u64) - 1) as u64,
        (v & ((1u64 << 40u64) - 1) as u64) | (((v >> 40u64) as u8) as u64) << 40u64 == v & ((1u64 << 48u64) - 1) as u64,
        (v & ((1u64 << 48u64) - 1) as u64) | (((v >> 48u64) as u8) as u64) << 48u64 == v & ((1u64 << 56u64) - 1) as u64,
        (v & ((1u64 << 56u64) - 1) as u64) | (((v >> 56u64) as u8) as u64) << 56u64 == v,
        v & !(((1u64 << 8u64) - 1) as u64) == 0 ==> v & (((1u64 << 8u64) - 1) as u64) == v,
        v & !(((1u64 << 16u64) - 1) as u64) == 0 ==> v & (((1u64 << 16u64) - 1) as u64) == v,
        v & !(((1u64 << 32u64) - 1) as u64) == 0 ==> v & (((1u64 << 32u64) - 1) as u64) == v,
{
}

/// Assembling the little-endian bytes of `v` gives back its low `k` bytes.
pub proof fn lemma_le_bytes_value(v: u64, k: nat)
    requires
        k <= 8,
    ensures
        le_value(le_bytes(v, k)) == low_bytes(v, k),
    decreases k,
{
    if k == 0 {
        assert(v & ((1u64 << 0u64) - 1) as u64 == 0) by {
            lemma_byte_masks(v);
        }
    } else {
        lemma_le_bytes_value(v, (k - 1) as nat);
        let b = le_bytes(v, k);
        assert(b.drop_last() =~= le_bytes(v, (k - 1) as nat));
        let prev = low_bytes(v, (k - 1) as nat);
        let top = (v >> ((8 * (k - 1)) as u64)) as u8;
        assert(b.last() == top);
        if k == 1 {
            assert((v & ((1u64 << 0u64) - 1) as u64) | (((v >> 0u64) as u8) as u64) << 0u64 == v & ((1u64 << 8u64) - 1) as u64) by {
                lemma_byte_masks(v);
            }
        } else if k == 2 {
            assert((v & ((1u64 << 8u64) - 1) as u64) | (((v >> 8u64) as u8) as u64) << 8u64 == v & ((1u64 << 16u64) - 1) as u64) by {
                lemma_byte_masks(v);
            }
        } else if k == 3 {
            assert((v & ((1u64 << 16u64) - 1) as u64) | (((v >> 16u64) as u8) as u64) << 16u64 == v & ((1u64 << 24u64) - 1) as u64) by {
                lemma_byte_masks(v);
            }
        } else if k == 4 {
            assert((v & ((1u64 << 24u64) - 1) as u64) | (((v >> 24u64) as u8) as u64) << 24u64 == v & ((1u64 << 32u64) - 1) as u64) by {
                lemma_byte_masks(v);
            }
        } else if k == 5 {
            assert((v & ((1u64 << 32u64) - 1) as u64) | (((v >> 32u64) as u8) as u64) << 32u64 == v & ((1u64 << 40u64) - 1) as u64) by {
                lemma_byte_masks(v);
            }
        } else if k == 6 {
            assert((v & ((1u64 << 40u64) - 1) as u64) | (((v >> 40u64) as u8) as u64) << 40u64 == v & ((1u64 << 48u64) - 1) as u64) by {
                lemma_byte_masks(v);
            }
        } else if k == 7 {
            assert((v & ((1u64 << 48u64) - 1) as u64) | (((v >> 48u64) as u8) as u64) << 48u64 == v & ((1u64 << 56u64) - 1) as u64) by {
                lemma_byte_masks(v);
            }
        } else {
            assert((v & ((1u64 << 56u64) - 1) as u64) | (((v >> 56u64) as u8) as u64) << 56u64 == v) by {
                lemma_byte_masks(v);
            }
        }
    }
}

/// A value that fits the element width survives the byte round trip.
pub proof fn lemma_element_round_trip(v: u64, width: u32)
    requires
        width == 1 || width == 2 || width == 4 || width == 8,
        v & !element_mask(width) == 0,
    ensures
        le_value(le_bytes(v, width as nat)) == v,
{
    lemma_le_bytes_value(v, width as nat);
    if width == 1 {
        assert(v & !(((1u64 << 8u64) - 1) as u64) == 0 ==> v & (((1u64 << 8u64) - 1) as u64) == v) by {
            lemma_byte_masks(v);
        }
    } else if width == 2 {
        assert(v & !(((1u64 << 16u64) - 1) as u64) == 0 ==> v & (((1u64 << 16u64) - 1) as u64) == v) by {
            lemma_byte_masks(v);
        }
    } else if width == 4 {
        assert(v & !(((1u64 << 32u64) - 1) as u64) == 0 ==> v & (((1u64 << 32u64) - 1) as u64) == v) by {
            lemma_byte_masks(v);
        }
    }
}

/// A load of what an accepted store wrote, at the same address, width and
/// count, returns the stored values and changes nothing.
pub proof fn lemma_store_then_load(r: Request, base: u64, mem: Seq<u8>, out: Reply, after: Seq<u8>, l: Request, out2: Reply, after2: Seq<u8>)
    requires
        r.operation == STORE,
        executed(r, base, mem, out, after),
        out.result == OK,
        l == (Request { operation: LOAD, value0: 0, value1: 0, ..r }),
        executed(l, base, after, out2, after2),
    ensures
        out2.result == OK,
        out2.value0 == r.value0,
        out2.value1 == r.value1,
        after2 == after,
{
    let w = r.width as int;
    let at0 = element_offset(r, 0, base);
    let m1 = mem.subrange(0, at0) + le_bytes(r.value0, r.width as nat) + mem.subrange(at0 + w, mem.len() as int);
    assert(m1.len() == mem.len());
    assert(m1.subrange(at0, at0 + w) =~= le_bytes(r.value0, r.width as nat));
    let mask = element_mask(r.width);
    assert(0u64 & !mask == 0) by {
        crate::bits::lemma_u64_bits(mask);
    }
    assert(well_formed(l));
    assert(mode_supported(l));
    assert(after.len() == mem.len());
    assert(element_in_ram(l, 0, base, after.len()));
    lemma_element_round_trip(r.value0, r.width);
    if r.count == 2 {
        let at1 = element_offset(r, 1, base);
        let m2 = m1.subrange(0, at1) + le_bytes(r.value1, r.width as nat) + m1.subrange(at1 + w, m1.len() as int);
        assert(m2.subrange(at0, at0 + w) =~= m1.subrange(at0, at0 + w));
        assert(m2.subrange(at1, at1 + w) =~= le_bytes(r.value1, r.width as nat));
        assert(element_in_ram(l, 1, base, after.len()));
        lemma_element_round_trip(r.value1, r.width);
    }
}

} // verus!
