//! Register-offset load/store provider cases: every size/opc form with the
//! four extend options, both scales, four index values and four target
//! registers, the architectural effect of each, and the encodings outside
//! the class.
use vstd::prelude::*;
use crate::arch::{le_bytes, le_value, read_width, write_width};

verus! {

#[derive(Clone, Copy, Debug)]
pub struct Case {
    pub word: u32,
    pub index: u64,
    pub offset: u64,
    pub bytes: usize,
    pub opc: u32,
    pub rt: usize,
}

/// The LDR/STR (register offset) encoding.
pub open spec fn spec_word(size: u32, opc: u32, option: u32, scale: u32, rn: u32, rm: u32, rt: u32) -> u32 {
    0x3820_0800u32 | (size << 30u32) | (opc << 22u32) | (rm << 16u32) | (option << 13u32) | (scale << 12u32) | (rn
        << 5u32) | rt
}

pub fn word(size: u32, opc: u32, option: u32, scale: u32, rn: u32, rm: u32, rt: u32) -> (w: u32)
    ensures
        w == spec_word(size, opc, option, scale, rn, rm, rt),
{
    0x3820_0800u32 | (size << 30u32) | (opc << 22u32) | (rm << 16u32) | (option << 13u32) | (scale << 12u32) | (rn
        << 5u32) | rt
}

/// Sizes and opcs that are loads or stores of a general register:
/// sign-extending loads to 64 bits stop at words, to 32 bits at halves.
pub open spec fn form_valid(size: u32, opc: u32) -> bool {
    size < 4 && opc < 4 && !(opc >= 2 && (size == 3 || (size == 2 && opc == 3)))
}

pub open spec fn option_at(k: int) -> u32 {
    if k == 0 { 2 } else if k == 1 { 3 } else if k == 2 { 6 } else { 7 }
}

pub open spec fn index_at(k: int) -> u64 {
    if k == 0 { 1 } else if k == 1 { u64::MAX } else if k == 2 { 0xdead_beef_0000_0001 } else { 0x8000_0000 }
}

pub open spec fn rt_at(k: int) -> u32 {
    if k == 0 { 1 } else if k == 1 { 2 } else if k == 2 { 3 } else { 31 }
}

pub open spec fn pow2_size(size: u32) -> int {
    if size == 0 { 1 } else if size == 1 { 2 } else if size == 2 { 4 } else { 8 }
}

/// The index register as the extend option reads it: UXTW and SXTW take the
/// low word, zero- or sign-extended; LSL and SXTX take all 64 bits.
pub open spec fn extended_index(index: u64, option: u32) -> int {
    let base: int = if option & 1 != 0 { index as int } else { (index & 0xffff_ffff) as int };
    if option == 6 && index & 0x8000_0000 != 0 { base - 0x1_0000_0000 } else { base }
}

/// The byte offset: the extended index, scaled by the access size when S is
/// set, modulo 2^64.
pub open spec fn spec_offset(index: u64, option: u32, scale: u32, size: u32) -> u64 {
    (extended_index(index, option) * (if scale != 0 { pow2_size(size) } else { 1 })) as u64
}

pub open spec fn spec_case(size: u32, opc: u32, option: u32, scale: u32, index: u64, rt: u32) -> Case {
    Case {
        word: spec_word(size, opc, option, scale, 1, 2, rt),
        index,
        offset: spec_offset(index, option, scale, size),
        bytes: pow2_size(size) as usize,
        opc,
        rt: rt as usize,
    }
}

pub open spec fn generated(c: Case) -> bool {
    exists|size: u32, opc: u32, ko: int, scale: u32, ki: int, kr: int|
        form_valid(size, opc) && 0 <= ko < 4 && scale < 2 && 0 <= ki < 4 && 0 <= kr < 4 && c == #[trigger] spec_case(
            size,
            opc,
            option_at(ko),
            scale,
            index_at(ki),
            rt_at(kr),
        )
}

/// Number of valid forms before `(size, opc)` in size-major order.
pub open spec fn forms_before(size: int, opc: int) -> int {
    let k = 4 * size + opc;
    k - (if k > 11 { 1int } else { 0 }) - (if k > 14 { 1int } else { 0 }) - (if k > 15 { 1int } else { 0 })
}

fn make_case(size: u32, opc: u32, option: u32, scale: u32, index: u64, rt: u32) -> (c: Case)
    requires
        size < 4,
        option == 2 || option == 3 || option == 6 || option == 7,
        scale < 2,
    ensures
        c == spec_case(size, opc, option, scale, index, rt),
{
    let base: i128 = if option & 1 != 0 { index as i128 } else { (index & 0xffff_ffff) as i128 };
    let signed: i128 = if option == 6 && index & 0x8000_0000 != 0 { base - 0x1_0000_0000 } else { base };
    let factor: i128 = if scale != 0 {
        if size == 0 { 1 } else if size == 1 { 2 } else if size == 2 { 4 } else { 8 }
    } else {
        1
    };
    proof {
        assert(index & 0xffff_ffff <= 0xffff_ffff) by {
            crate::bits::lemma_u64_bits(index);
        }
        assert(signed * factor <= 8 * 0xffff_ffff_ffff_ffff && signed * factor >= -8 * 0x1_0000_0000) by (nonlinear_arith)
            requires
                -0x1_0000_0000 <= signed <= 0xffff_ffff_ffff_ffff,
                1 <= factor <= 8,
        ;
    }
    let bytes: usize = if size == 0 { 1 } else if size == 1 { 2 } else if size == 2 { 4 } else { 8 };
    Case { word: word(size, opc, option, scale, 1, 2, rt), index, offset: (signed * factor) as u64, bytes, opc, rt: rt as usize }
}

/// Every valid form with every extend option, scale, index value and
/// target register; the base is X1 and the index X2.
pub fn cases() -> (out: Vec<Case>)
    ensures
        out.len() == 13 * 128,
        forall|j: int| 0 <= j < out.len() ==> generated(#[trigger] out@[j]),
{
    let options: [u32; 4] = [2, 3, 6, 7];
    let indices: [u64; 4] = [1, u64::MAX, 0xdead_beef_0000_0001, 0x8000_0000];
    let rts: [u32; 4] = [1, 2, 3, 31];
    let mut out: Vec<Case> = Vec::new();
    let mut size: u32 = 0;
    while size < 4
        invariant
            size <= 4,
            options@ == seq![2u32, 3, 6, 7],
            indices@ == seq![1u64, u64::MAX, 0xdead_beef_0000_0001, 0x8000_0000],
            rts@ == seq![1u32, 2, 3, 31],
            out.len() == 128 * forms_before(size as int, 0),
            forall|j: int| 0 <= j < out.len() ==> generated(#[trigger] out@[j]),
        decreases 4 - size,
    {
        let mut opc: u32 = 0;
        while opc < 4
            invariant
                size < 4,
                opc <= 4,
                options@ == seq![2u32, 3, 6, 7],
                indices@ == seq![1u64, u64::MAX, 0xdead_beef_0000_0001, 0x8000_0000],
                rts@ == seq![1u32, 2, 3, 31],
                out.len() == 128 * forms_before(size as int, opc as int),
                forall|j: int| 0 <= j < out.len() ==> generated(#[trigger] out@[j]),
            decreases 4 - opc,
        {
            if opc >= 2 && (size == 3 || (size == 2 && opc == 3)) {
                opc = opc + 1;
                continue;
            }
            let ghost start = out.len();
            let mut ko: usize = 0;
            while ko < 4
                invariant
                    form_valid(size, opc),
                    ko <= 4,
                    options@ == seq![2u32, 3, 6, 7],
                    indices@ == seq![1u64, u64::MAX, 0xdead_beef_0000_0001, 0x8000_0000],
                    rts@ == seq![1u32, 2, 3, 31],
                    out.len() == start + 32 * ko,
                    forall|j: int| 0 <= j < out.len() ==> generated(#[trigger] out@[j]),
                decreases 4 - ko,
            {
                let option = options[ko];
                assert(option == option_at(ko as int));
                let mut scale: u32 = 0;
                while scale < 2
                    invariant
                        form_valid(size, opc),
                        ko < 4,
                        option == option_at(ko as int),
                        scale <= 2,
                        indices@ == seq![1u64, u64::MAX, 0xdead_beef_0000_0001, 0x8000_0000],
                        rts@ == seq![1u32, 2, 3, 31],
                        out.len() == start + 32 * ko + 16 * scale,
                        forall|j: int| 0 <= j < out.len() ==> generated(#[trigger] out@[j]),
                    decreases 2 - scale,
                {
                    let mut ki: usize = 0;
                    while ki < 4
                        invariant
                            form_valid(size, opc),
                            ko < 4,
                            option == option_at(ko as int),
                            scale < 2,
                            ki <= 4,
                            indices@ == seq![1u64, u64::MAX, 0xdead_beef_0000_0001, 0x8000_0000],
                            rts@ == seq![1u32, 2, 3, 31],
                            out.len() == start + 32 * ko + 16 * scale + 4 * ki,
                            forall|j: int| 0 <= j < out.len() ==> generated(#[trigger] out@[j]),
                        decreases 4 - ki,
                    {
                        let index = indices[ki];
                        assert(index == index_at(ki as int));
                        let mut kr: usize = 0;
                        while kr < 4
                            invariant
                                form_valid(size, opc),
                                ko < 4,
                                option == option_at(ko as int),
                                scale < 2,
                                ki < 4,
                                index == index_at(ki as int),
                                kr <= 4,
                                rts@ == seq![1u32, 2, 3, 31],
                                out.len() == start + 32 * ko + 16 * scale + 4 * ki + kr,
                                forall|j: int| 0 <= j < out.len() ==> generated(#[trigger] out@[j]),
                            decreases 4 - kr,
                        {
                            let rt = rts[kr];
                            assert(rt == rt_at(kr as int));
                            let c = make_case(size, opc, option, scale, index, rt);
                            out.push(c);
                            assert(generated(out@[out.len() - 1]));
                            kr = kr + 1;
                        }
                        ki = ki + 1;
                    }
                    scale = scale + 1;
                }
                ko = ko + 1;
            }
            opc = opc + 1;
        }
        size = size + 1;
    }
    out
}

/// The register a load leaves: the loaded value, sign-extended for the
/// signed forms (opc 2 to 64 bits, opc 3 to 32 bits), limited to 32 bits
/// for the 32-bit forms.
pub open spec fn loaded(value: u64, bytes: usize, opc: u32) -> u64 {
    let top: u64 = 1u64 << ((bytes * 8 - 1) as u64);
    let signed: int = if opc >= 2 && value & top != 0 { value as int - bytes_modulus(bytes) } else { value as int };
    if opc == 3 || (opc == 1 && bytes < 8) { ((signed as u32) as u64) } else { signed as u64 }
}

/// 2^(8 * bytes).
pub open spec fn bytes_modulus(bytes: usize) -> int {
    if bytes == 1 {
        0x100
    } else if bytes == 2 {
        0x1_0000
    } else if bytes == 4 {
        0x1_0000_0000
    } else {
        0x1_0000_0000_0000_0000
    }
}

/// The effect of the case at RAM index `at`: a store (opc 0) writes the low
/// bytes of Rt (zero for XZR) little-endian; a load writes Rt, unless XZR,
/// from the bytes there.
pub fn expected(case: &Case, registers: &mut [u64; 4], ram: &mut [u8], at: usize)
    requires
        case.bytes == 1 || case.bytes == 2 || case.bytes == 4 || case.bytes == 8,
        case.opc < 4,
        case.rt < 4 || case.rt == 31,
        at + case.bytes <= old(ram)@.len(),
    ensures
        case.opc == 0 ==> {
            &&& final(ram)@ == old(ram)@.subrange(0, at as int) + le_bytes(
                if case.rt == 31 { 0 } else { old(registers)@[case.rt as int] },
                case.bytes as nat,
            ) + old(ram)@.subrange(at + case.bytes, old(ram)@.len() as int)
            &&& *final(registers) == *old(registers)
        },
        case.opc != 0 ==> {
            &&& final(ram)@ == old(ram)@
            &&& forall|j: int| 0 <= j < 4 && j != case.rt ==> final(registers)@[j] == old(registers)@[j]
            &&& case.rt != 31 ==> final(registers)@[case.rt as int] == loaded(
                le_value(old(ram)@.subrange(at as int, at + case.bytes)),
                case.bytes,
                case.opc,
            )
        },
{
    if case.opc == 0 {
        let value = if case.rt == 31 { 0 } else { registers[case.rt] };
        let _ = write_width(ram, at, case.bytes, value);
    } else {
        let value = match read_width(ram, at, case.bytes) {
            Some(v) => v,
            None => 0,
        };
        let top: u64 = 1u64 << ((case.bytes * 8 - 1) as u64);
        let modulus: i128 = if case.bytes == 1 {
            0x100
        } else if case.bytes == 2 {
            0x1_0000
        } else if case.bytes == 4 {
            0x1_0000_0000
        } else {
            0x1_0000_0000_0000_0000
        };
        let signed: i128 = if case.opc >= 2 && value & top != 0 { value as i128 - modulus } else { value as i128 };
        if case.rt != 31 {
            registers[case.rt] = if case.opc == 3 || (case.opc == 1 && case.bytes < 8) {
                (signed as u32) as u64
            } else {
                signed as u64
            };
        }
    }
}

/// The rejected-form word of `(size, opc, option, vector)`.
pub open spec fn invalid_word(size: u32, opc: u32, option: u32, vector: u32) -> u32 {
    spec_word(size, opc, option, 1, 1, 2, 3) | (vector << 26u32)
}

/// Outside the general-register class: the SIMD bit, an option without
/// bit 1 (reserved extends), or an invalid size/opc pair.
pub open spec fn rejected(size: u32, opc: u32, option: u32, vector: u32) -> bool {
    vector != 0 || option & 2 == 0 || (opc >= 2 && (size == 3 || (size == 2 && opc == 3)))
}

/// A word of some rejected form.
pub open spec fn rejected_word(w: u32) -> bool {
    exists|size: u32, opc: u32, option: u32, vector: u32|
        size < 4 && opc < 4 && option < 8 && vector < 2 && rejected(size, opc, option, vector) && w
            == #[trigger] invalid_word(size, opc, option, vector)
}

pub fn invalid() -> (out: Vec<u32>)
    ensures
        forall|j: int| 0 <= j < out.len() ==> rejected_word(#[trigger] out@[j]),
{
    let mut out: Vec<u32> = Vec::new();
    let mut size: u32 = 0;
    while size < 4
        invariant
            size <= 4,
            forall|j: int| 0 <= j < out.len() ==> rejected_word(#[trigger] out@[j]),
        decreases 4 - size,
    {
        let mut opc: u32 = 0;
        while opc < 4
            invariant
                size < 4,
                opc <= 4,
                forall|j: int| 0 <= j < out.len() ==> rejected_word(#[trigger] out@[j]),
            decreases 4 - opc,
        {
            let mut option: u32 = 0;
            while option < 8
                invariant
                    size < 4,
                    opc < 4,
                    option <= 8,
                    forall|j: int| 0 <= j < out.len() ==> rejected_word(#[trigger] out@[j]),
                decreases 8 - option,
            {
                let mut vector: u32 = 0;
                while vector < 2
                    invariant
                        size < 4,
                        opc < 4,
                        option < 8,
                        vector <= 2,
                        forall|j: int| 0 <= j < out.len() ==> rejected_word(#[trigger] out@[j]),
                    decreases 2 - vector,
                {
                    if vector != 0 || option & 2 == 0 || (opc >= 2 && (size == 3 || (size == 2 && opc == 3))) {
                        let w = word(size, opc, option, 1, 1, 2, 3) | (vector << 26u32);
                        assert(w == invalid_word(size, opc, option, vector));
                        out.push(w);
                    }
                    vector = vector + 1;
                }
                option = option + 1;
            }
            opc = opc + 1;
        }
        size = size + 1;
    }
    out
}

} // verus!
