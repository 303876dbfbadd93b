//! Unsigned bitfield-move (UBFM) provider cases: each expectation places
//! the individual source bits of the field.
use vstd::prelude::*;

verus! {

#[derive(Clone, Copy, Debug)]
pub struct Case {
    pub word: u32,
    pub source: u64,
    pub destination: usize,
    pub expected: u64,
    pub flags: u64,
}

/// The destination bit a set source bit `bit` lands on, if any: bits
/// `rotate..=end` move down by `rotate` when `end >= rotate`; otherwise bits
/// `0..=end` move up by `width - rotate`.
pub open spec fn placed(width: u32, rotate: u32, end: u32, bit: u32) -> Option<u32> {
    if end >= rotate && bit >= rotate && bit <= end {
        Some((bit - rotate) as u32)
    } else if end < rotate && bit <= end {
        Some((bit + width - rotate) as u32)
    } else {
        None
    }
}

/// The destination value from the low `n` source bits of `input`.
pub open spec fn field(width: u32, rotate: u32, end: u32, input: u64, n: u32) -> u64
    decreases n,
{
    if n == 0 {
        0
    } else {
        let bit = (n - 1) as u32;
        let prior = field(width, rotate, end, input, bit);
        if input & (1u64 << bit) == 0 {
            prior
        } else {
            match placed(width, rotate, end, bit) {
                Some(d) => prior | (1u64 << d),
                None => prior,
            }
        }
    }
}

pub open spec fn rotate_at(width: u32, k: int) -> u32 {
    if k == 0 { 0 } else if k == 1 { 1 } else if k == 2 { width / 2 } else { (width - 1) as u32 }
}

pub open spec fn source_at(k: int) -> u64 {
    if k == 0 { 0 } else if k == 1 { u64::MAX } else { 0xdead_beef_0123_4567 }
}

/// The UBFM encoding with Rn and Rd from `mode`: bit 0 selects XZR as Rn,
/// mode 3 writes XZR, mode 2 writes X1 (the source register), else X3.
pub open spec fn spec_case(width: u32, rotate: u32, end: u32, mode: u32, source: u64) -> Case {
    let rn: u32 = if mode & 1 != 0 { 31 } else { 1 };
    let rd: u32 = if mode == 3 { 31 } else if mode == 2 { 1 } else { 3 };
    let input: u64 = if rn == 31 { 0 } else { source };
    let sf: u32 = if width == 64 { 1 } else { 0 };
    Case {
        word: 0x5300_0000u32 | (sf << 31u32) | (sf << 22u32) | (rotate << 16u32) | (end << 10u32) | (rn << 5u32) | rd,
        source,
        destination: rd as usize,
        expected: field(width, rotate, end, input, width),
        flags: ((rotate + end + mode) % 16) as u64,
    }
}

pub open spec fn generated(c: Case) -> bool {
    exists|width: u32, kr: int, ke: int, mode: u32, ks: int|
        (width == 32 || width == 64) && 0 <= kr < 4 && 0 <= ke < 4 && mode < 4 && 0 <= ks < 3 && c == #[trigger] spec_case(
            width,
            rotate_at(width, kr),
            rotate_at(width, ke),
            mode,
            source_at(ks),
        )
}

fn make_case(width: u32, rotate: u32, end: u32, mode: u32, source: u64) -> (c: Case)
    requires
        width == 32 || width == 64,
        rotate < width,
        end < width,
        mode < 4,
    ensures
        c == spec_case(width, rotate, end, mode, source),
{
    let rn: u32 = if mode & 1 != 0 { 31 } else { 1 };
    let rd: u32 = if mode == 3 { 31 } else if mode == 2 { 1 } else { 3 };
    let input: u64 = if rn == 31 { 0 } else { source };
    let mut expected: u64 = 0;
    let mut bit: u32 = 0;
    while bit < width
        invariant
            width == 32 || width == 64,
            rotate < width,
            end < width,
            bit <= width,
            expected == field(width, rotate, end, input, bit),
        decreases width - bit,
    {
        if input & (1u64 << bit) != 0 {
            if end >= rotate && bit >= rotate && bit <= end {
                expected = expected | (1u64 << (bit - rotate));
            } else if end < rotate && bit <= end {
                expected = expected | (1u64 << (bit + width - rotate));
            }
        }
        bit = bit + 1;
    }
    let sf: u32 = if width == 64 { 1 } else { 0 };
    let word = 0x5300_0000u32 | (sf << 31u32) | (sf << 22u32) | (rotate << 16u32) | (end << 10u32) | (rn << 5u32) | rd;
    let sum: u32 = rotate + end + mode;
    assert(sum & 15 == sum % 16) by {
        crate::bits::lemma_u32_bits(sum);
    }
    Case { word, source, destination: rd as usize, expected, flags: (sum & 15) as u64 }
}

/// Every case: both widths, immr and imms each at 0, 1, half and all but
/// one bit, four register modes and three source values.
pub fn cases() -> (out: Vec<Case>)
    ensures
        out.len() == 2 * 4 * 4 * 4 * 3,
        forall|j: int| 0 <= j < out.len() ==> generated(#[trigger] out@[j]),
{
    let sources: [u64; 3] = [0, u64::MAX, 0xdead_beef_0123_4567];
    let mut out: Vec<Case> = Vec::new();
    let mut w: usize = 0;
    while w < 2
        invariant
            w <= 2,
            sources@ == seq![0u64, u64::MAX, 0xdead_beef_0123_4567],
            out.len() == 192 * w,
            forall|j: int| 0 <= j < out.len() ==> generated(#[trigger] out@[j]),
        decreases 2 - w,
    {
        let width: u32 = if w == 0 { 32 } else { 64 };
        let rotations: [u32; 4] = [0, 1, width / 2, width - 1];
        let mut kr: usize = 0;
        while kr < 4
            invariant
                w < 2,
                width == 32 || width == 64,
                rotations@ == seq![0u32, 1, width / 2, (width - 1) as u32],
                kr <= 4,
                sources@ == seq![0u64, u64::MAX, 0xdead_beef_0123_4567],
                out.len() == 192 * w + 48 * kr,
                forall|j: int| 0 <= j < out.len() ==> generated(#[trigger] out@[j]),
            decreases 4 - kr,
        {
            let rotate = rotations[kr];
            assert(rotate == rotate_at(width, kr as int));
            let mut ke: usize = 0;
            while ke < 4
                invariant
                    w < 2,
                    width == 32 || width == 64,
                    rotations@ == seq![0u32, 1, width / 2, (width - 1) as u32],
                    kr < 4,
                    rotate == rotate_at(width, kr as int),
                    ke <= 4,
                    sources@ == seq![0u64, u64::MAX, 0xdead_beef_0123_4567],
                    out.len() == 192 * w + 48 * kr + 12 * ke,
                    forall|j: int| 0 <= j < out.len() ==> generated(#[trigger] out@[j]),
                decreases 4 - ke,
            {
                let end = rotations[ke];
                assert(end == rotate_at(width, ke as int));
                let mut mode: u32 = 0;
                while mode < 4
                    invariant
                        w < 2,
                        width == 32 || width == 64,
                        kr < 4,
                        ke < 4,
                        rotate == rotate_at(width, kr as int),
                        end == rotate_at(width, ke as int),
                        mode <= 4,
                        sources@ == seq![0u64, u64::MAX, 0xdead_beef_0123_4567],
                        out.len() == 192 * w + 48 * kr + 12 * ke + 3 * mode,
                        forall|j: int| 0 <= j < out.len() ==> generated(#[trigger] out@[j]),
                    decreases 4 - mode,
                {
                    let mut ks: usize = 0;
                    while ks < 3
                        invariant
                            w < 2,
                            width == 32 || width == 64,
                            kr < 4,
                            ke < 4,
                            rotate == rotate_at(width, kr as int),
                            end == rotate_at(width, ke as int),
                            mode < 4,
                            ks <= 3,
                            sources@ == seq![0u64, u64::MAX, 0xdead_beef_0123_4567],
                            out.len() == 192 * w + 48 * kr + 12 * ke + 3 * mode + ks,
                            forall|j: int| 0 <= j < out.len() ==> generated(#[trigger] out@[j]),
                        decreases 3 - ks,
                    {
                        let source = sources[ks];
                        assert(source == source_at(ks as int));
                        let c = make_case(width, rotate, end, mode, source);
                        out.push(c);
                        assert(generated(out@[out.len() - 1]));
                        ks = ks + 1;
                    }
                    mode = mode + 1;
                }
                ke = ke + 1;
            }
            kr = kr + 1;
        }
        w = w + 1;
    }
    out
}

/// Encodings outside UBFM: N and sf disagreeing, 32-bit immr or imms with
/// bit 5 set, and the neighbouring SBFM/BFM/reserved opcodes.
pub const INVALID: [u32; 11] = [
    0xd300_0023,
    0x5340_0023,
    0x5320_0023,
    0x5300_8023,
    0x5360_8023,
    0xb300_0023,
    0x3340_0023,
    0x1300_0023,
    0x9340_0023,
    0x7300_0023,
    0xf340_0023,
];

} // verus!
