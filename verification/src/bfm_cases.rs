//! Bitfield-move (BFM) provider cases: every immr/imms pair of both widths
//! with five register roles, and the bit-by-bit expected register file.
use vstd::prelude::*;

verus! {

#[derive(Clone, Copy, Debug)]
pub struct Case {
    pub word: u32,
    pub width: u32,
    pub r: u32,
    pub s: u32,
    pub rn: usize,
    pub rd: usize,
    pub initial: [u64; 4],
}

/// A register operand of the case's four-entry register file, or 31 (XZR).
pub open spec fn register_role(r: usize) -> bool {
    r < 4 || r == 31
}

/// The domain the cases are drawn from.
pub open spec fn case_valid(c: Case) -> bool {
    &&& c.width == 32 || c.width == 64
    &&& c.r < c.width && c.s < c.width
    &&& register_role(c.rn) && register_role(c.rd)
}

/// The (Rn, Rd) pairs every immr/imms pair is tried with.
pub open spec fn role_pair(p: int) -> (usize, usize) {
    if p == 0 {
        (1, 2)
    } else if p == 1 {
        (31, 2)
    } else if p == 2 {
        (1, 31)
    } else if p == 3 {
        (1, 1)
    } else {
        (31, 31)
    }
}

/// The A64 BFM encoding of the case's fields.
pub open spec fn spec_bfm_word(width: u32, r: u32, s: u32, rn: usize, rd: usize) -> u32 {
    let sf: u32 = if width == 64 { 1 } else { 0 };
    0x3300_0000u32 | (sf << 31u32) | (sf << 22u32) | (r << 16u32) | (s << 10u32) | ((rn as u32) << 5u32) | (rd as u32)
}

/// `x` rotated left by `n` (below 64) bits.
pub open spec fn spec_rotl(x: u64, n: u32) -> u64 {
    if n == 0 { x } else { (x << n) | (x >> ((64 - n) as u32)) }
}

/// The register file every case with `(r, s)` starts from.
pub open spec fn spec_initial(r: u32, s: u32) -> [u64; 4] {
    [0x1234u64, spec_rotl(0x89ab_cdef_0123_4567u64, r), spec_rotl(0xa5a5_a5a5_5a5a_5a5au64, s), 0xfedc_ba98_7654_3210u64]
}

/// The case for `width`, `(r, s)` and role pair `p`.
pub open spec fn spec_case(width: u32, r: u32, s: u32, p: int) -> Case {
    let (rn, rd) = role_pair(p);
    Case { word: spec_bfm_word(width, r, s, rn, rd), width, r, s, rn, rd, initial: spec_initial(r, s) }
}

/// Whether `c` is the case of some width, in-range `(r, s)` and role pair.
pub open spec fn generated(c: Case) -> bool {
    exists|width: u32, r: u32, s: u32, p: int|
        (width == 32 || width == 64) && r < width && s < width && 0 <= p < 5 && c == #[trigger] spec_case(width, r, s, p)
}

fn rotl(x: u64, n: u32) -> (y: u64)
    requires
        n < 64,
    ensures
        y == spec_rotl(x, n),
{
    if n == 0 { x } else { (x << n) | (x >> (64 - n)) }
}

fn make_case(width: u32, r: u32, s: u32, p: usize) -> (c: Case)
    requires
        width == 32 || width == 64,
        r < width,
        s < width,
        p < 5,
    ensures
        c == spec_case(width, r, s, p as int),
        case_valid(c),
{
    let (rn, rd): (usize, usize) = if p == 0 {
        (1, 2)
    } else if p == 1 {
        (31, 2)
    } else if p == 2 {
        (1, 31)
    } else if p == 3 {
        (1, 1)
    } else {
        (31, 31)
    };
    let sf: u32 = if width == 64 { 1 } else { 0 };
    let word = 0x3300_0000u32 | (sf << 31u32) | (sf << 22u32) | (r << 16u32) | (s << 10u32) | ((rn as u32) << 5u32)
        | (rd as u32);
    let initial = [0x1234u64, rotl(0x89ab_cdef_0123_4567u64, r), rotl(0xa5a5_a5a5_5a5a_5a5au64, s), 0xfedc_ba98_7654_3210u64];
    Case { word, width, r, s, rn, rd, initial }
}

/// Every case: both widths, every `(r, s)` below the width, five role
/// pairs each.
pub fn each() -> (cases: Vec<Case>)
    ensures
        cases.len() == 5 * (32 * 32 + 64 * 64),
        forall|i: int| 0 <= i < cases.len() ==> case_valid(#[trigger] cases@[i]) && generated(cases@[i]),
{
    let mut cases: Vec<Case> = Vec::new();
    let mut w: usize = 0;
    while w < 2
        invariant
            w <= 2,
            cases.len() == if w == 0 { 0 } else if w == 1 { 5 * 32 * 32 } else { 5 * (32 * 32 + 64 * 64) },
            forall|i: int| 0 <= i < cases.len() ==> case_valid(#[trigger] cases@[i]) && generated(cases@[i]),
        decreases 2 - w,
    {
        let width: u32 = if w == 0 { 32 } else { 64 };
        let ghost start = cases.len();
        let mut r: u32 = 0;
        while r < width
            invariant
                w < 2,
                width == (if w == 0 { 32u32 } else { 64u32 }),
                r <= width,
                start == (if w == 0 { 0 } else { 5 * 32 * 32 }),
                cases.len() == start + 5 * width * r,
                forall|i: int| 0 <= i < cases.len() ==> case_valid(#[trigger] cases@[i]) && generated(cases@[i]),
            decreases width - r,
        {
            let mut s: u32 = 0;
            while s < width
                invariant
                    w < 2,
                    width == (if w == 0 { 32u32 } else { 64u32 }),
                    r < width,
                    s <= width,
                    start == (if w == 0 { 0 } else { 5 * 32 * 32 }),
                    cases.len() == start + 5 * width * r + 5 * s,
                    forall|i: int| 0 <= i < cases.len() ==> case_valid(#[trigger] cases@[i]) && generated(cases@[i]),
                decreases width - s,
            {
                let mut p: usize = 0;
                while p < 5
                    invariant
                        w < 2,
                        width == (if w == 0 { 32u32 } else { 64u32 }),
                        r < width,
                        s < width,
                        p <= 5,
                        start == (if w == 0 { 0 } else { 5 * 32 * 32 }),
                        cases.len() == start + 5 * width * r + 5 * s + p,
                        forall|i: int| 0 <= i < cases.len() ==> case_valid(#[trigger] cases@[i]) && generated(cases@[i]),
                    decreases 5 - p,
                {
                    let c = make_case(width, r, s, p);
                    cases.push(c);
                    p = p + 1;
                }
                s = s + 1;
            }
            proof {
                assert(5 * width * r + 5 * width == 5 * width * (r + 1)) by (nonlinear_arith);
            }
            r = r + 1;
        }
        proof {
            if w == 0 {
                assert(5 * width * width == 5 * 32 * 32);
            } else {
                assert(5 * width * width == 5 * 64 * 64);
            }
        }
        w = w + 1;
    }
    cases
}

/// The lowest and highest destination bit the move writes.
pub open spec fn first_bit(c: Case) -> u32 {
    if c.s >= c.r { 0 } else { (c.width - c.r) as u32 }
}

pub open spec fn last_bit(c: Case) -> u32 {
    if c.s >= c.r { (c.s - c.r) as u32 } else { (c.width - c.r + c.s) as u32 }
}

/// Bit `bit` of the destination: the old destination bit outside
/// `[first, last]`, otherwise the source bit the field comes from.
pub open spec fn result_bit(c: Case, source: u64, old: u64, bit: u64) -> u64 {
    if bit < first_bit(c) || bit > last_bit(c) {
        (old >> bit) & 1
    } else if c.s >= c.r {
        (source >> ((bit + c.r) as u64)) & 1
    } else {
        (source >> ((bit - first_bit(c)) as u64)) & 1
    }
}

/// A register as an operand: XZR reads zero.
pub open spec fn operand(initial: [u64; 4], r: usize) -> u64 {
    if r == 31 { 0 } else { initial@[r as int] }
}

proof fn lemma_set_bit(value: u64, b: u64, bit: u64, j: u64)
    requires
        b <= 1,
        bit < 64,
        j < 64,
        (value >> bit) & 1 == 0,
    ensures
        ((value | (b << bit)) >> j) & 1 == if j == bit { b } else { (value >> j) & 1 },
{
    assert(((value | (b << bit)) >> j) & 1 == if j == bit { b } else { (value >> j) & 1 }) by (bit_vector)
        requires
            b <= 1,
            bit < 64,
            j < 64,
            (value >> bit) & 1 == 0,
    ;
}

/// The register file after the case's BFM: the destination bit by bit,
/// every other register unchanged; a write to XZR changes nothing.
pub fn expected(c: Case, initial: [u64; 4]) -> (out: [u64; 4])
    requires
        case_valid(c),
    ensures
        c.rd == 31 ==> out == initial,
        forall|j: int| 0 <= j < 4 && j != c.rd ==> out@[j] == initial@[j],
        c.rd != 31 ==> forall|bit: u64|
            bit < 64 ==> (#[trigger] (out@[c.rd as int] >> bit) & 1) == if bit < c.width {
                result_bit(c, operand(initial, c.rn), operand(initial, c.rd), bit)
            } else {
                0
            },
{
    let source = if c.rn == 31 { 0 } else { initial[c.rn] };
    let old = if c.rd == 31 { 0 } else { initial[c.rd] };
    let first: u64 = if c.s >= c.r { 0 } else { (c.width - c.r) as u64 };
    let last: u64 = if c.s >= c.r { (c.s - c.r) as u64 } else { (c.width - c.r + c.s) as u64 };
    let width = c.width as u64;
    let rot = c.r as u64;
    let mut value: u64 = 0;
    let mut bit: u64 = 0;
    proof {
        assert forall|j: u64| j < 64 implies (value >> j) & 1 == 0 by {
            assert((0u64 >> j) & 1 == 0) by {
                crate::bits::lemma_u64_bits(j);
            }
        }
    }
    while bit < width
        invariant
            case_valid(c),
            width == c.width,
            rot == c.r,
            bit <= width,
            source == operand(initial, c.rn),
            old == operand(initial, c.rd),
            first == first_bit(c),
            last == last_bit(c),
            forall|j: u64| j < bit ==> (#[trigger] (value >> j) & 1) == result_bit(c, source, old, j),
            forall|j: u64| bit <= j < 64 ==> (#[trigger] (value >> j) & 1) == 0,
        decreases width - bit,
    {
        let b: u64 = if bit < first || bit > last {
            (old >> bit) & 1
        } else {
            (source >> (if c.s >= c.r { bit + rot } else { bit - first })) & 1
        };
        proof {
            assert(b == result_bit(c, source, old, bit));
            let t = old >> bit;
            let u = source >> (if c.s >= c.r { (bit + rot) as u64 } else { (bit - first) as u64 });
            assert(t & 1 <= 1) by {
                crate::bits::lemma_u64_bits(t);
            }
            assert(u & 1 <= 1) by {
                crate::bits::lemma_u64_bits(u);
            }
            assert forall|j: u64| j < 64 implies #[trigger] ((value | (b << bit)) >> j) & 1 == if j == bit {
                b
            } else {
                (value >> j) & 1
            } by {
                assert((value >> bit) & 1 == 0);
                lemma_set_bit(value, b, bit, j);
            }
        }
        value = value | (b << bit);
        bit = bit + 1;
    }
    let mut out = initial;
    if c.rd != 31 {
        out[c.rd] = value;
    }
    out
}

/// Encodings outside the BFM class: 64-bit with N clear, 32-bit with N
/// set, imms or immr bit 5 set at 32 bits, and neighbouring opcodes.
pub fn invalid() -> (words: [u32; 8])
    ensures
        words@ == seq![0xb300_0002u32, 0x3340_0002, 0x3320_0002, 0x3300_8002, 0x3380_0002, 0x7300_0002, 0x1300_0002, 0x9340_0002],
{
    let words = [0xb300_0002u32, 0x3340_0002, 0x3320_0002, 0x3300_8002, 0x3380_0002, 0x7300_0002, 0x1300_0002, 0x9340_0002];
    assert(words@ =~= seq![0xb300_0002u32, 0x3340_0002, 0x3320_0002, 0x3300_8002, 0x3380_0002, 0x7300_0002, 0x1300_0002, 0x9340_0002]);
    words
}

} // verus!
