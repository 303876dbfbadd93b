//! Multiply-add (MADD/MSUB) provider cases and their expected register file.
use vstd::prelude::*;

verus! {

#[derive(Clone, Copy, Debug)]
pub struct Case {
    pub word: u32,
    pub wide: bool,
    pub sub: bool,
    pub rn: usize,
    pub rm: usize,
    pub ra: usize,
    pub rd: usize,
    pub initial: [u64; 4],
}

/// The operand values the cases rotate through.
pub open spec fn value_at(i: int) -> u64 {
    if i == 0 {
        0
    } else if i == 1 {
        1
    } else if i == 2 {
        u64::MAX
    } else if i == 3 {
        0x7fff_ffff
    } else if i == 4 {
        0x8000_0000
    } else if i == 5 {
        0xffff_ffff
    } else if i == 6 {
        0x8000_0000_0000_0000
    } else {
        0xabcd_ef01_8765_4321
    }
}

/// The register roles `(Rn, Rm, Ra, Rd)` tried with every value.
pub open spec fn roles_at(k: int) -> (usize, usize, usize, usize) {
    if k == 0 {
        (0, 1, 2, 3)
    } else if k == 1 {
        (31, 1, 2, 3)
    } else if k == 2 {
        (0, 31, 2, 3)
    } else if k == 3 {
        (0, 1, 31, 3)
    } else if k == 4 {
        (0, 1, 2, 31)
    } else if k == 5 {
        (0, 1, 2, 0)
    } else if k == 6 {
        (0, 1, 2, 1)
    } else if k == 7 {
        (0, 1, 2, 2)
    } else if k == 8 {
        (0, 0, 0, 0)
    } else {
        (31, 31, 31, 31)
    }
}

/// The A64 MADD/MSUB encoding.
pub open spec fn spec_madd_word(wide: bool, sub: bool, rn: usize, rm: usize, ra: usize, rd: usize) -> u32 {
    let sf: u32 = if wide { 1 } else { 0 };
    let o0: u32 = if sub { 1 } else { 0 };
    0x1b00_0000u32 | (sf << 31u32) | (o0 << 15u32) | ((rm as u32) << 16u32) | ((ra as u32) << 10u32) | ((rn as u32)
        << 5u32) | (rd as u32)
}

pub open spec fn spec_case(wide: bool, sub: bool, i: int, k: int) -> Case {
    let (rn, rm, ra, rd) = roles_at(k);
    Case {
        word: spec_madd_word(wide, sub, rn, rm, ra, rd),
        wide,
        sub,
        rn,
        rm,
        ra,
        rd,
        initial: [value_at(i), value_at((i + 1) % 8), value_at((i + 3) % 8), 0xaabb_ccdd_eeff_0011u64],
    }
}

pub open spec fn generated(c: Case) -> bool {
    exists|wide: bool, sub: bool, i: int, k: int| 0 <= i < 8 && 0 <= k < 10 && c == #[trigger] spec_case(wide, sub, i, k)
}

pub open spec fn register_role(r: usize) -> bool {
    r < 4 || r == 31
}

pub open spec fn case_valid(c: Case) -> bool {
    register_role(c.rn) && register_role(c.rm) && register_role(c.ra) && register_role(c.rd)
}

fn value(i: usize) -> (v: u64)
    requires
        i < 8,
    ensures
        v == value_at(i as int),
{
    if i == 0 {
        0
    } else if i == 1 {
        1
    } else if i == 2 {
        u64::MAX
    } else if i == 3 {
        0x7fff_ffff
    } else if i == 4 {
        0x8000_0000
    } else if i == 5 {
        0xffff_ffff
    } else if i == 6 {
        0x8000_0000_0000_0000
    } else {
        0xabcd_ef01_8765_4321
    }
}

fn make_case(wide: bool, sub: bool, i: usize, k: usize) -> (c: Case)
    requires
        i < 8,
        k < 10,
    ensures
        c == spec_case(wide, sub, i as int, k as int),
        case_valid(c),
{
    let (rn, rm, ra, rd): (usize, usize, usize, usize) = if k == 0 {
        (0, 1, 2, 3)
    } else if k == 1 {
        (31, 1, 2, 3)
    } else if k == 2 {
        (0, 31, 2, 3)
    } else if k == 3 {
        (0, 1, 31, 3)
    } else if k == 4 {
        (0, 1, 2, 31)
    } else if k == 5 {
        (0, 1, 2, 0)
    } else if k == 6 {
        (0, 1, 2, 1)
    } else if k == 7 {
        (0, 1, 2, 2)
    } else if k == 8 {
        (0, 0, 0, 0)
    } else {
        (31, 31, 31, 31)
    };
    let sf: u32 = if wide { 1 } else { 0 };
    let o0: u32 = if sub { 1 } else { 0 };
    let word = 0x1b00_0000u32 | (sf << 31u32) | (o0 << 15u32) | ((rm as u32) << 16u32) | ((ra as u32) << 10u32) | ((rn
        as u32) << 5u32) | (rd as u32);
    let initial = [value(i), value((i + 1) % 8), value((i + 3) % 8), 0xaabb_ccdd_eeff_0011u64];
    Case { word, wide, sub, rn, rm, ra, rd, initial }
}

/// Every case: both widths, MADD and MSUB, eight operand rotations and ten
/// register-role patterns.
pub fn each() -> (cases: Vec<Case>)
    ensures
        cases.len() == 320,
        forall|j: int| 0 <= j < cases.len() ==> case_valid(#[trigger] cases@[j]) && generated(cases@[j]),
{
    let mut cases: Vec<Case> = Vec::new();
    let mut w: usize = 0;
    while w < 2
        invariant
            w <= 2,
            cases.len() == 160 * w,
            forall|j: int| 0 <= j < cases.len() ==> case_valid(#[trigger] cases@[j]) && generated(cases@[j]),
        decreases 2 - w,
    {
        let mut u: usize = 0;
        while u < 2
            invariant
                w < 2,
                u <= 2,
                cases.len() == 160 * w + 80 * u,
                forall|j: int| 0 <= j < cases.len() ==> case_valid(#[trigger] cases@[j]) && generated(cases@[j]),
            decreases 2 - u,
        {
            let mut i: usize = 0;
            while i < 8
                invariant
                    w < 2,
                    u < 2,
                    i <= 8,
                    cases.len() == 160 * w + 80 * u + 10 * i,
                    forall|j: int| 0 <= j < cases.len() ==> case_valid(#[trigger] cases@[j]) && generated(cases@[j]),
                decreases 8 - i,
            {
                let mut k: usize = 0;
                while k < 10
                    invariant
                        w < 2,
                        u < 2,
                        i < 8,
                        k <= 10,
                        cases.len() == 160 * w + 80 * u + 10 * i + k,
                        forall|j: int| 0 <= j < cases.len() ==> case_valid(#[trigger] cases@[j]) && generated(cases@[j]),
                    decreases 10 - k,
                {
                    cases.push(make_case(w == 1, u == 1, i, k));
                    k = k + 1;
                }
                i = i + 1;
            }
            u = u + 1;
        }
        w = w + 1;
    }
    cases
}

/// The operand width's modulus.
pub open spec fn modulus(wide: bool) -> int {
    if wide { 0x1_0000_0000_0000_0000 } else { 0x1_0000_0000 }
}

/// A source register as an operand of the case's width; XZR reads zero.
pub open spec fn operand(initial: [u64; 4], r: usize, wide: bool) -> int {
    if r == 31 { 0 } else { (initial@[r as int] as int) % modulus(wide) }
}

/// `Ra + Rn * Rm` (MADD) or `Ra - Rn * Rm` (MSUB), reduced to the width.
pub open spec fn spec_result(c: Case, initial: [u64; 4]) -> int {
    let a = operand(initial, c.ra, c.wide);
    let p = operand(initial, c.rn, c.wide) * operand(initial, c.rm, c.wide);
    if c.sub { (a - p) % modulus(c.wide) } else { (a + p) % modulus(c.wide) }
}

fn read_operand(initial: [u64; 4], r: usize, mask: u64, wide: bool) -> (v: u128)
    requires
        register_role(r),
        mask == (if wide { u64::MAX } else { 0xffff_ffffu64 }),
    ensures
        v == operand(initial, r, wide),
        v < modulus(wide),
{
    if r == 31 {
        0
    } else {
        let x = initial[r];
        proof {
            assert((x & 0xffff_ffffu64) as u128 == (x as u128) % 0x1_0000_0000u128) by {
                crate::bits::lemma_u64_bits(x);
            }
            assert((x & 0xffff_ffff_ffff_ffffu64) == x) by {
                crate::bits::lemma_u64_bits(x);
            }
        }
        (x & mask) as u128
    }
}

/// The register file after the case's MADD/MSUB; a write to XZR changes
/// nothing.
pub fn expected(c: Case, initial: [u64; 4]) -> (out: [u64; 4])
    requires
        case_valid(c),
    ensures
        forall|j: int| 0 <= j < 4 && j != c.rd ==> out@[j] == initial@[j],
        c.rd != 31 ==> out@[c.rd as int] == spec_result(c, initial),
{
    let mask: u64 = if c.wide { u64::MAX } else { 0xffff_ffff };
    let a = read_operand(initial, c.ra, mask, c.wide);
    let n = read_operand(initial, c.rn, mask, c.wide);
    let m = read_operand(initial, c.rm, mask, c.wide);
    let ghost big: int = modulus(c.wide);
    proof {
        assert(n * m < 0x1_0000_0000_0000_0000_0000_0000_0000_0000) by (nonlinear_arith)
            requires
                n < 0x1_0000_0000_0000_0000,
                m < 0x1_0000_0000_0000_0000,
        ;
    }
    let product: u128 = n * m;
    proof {
        assert(product * 1 <= 0xffff_ffff_ffff_fffe_0000_0000_0000_0001) by (nonlinear_arith)
            requires
                n <= 0xffff_ffff_ffff_ffff,
                m <= 0xffff_ffff_ffff_ffff,
                product == n * m,
        ;
        assert(product & 0xffff_ffffu128 == product % 0x1_0000_0000u128) by {
            crate::bits::lemma_u128_bits(product);
        }
        assert(product & 0xffff_ffff_ffff_ffffu128 == product % 0x1_0000_0000_0000_0000u128) by {
            crate::bits::lemma_u128_bits(product);
        }
    }
    let low = product & (mask as u128);
    assert(low == (product as int) % big);
    let total: u128 = if c.sub { (mask as u128) + 1 + a - low } else { a + product };
    proof {
        assert(((total as u64) & 0xffff_ffffu64) as u128 == total % 0x1_0000_0000u128) by {
            crate::bits::lemma_u128_bits(total);
        }
        assert(((total as u64) & 0xffff_ffff_ffff_ffffu64) as u128 == total % 0x1_0000_0000_0000_0000u128) by {
            crate::bits::lemma_u128_bits(total);
        }
        if c.sub {
            let q = (product as int) / big;
            vstd::arithmetic::div_mod::lemma_fundamental_div_mod(product as int, big);
            assert(big * (-q - 1) + total == a - product) by (nonlinear_arith)
                requires
                    product == big * q + low,
                    total == big + a - low,
            ;
            vstd::arithmetic::div_mod::lemma_mod_multiples_vanish(-q - 1, total as int, big);
        }
    }
    let result = (total as u64) & mask;
    let mut out = initial;
    if c.rd != 31 {
        out[c.rd] = result;
    }
    out
}

} // verus!
