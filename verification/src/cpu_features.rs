//! Host CPU feature detection through CPUID.
use vstd::prelude::*;

verus! {

/// A set of host CPU features, one bit per feature.
#[derive(Debug, Clone, Copy, PartialEq, Eq, Structural, Hash)]
pub struct CpuFeatureSet {
    bits: u64,
}

/// Every bit that names a feature.
pub const ALL_FEATURE_BITS: u64 = 0x7fff;

impl CpuFeatureSet {
    #[allow(non_snake_case)]
    pub fn SSE() -> (s: Self)
        ensures
            s.view_bits() == 0x1,
    {
        CpuFeatureSet { bits: 0x1 }
    }

    #[allow(non_snake_case)]
    pub fn SSE2() -> (s: Self)
        ensures
            s.view_bits() == 0x2,
    {
        CpuFeatureSet { bits: 0x2 }
    }

    #[allow(non_snake_case)]
    pub fn SSE3() -> (s: Self)
        ensures
            s.view_bits() == 0x4,
    {
        CpuFeatureSet { bits: 0x4 }
    }

    #[allow(non_snake_case)]
    pub fn SSSE3() -> (s: Self)
        ensures
            s.view_bits() == 0x8,
    {
        CpuFeatureSet { bits: 0x8 }
    }

    #[allow(non_snake_case)]
    pub fn SSE4_1() -> (s: Self)
        ensures
            s.view_bits() == 0x10,
    {
        CpuFeatureSet { bits: 0x10 }
    }

    #[allow(non_snake_case)]
    pub fn SSE4_2() -> (s: Self)
        ensures
            s.view_bits() == 0x20,
    {
        CpuFeatureSet { bits: 0x20 }
    }

    #[allow(non_snake_case)]
    pub fn AVX() -> (s: Self)
        ensures
            s.view_bits() == 0x40,
    {
        CpuFeatureSet { bits: 0x40 }
    }

    #[allow(non_snake_case)]
    pub fn AVX2() -> (s: Self)
        ensures
            s.view_bits() == 0x80,
    {
        CpuFeatureSet { bits: 0x80 }
    }

    #[allow(non_snake_case)]
    pub fn FMA() -> (s: Self)
        ensures
            s.view_bits() == 0x100,
    {
        CpuFeatureSet { bits: 0x100 }
    }

    #[allow(non_snake_case)]
    pub fn POPCNT() -> (s: Self)
        ensures
            s.view_bits() == 0x200,
    {
        CpuFeatureSet { bits: 0x200 }
    }

    #[allow(non_snake_case)]
    pub fn BMI1() -> (s: Self)
        ensures
            s.view_bits() == 0x400,
    {
        CpuFeatureSet { bits: 0x400 }
    }

    #[allow(non_snake_case)]
    pub fn BMI2() -> (s: Self)
        ensures
            s.view_bits() == 0x800,
    {
        CpuFeatureSet { bits: 0x800 }
    }

    #[allow(non_snake_case)]
    pub fn AES_NI() -> (s: Self)
        ensures
            s.view_bits() == 0x1000,
    {
        CpuFeatureSet { bits: 0x1000 }
    }

    #[allow(non_snake_case)]
    pub fn PCLMULQDQ() -> (s: Self)
        ensures
            s.view_bits() == 0x2000,
    {
        CpuFeatureSet { bits: 0x2000 }
    }

    #[allow(non_snake_case)]
    pub fn OSXSAVE() -> (s: Self)
        ensures
            s.view_bits() == 0x4000,
    {
        CpuFeatureSet { bits: 0x4000 }
    }


    pub closed spec fn view_bits(&self) -> u64 {
        self.bits
    }

    pub fn empty() -> (s: Self)
        ensures
            s.view_bits() == 0,
    {
        CpuFeatureSet { bits: 0 }
    }

    pub fn all() -> (s: Self)
        ensures
            s.view_bits() == ALL_FEATURE_BITS,
    {
        CpuFeatureSet { bits: ALL_FEATURE_BITS }
    }

    pub fn bits(&self) -> (b: u64)
        ensures
            b == self.view_bits(),
    {
        self.bits
    }

    /// The set with exactly the named bits; unnamed bits are dropped.
    pub fn from_bits_truncate(bits: u64) -> (s: Self)
        ensures
            s.view_bits() == bits & ALL_FEATURE_BITS,
    {
        CpuFeatureSet { bits: bits & ALL_FEATURE_BITS }
    }

    pub fn is_empty(&self) -> (b: bool)
        ensures
            b == (self.view_bits() == 0),
    {
        self.bits == 0
    }

    /// Whether every feature of `other` is in `self`.
    pub fn contains(&self, other: Self) -> (b: bool)
        ensures
            b == (self.view_bits() & other.view_bits() == other.view_bits()),
    {
        self.bits & other.bits == other.bits
    }

    pub fn union(self, other: Self) -> (s: Self)
        ensures
            s.view_bits() == self.view_bits() | other.view_bits(),
    {
        CpuFeatureSet { bits: self.bits | other.bits }
    }

    pub fn intersection(self, other: Self) -> (s: Self)
        ensures
            s.view_bits() == self.view_bits() & other.view_bits(),
    {
        CpuFeatureSet { bits: self.bits & other.bits }
    }

    /// The named features that are not in `self`.
    pub fn complement(self) -> (s: Self)
        ensures
            s.view_bits() == !self.view_bits() & ALL_FEATURE_BITS,
    {
        CpuFeatureSet { bits: !self.bits & ALL_FEATURE_BITS }
    }

    pub fn insert(&mut self, other: Self)
        ensures
            final(self).view_bits() == old(self).view_bits() | other.view_bits(),
    {
        self.bits = self.bits | other.bits;
    }
}

impl core::ops::BitOr for CpuFeatureSet {
    type Output = CpuFeatureSet;

    fn bitor(self, other: CpuFeatureSet) -> (s: CpuFeatureSet)
        ensures
            s.view_bits() == self.view_bits() | other.view_bits(),
    {
        CpuFeatureSet { bits: self.bits | other.bits }
    }
}

impl vstd::std_specs::ops::BitOrSpecImpl for CpuFeatureSet {
    open spec fn obeys_bitor_spec() -> bool {
        true
    }

    open spec fn bitor_req(self, rhs: CpuFeatureSet) -> bool {
        true
    }

    closed spec fn bitor_spec(self, rhs: CpuFeatureSet) -> CpuFeatureSet {
        CpuFeatureSet { bits: self.bits | rhs.bits }
    }
}

#[derive(Debug, Clone)]
pub struct CpuFeatures {
    pub features: CpuFeatureSet,
    pub max_cpuid_leaf: u32,
    pub max_ext_cpuid_leaf: u32,
    pub brand_string: [u32; 16],
}

/// Raw CPUID output of the leaves the detection reads, each as
/// `(eax, ebx, ecx, edx)`.
#[derive(Debug, Clone, Copy)]
pub struct CpuidLeaves {
    pub basic: (u32, u32, u32, u32),
    pub leaf1: (u32, u32, u32, u32),
    pub leaf7: (u32, u32, u32, u32),
    pub extended: (u32, u32, u32, u32),
    pub ext1: (u32, u32, u32, u32),
    pub brand: [u32; 16],
}

pub open spec fn has_bit(word: u32, bit: u32) -> bool {
    word & (1u32 << bit) != 0
}

pub open spec fn flag_if(c: bool, flag: u64) -> u64 {
    if c { flag } else { 0 }
}

/// The features CPUID reports.  Leaf 1 is read when the basic maximum leaf is
/// at least 1, leaf 7 when it is at least 7; FMA is read from extended leaf
/// 0x8000_0001 ECX bit 12 when the extended maximum is at least 7.
pub open spec fn features_from(l: CpuidLeaves) -> u64 {
    let max = l.basic.0;
    let ext = l.extended.0;
    let (_, _, c1, d1) = l.leaf1;
    let b7 = l.leaf7.1;
    let c81 = l.ext1.2;
    flag_if(max >= 1 && has_bit(d1, 25), 0x1) | flag_if(max >= 1 && has_bit(d1, 26), 0x2) | flag_if(
        max >= 1 && has_bit(c1, 0),
        0x4,
    ) | flag_if(max >= 1 && has_bit(c1, 9), 0x8) | flag_if(max >= 1 && has_bit(c1, 19), 0x10) | flag_if(
        max >= 1 && has_bit(c1, 20),
        0x20,
    ) | flag_if(max >= 1 && has_bit(c1, 28), 0x40) | flag_if(max >= 7 && has_bit(b7, 5), 0x80)
        | flag_if(ext >= 7 && has_bit(c81, 12), 0x100) | flag_if(max >= 1 && has_bit(c1, 12), 0x200)
        | flag_if(max >= 7 && has_bit(b7, 3), 0x400) | flag_if(max >= 7 && has_bit(b7, 8), 0x800)
        | flag_if(max >= 1 && has_bit(c1, 25), 0x1000) | flag_if(max >= 1 && has_bit(c1, 1), 0x2000)
        | flag_if(max >= 1 && has_bit(c1, 27), 0x4000)
}

/// The host's `cpuid` answer for `leaf` and `sub_leaf`, through
/// `core::arch::x86_64::__cpuid_count`, as `(eax, ebx, ecx, edx)`.  Nothing
/// is claimed of the registers: they depend on the machine.
#[verifier::external_body]
fn cpuid(leaf: u32, sub_leaf: u32) -> (r: (u32, u32, u32, u32)) {
    let r = core::arch::x86_64::__cpuid_count(leaf, sub_leaf);
    (r.eax, r.ebx, r.ecx, r.edx)
}

fn bit(word: u32, n: u32) -> (b: bool)
    requires
        n < 32,
    ensures
        b == has_bit(word, n),
{
    word & (1u32 << n) != 0
}

fn flag(c: bool, f: u64) -> (v: u64)
    ensures
        v == flag_if(c, f),
{
    if c { f } else { 0 }
}

/// The CPUID leaves detection reads after leaves 0 and 0x8000_0000, given
/// the maxima they report: leaf 1, leaf 7, extended leaf 0x8000_0001 and the
/// four brand-string leaves 0x8000_0002..=0x8000_0005.
#[derive(Clone, Copy, Debug, PartialEq, Eq, Structural)]
pub struct CpuidPlan {
    pub leaf1: bool,
    pub leaf7: bool,
    pub ext1: bool,
    pub brand: bool,
}

/// Leaf 1 from basic maximum 1, leaf 7 from 7; extended leaf 0x8000_0001
/// from an extended maximum of at least 7, the brand leaves from 4.
pub open spec fn spec_cpuid_plan(max_basic: u32, max_ext: u32) -> CpuidPlan {
    CpuidPlan { leaf1: max_basic >= 1, leaf7: max_basic >= 7, ext1: max_ext >= 7, brand: max_ext >= 4 }
}

pub fn cpuid_plan(max_basic: u32, max_ext: u32) -> (p: CpuidPlan)
    ensures
        p == spec_cpuid_plan(max_basic, max_ext),
{
    CpuidPlan { leaf1: max_basic >= 1, leaf7: max_basic >= 7, ext1: max_ext >= 7, brand: max_ext >= 4 }
}

/// `r` is what `from_cpuid` makes of the leaves `l`.
pub open spec fn interprets(l: CpuidLeaves, r: CpuFeatures) -> bool {
    &&& r.features.view_bits() == features_from(l)
    &&& r.max_cpuid_leaf == l.basic.0
    &&& r.max_ext_cpuid_leaf == l.extended.0
    &&& r.brand_string@ == (if l.extended.0 >= 4 { l.brand@ } else { Seq::new(16, |i: int| 0u32) })
}

impl CpuFeatures {
    /// Interpret raw CPUID output.
    pub fn from_cpuid(l: CpuidLeaves) -> (r: Self)
        ensures
            r.features.view_bits() == features_from(l),
            r.max_cpuid_leaf == l.basic.0,
            r.max_ext_cpuid_leaf == l.extended.0,
            r.brand_string@ == (if l.extended.0 >= 4 { l.brand@ } else { Seq::new(16, |i: int| 0u32) }),
    {
        let max = l.basic.0;
        let ext = l.extended.0;
        let (_, _, c1, d1) = l.leaf1;
        let b7 = l.leaf7.1;
        let c81 = l.ext1.2;
        let bits = flag(max >= 1 && bit(d1, 25), 0x1) | flag(max >= 1 && bit(d1, 26), 0x2) | flag(
            max >= 1 && bit(c1, 0),
            0x4,
        ) | flag(max >= 1 && bit(c1, 9), 0x8) | flag(max >= 1 && bit(c1, 19), 0x10) | flag(
            max >= 1 && bit(c1, 20),
            0x20,
        ) | flag(max >= 1 && bit(c1, 28), 0x40) | flag(max >= 7 && bit(b7, 5), 0x80) | flag(
            ext >= 7 && bit(c81, 12),
            0x100,
        ) | flag(max >= 1 && bit(c1, 12), 0x200) | flag(max >= 7 && bit(b7, 3), 0x400) | flag(
            max >= 7 && bit(b7, 8),
            0x800,
        ) | flag(max >= 1 && bit(c1, 25), 0x1000) | flag(max >= 1 && bit(c1, 1), 0x2000) | flag(
            max >= 1 && bit(c1, 27),
            0x4000,
        );
        let brand_string = if ext >= 4 { l.brand } else { [0u32; 16] };
        assert(brand_string@ =~= (if ext >= 4 { l.brand@ } else { Seq::new(16, |i: int| 0u32) }));
        CpuFeatures { features: CpuFeatureSet { bits }, max_cpuid_leaf: max, max_ext_cpuid_leaf: ext, brand_string }
    }

    /// Query the host CPU.  The leaves read are the ones `from_cpuid`
    /// interprets; leaves beyond the reported maxima are not executed.
    pub fn detect() -> (r: Self)
        ensures
            r.features.view_bits() & !ALL_FEATURE_BITS == 0,
            r.max_cpuid_leaf < 1 ==> r.features.view_bits() & 0x727f == 0,
            r.max_cpuid_leaf < 7 ==> r.features.view_bits() & 0xc80 == 0,
            r.max_ext_cpuid_leaf < 7 ==> r.features.view_bits() & 0x100 == 0,
            r.max_ext_cpuid_leaf < 4 ==> r.brand_string@ == Seq::new(16, |i: int| 0u32),
            exists|l: CpuidLeaves| #[trigger] interprets(l, r),
    {
        let zero = (0u32, 0u32, 0u32, 0u32);
        let basic = cpuid(0, 0);
        let extended = cpuid(0x8000_0000, 0);
        let plan = cpuid_plan(basic.0, extended.0);
        let leaf1 = if plan.leaf1 { cpuid(1, 0) } else { zero };
        let leaf7 = if plan.leaf7 { cpuid(7, 0) } else { zero };
        let ext1 = if plan.ext1 { cpuid(0x8000_0001, 0) } else { zero };
        let mut brand = [0u32; 16];
        if plan.brand {
            let mut i: usize = 0;
            while i < 4
                invariant
                    i <= 4,
                decreases 4 - i,
            {
                let r = cpuid(0x8000_0002 + i as u32, 0);
                brand[i * 4] = r.0;
                brand[i * 4 + 1] = r.1;
                brand[i * 4 + 2] = r.2;
                brand[i * 4 + 3] = r.3;
                i = i + 1;
            }
        }
        let leaves = CpuidLeaves { basic, leaf1, leaf7, extended, ext1, brand };
        let r = Self::from_cpuid(leaves);
        proof {
            lemma_features_named(leaves);
        }
        assert(interprets(leaves, r));
        r
    }

    pub fn has_avx(&self) -> (b: bool)
        ensures
            b == (self.features.view_bits() & 0x40 == 0x40),
    {
        self.features.contains(CpuFeatureSet::AVX())
    }

    pub fn has_sse4_1(&self) -> (b: bool)
        ensures
            b == (self.features.view_bits() & 0x10 == 0x10),
    {
        self.features.contains(CpuFeatureSet::SSE4_1())
    }

    pub fn has_sse4_2(&self) -> (b: bool)
        ensures
            b == (self.features.view_bits() & 0x20 == 0x20),
    {
        self.features.contains(CpuFeatureSet::SSE4_2())
    }

    pub fn has_fma(&self) -> (b: bool)
        ensures
            b == (self.features.view_bits() & 0x100 == 0x100),
    {
        self.features.contains(CpuFeatureSet::FMA())
    }

    /// The features of `target` this CPU lacks.
    pub fn missing_features(&self, target: &CpuFeatureSet) -> (s: CpuFeatureSet)
        ensures
            s.view_bits() == target.view_bits() & (!self.features.view_bits() & ALL_FEATURE_BITS),
    {
        target.intersection(self.features.complement())
    }
}

/// Each feature flag is set exactly when the CPUID bit that reports it is
/// set in a leaf that was read: SSE and SSE2 from leaf 1 EDX bits 25 and 26;
/// SSE3, SSSE3, SSE4.1, SSE4.2, AVX, POPCNT, AES-NI, PCLMULQDQ and OSXSAVE
/// from leaf 1 ECX bits 0, 9, 19, 20, 28, 12, 25, 1 and 27; AVX2, BMI1 and
/// BMI2 from leaf 7 EBX bits 5, 3 and 8; FMA from extended leaf 0x8000_0001
/// ECX bit 12.
#[verifier::rlimit(80)]
pub proof fn lemma_feature_bits(l: CpuidLeaves)
    ensures
        ({
            let f = features_from(l);
            let m1 = l.basic.0 >= 1;
            let m7 = l.basic.0 >= 7;
            let x7 = l.extended.0 >= 7;
            let (c1, d1, b7, c81) = (l.leaf1.2, l.leaf1.3, l.leaf7.1, l.ext1.2);
            &&& (f & 0x1 != 0) == (m1 && d1 & 0x200_0000 != 0)
            &&& (f & 0x2 != 0) == (m1 && d1 & 0x400_0000 != 0)
            &&& (f & 0x4 != 0) == (m1 && c1 & 0x1 != 0)
            &&& (f & 0x8 != 0) == (m1 && c1 & 0x200 != 0)
            &&& (f & 0x10 != 0) == (m1 && c1 & 0x8_0000 != 0)
            &&& (f & 0x20 != 0) == (m1 && c1 & 0x10_0000 != 0)
            &&& (f & 0x40 != 0) == (m1 && c1 & 0x1000_0000 != 0)
            &&& (f & 0x80 != 0) == (m7 && b7 & 0x20 != 0)
            &&& (f & 0x100 != 0) == (x7 && c81 & 0x1000 != 0)
            &&& (f & 0x200 != 0) == (m1 && c1 & 0x1000 != 0)
            &&& (f & 0x400 != 0) == (m7 && b7 & 0x8 != 0)
            &&& (f & 0x800 != 0) == (m7 && b7 & 0x100 != 0)
            &&& (f & 0x1000 != 0) == (m1 && c1 & 0x200_0000 != 0)
            &&& (f & 0x2000 != 0) == (m1 && c1 & 0x2 != 0)
            &&& (f & 0x4000 != 0) == (m1 && c1 & 0x800_0000 != 0)
        }),
{
    let m1 = l.basic.0 >= 1;
    let m7 = l.basic.0 >= 7;
    let x7 = l.extended.0 >= 7;
    let (c1, d1, b7, c81) = (l.leaf1.2, l.leaf1.3, l.leaf7.1, l.ext1.2);
    assert(has_bit(d1, 25) == (d1 & 0x200_0000 != 0) && has_bit(d1, 26) == (d1 & 0x400_0000 != 0) && has_bit(c1, 0)
        == (c1 & 0x1 != 0) && has_bit(c1, 9) == (c1 & 0x200 != 0) && has_bit(c1, 19) == (c1 & 0x8_0000 != 0)
        && has_bit(c1, 20) == (c1 & 0x10_0000 != 0) && has_bit(c1, 28) == (c1 & 0x1000_0000 != 0) && has_bit(b7, 5)
        == (b7 & 0x20 != 0) && has_bit(c81, 12) == (c81 & 0x1000 != 0) && has_bit(c1, 12) == (c1 & 0x1000 != 0)
        && has_bit(b7, 3) == (b7 & 0x8 != 0) && has_bit(b7, 8) == (b7 & 0x100 != 0) && has_bit(c1, 25) == (c1
        & 0x200_0000 != 0) && has_bit(c1, 1) == (c1 & 0x2 != 0) && has_bit(c1, 27) == (c1 & 0x800_0000 != 0))
        by (bit_vector);
    let t0 = flag_if(m1 && has_bit(d1, 25), 0x1);
    let t1 = flag_if(m1 && has_bit(d1, 26), 0x2);
    let t2 = flag_if(m1 && has_bit(c1, 0), 0x4);
    let t3 = flag_if(m1 && has_bit(c1, 9), 0x8);
    let t4 = flag_if(m1 && has_bit(c1, 19), 0x10);
    let t5 = flag_if(m1 && has_bit(c1, 20), 0x20);
    let t6 = flag_if(m1 && has_bit(c1, 28), 0x40);
    let t7 = flag_if(m7 && has_bit(b7, 5), 0x80);
    let t8 = flag_if(x7 && has_bit(c81, 12), 0x100);
    let t9 = flag_if(m1 && has_bit(c1, 12), 0x200);
    let t10 = flag_if(m7 && has_bit(b7, 3), 0x400);
    let t11 = flag_if(m7 && has_bit(b7, 8), 0x800);
    let t12 = flag_if(m1 && has_bit(c1, 25), 0x1000);
    let t13 = flag_if(m1 && has_bit(c1, 1), 0x2000);
    let t14 = flag_if(m1 && has_bit(c1, 27), 0x4000);
    let f = t0 | t1 | t2 | t3 | t4 | t5 | t6 | t7 | t8 | t9 | t10 | t11 | t12 | t13 | t14;
    assert(f == features_from(l));
    assert({
        &&& (f & 0x1 != 0) == (t0 != 0)
        &&& (f & 0x2 != 0) == (t1 != 0)
        &&& (f & 0x4 != 0) == (t2 != 0)
        &&& (f & 0x8 != 0) == (t3 != 0)
        &&& (f & 0x10 != 0) == (t4 != 0)
        &&& (f & 0x20 != 0) == (t5 != 0)
        &&& (f & 0x40 != 0) == (t6 != 0)
        &&& (f & 0x80 != 0) == (t7 != 0)
        &&& (f & 0x100 != 0) == (t8 != 0)
        &&& (f & 0x200 != 0) == (t9 != 0)
        &&& (f & 0x400 != 0) == (t10 != 0)
        &&& (f & 0x800 != 0) == (t11 != 0)
        &&& (f & 0x1000 != 0) == (t12 != 0)
        &&& (f & 0x2000 != 0) == (t13 != 0)
        &&& (f & 0x4000 != 0) == (t14 != 0)
    }) by (bit_vector)
        requires
            f == t0 | t1 | t2 | t3 | t4 | t5 | t6 | t7 | t8 | t9 | t10 | t11 | t12 | t13 | t14,
            t0 == 0 || t0 == 0x1,
            t1 == 0 || t1 == 0x2,
            t2 == 0 || t2 == 0x4,
            t3 == 0 || t3 == 0x8,
            t4 == 0 || t4 == 0x10,
            t5 == 0 || t5 == 0x20,
            t6 == 0 || t6 == 0x40,
            t7 == 0 || t7 == 0x80,
            t8 == 0 || t8 == 0x100,
            t9 == 0 || t9 == 0x200,
            t10 == 0 || t10 == 0x400,
            t11 == 0 || t11 == 0x800,
            t12 == 0 || t12 == 0x1000,
            t13 == 0 || t13 == 0x2000,
            t14 == 0 || t14 == 0x4000,
    ;
}

/// Detected features are always named features; without leaf 1 only the
/// leaf-independent FMA, AVX2, BMI1 and BMI2 bits can be set; without leaf 7
/// AVX2, BMI1 and BMI2 are clear, and FMA without extended leaf 7.
proof fn lemma_features_named(l: CpuidLeaves)
    ensures
        features_from(l) & !ALL_FEATURE_BITS == 0,
        l.basic.0 < 1 ==> features_from(l) & 0x727f == 0,
        l.basic.0 < 7 ==> features_from(l) & 0xc80 == 0,
        l.extended.0 < 7 ==> features_from(l) & 0x100 == 0,
{
    let m1 = l.basic.0 >= 1;
    let m7 = l.basic.0 >= 7;
    let t0 = flag_if(m1 && has_bit(l.leaf1.3, 25), 0x1);
    let t1 = flag_if(m1 && has_bit(l.leaf1.3, 26), 0x2);
    let t2 = flag_if(m1 && has_bit(l.leaf1.2, 0), 0x4);
    let t3 = flag_if(m1 && has_bit(l.leaf1.2, 9), 0x8);
    let t4 = flag_if(m1 && has_bit(l.leaf1.2, 19), 0x10);
    let t5 = flag_if(m1 && has_bit(l.leaf1.2, 20), 0x20);
    let t6 = flag_if(m1 && has_bit(l.leaf1.2, 28), 0x40);
    let t7 = flag_if(m7 && has_bit(l.leaf7.1, 5), 0x80);
    let t8 = flag_if(l.extended.0 >= 7 && has_bit(l.ext1.2, 12), 0x100);
    let t9 = flag_if(m1 && has_bit(l.leaf1.2, 12), 0x200);
    let t10 = flag_if(m7 && has_bit(l.leaf7.1, 3), 0x400);
    let t11 = flag_if(m7 && has_bit(l.leaf7.1, 8), 0x800);
    let t12 = flag_if(m1 && has_bit(l.leaf1.2, 25), 0x1000);
    let t13 = flag_if(m1 && has_bit(l.leaf1.2, 1), 0x2000);
    let t14 = flag_if(m1 && has_bit(l.leaf1.2, 27), 0x4000);
    let f = t0 | t1 | t2 | t3 | t4 | t5 | t6 | t7 | t8 | t9 | t10 | t11 | t12 | t13 | t14;
    assert(f == features_from(l));
    assert(f & !0x7fffu64 == 0) by (bit_vector)
        requires
            f == t0 | t1 | t2 | t3 | t4 | t5 | t6 | t7 | t8 | t9 | t10 | t11 | t12 | t13 | t14,
            t0 == 0 || t0 == 0x1,
            t1 == 0 || t1 == 0x2,
            t2 == 0 || t2 == 0x4,
            t3 == 0 || t3 == 0x8,
            t4 == 0 || t4 == 0x10,
            t5 == 0 || t5 == 0x20,
            t6 == 0 || t6 == 0x40,
            t7 == 0 || t7 == 0x80,
            t8 == 0 || t8 == 0x100,
            t9 == 0 || t9 == 0x200,
            t10 == 0 || t10 == 0x400,
            t11 == 0 || t11 == 0x800,
            t12 == 0 || t12 == 0x1000,
            t13 == 0 || t13 == 0x2000,
            t14 == 0 || t14 == 0x4000,
    ;
    if !m1 {
        assert(f & 0x727f == 0) by (bit_vector)
            requires
                f == t0 | t1 | t2 | t3 | t4 | t5 | t6 | t7 | t8 | t9 | t10 | t11 | t12 | t13 | t14,
                t0 == 0 && t1 == 0 && t2 == 0 && t3 == 0 && t4 == 0 && t5 == 0 && t6 == 0,
                t9 == 0 && t12 == 0 && t13 == 0 && t14 == 0,
                t7 == 0 || t7 == 0x80,
                t8 == 0 || t8 == 0x100,
                t10 == 0 || t10 == 0x400,
                t11 == 0 || t11 == 0x800,
        ;
    }
    if !m7 {
        assert(f & 0xc80 == 0) by (bit_vector)
            requires
                f == t0 | t1 | t2 | t3 | t4 | t5 | t6 | t7 | t8 | t9 | t10 | t11 | t12 | t13 | t14,
                t0 == 0 || t0 == 0x1,
                t1 == 0 || t1 == 0x2,
                t2 == 0 || t2 == 0x4,
                t3 == 0 || t3 == 0x8,
                t4 == 0 || t4 == 0x10,
                t5 == 0 || t5 == 0x20,
                t6 == 0 || t6 == 0x40,
                t7 == 0 && t10 == 0 && t11 == 0,
                t8 == 0 || t8 == 0x100,
                t9 == 0 || t9 == 0x200,
                t12 == 0 || t12 == 0x1000,
                t13 == 0 || t13 == 0x2000,
                t14 == 0 || t14 == 0x4000,
        ;
    }
    if l.extended.0 < 7 {
        assert(f & 0x100 == 0) by (bit_vector)
            requires
                f == t0 | t1 | t2 | t3 | t4 | t5 | t6 | t7 | t8 | t9 | t10 | t11 | t12 | t13 | t14,
                t0 == 0 || t0 == 0x1,
                t1 == 0 || t1 == 0x2,
                t2 == 0 || t2 == 0x4,
                t3 == 0 || t3 == 0x8,
                t4 == 0 || t4 == 0x10,
                t5 == 0 || t5 == 0x20,
                t6 == 0 || t6 == 0x40,
                t7 == 0 || t7 == 0x80,
                t8 == 0,
                t9 == 0 || t9 == 0x200,
                t10 == 0 || t10 == 0x400,
                t11 == 0 || t11 == 0x800,
                t12 == 0 || t12 == 0x1000,
                t13 == 0 || t13 == 0x2000,
                t14 == 0 || t14 == 0x4000,
        ;
    }
}

} // verus!
