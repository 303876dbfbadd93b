use nextcore_ise::cpu_features::{cpuid_plan, CpuFeatureSet, CpuFeatures, CpuidLeaves, CpuidPlan};

#[test]
fn test_detect_runs() {
    let features = CpuFeatures::detect();
    let _ = features.features;
}

#[test]
fn test_missing_features() {
    let mut features = CpuFeatures::detect();
    let required = CpuFeatureSet::AVX() | CpuFeatureSet::SSE4_2();
    let missing = features.missing_features(&required);

    if features.has_avx() && features.has_sse4_2() {
        assert_eq!(missing, CpuFeatureSet::empty());
    }

    features.features = CpuFeatureSet::empty();
    let missing = features.missing_features(&required);
    assert!(missing.contains(CpuFeatureSet::AVX()));
    assert!(missing.contains(CpuFeatureSet::SSE4_2()));
}

#[test]
fn set_operations_follow_bits() {
    let a = CpuFeatureSet::SSE() | CpuFeatureSet::AVX();
    assert!(a.contains(CpuFeatureSet::SSE()));
    assert!(!a.contains(CpuFeatureSet::FMA()));
    assert_eq!(a.intersection(CpuFeatureSet::AVX()), CpuFeatureSet::AVX());
    assert!(CpuFeatureSet::empty().is_empty());
    assert_eq!(CpuFeatureSet::from_bits_truncate(u64::MAX), CpuFeatureSet::all());
    assert!(a.complement().contains(CpuFeatureSet::FMA()));
    assert!(!a.complement().contains(CpuFeatureSet::SSE()));
}

#[test]
fn cpuid_leaves_map_to_features() {
    let zero = (0u32, 0u32, 0u32, 0u32);
    let leaves = CpuidLeaves {
        basic: (7, 0, 0, 0),
        leaf1: (0, 0, 1, (1 << 25) | (1 << 26)),
        leaf7: (0, 1 << 5, 0, 0),
        extended: (0, 0, 0, 0),
        ext1: zero,
        brand: [7u32; 16],
    };
    let f = CpuFeatures::from_cpuid(leaves);
    assert!(f.features.contains(CpuFeatureSet::SSE()));
    assert!(f.features.contains(CpuFeatureSet::SSE2()));
    assert!(f.features.contains(CpuFeatureSet::SSE3()));
    assert!(f.features.contains(CpuFeatureSet::AVX2()));
    assert!(!f.has_avx());
    assert!(!f.has_fma());
    assert_eq!(f.max_cpuid_leaf, 7);
    assert_eq!(f.brand_string, [0u32; 16]);
}

#[test]
fn cpuid_leaf_seven_ignored_below_its_maximum() {
    let zero = (0u32, 0u32, 0u32, 0u32);
    let leaves = CpuidLeaves {
        basic: (1, 0, 0, 0),
        leaf1: zero,
        leaf7: (0, u32::MAX, 0, 0),
        extended: zero,
        ext1: zero,
        brand: [0u32; 16],
    };
    let f = CpuFeatures::from_cpuid(leaves);
    assert!(f.features.is_empty());
}

#[test]
fn cpuid_plan_reads_only_leaves_below_the_reported_maxima() {
    assert_eq!(cpuid_plan(0, 0), CpuidPlan { leaf1: false, leaf7: false, ext1: false, brand: false });
    assert_eq!(cpuid_plan(1, 4), CpuidPlan { leaf1: true, leaf7: false, ext1: false, brand: true });
    assert_eq!(cpuid_plan(7, 7), CpuidPlan { leaf1: true, leaf7: true, ext1: true, brand: true });
    assert_eq!(cpuid_plan(6, 3), CpuidPlan { leaf1: true, leaf7: false, ext1: false, brand: false });
}
