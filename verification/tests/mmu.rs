use nextcore_ise::exception_level::ExceptionLevel;
use nextcore_ise::mmu::{Access, Fault, Granule, VfMmu, PXN_BIT};

fn read_page(entries: &[(u64, u64)], address: u64) -> Option<u64> {
    entries
        .iter()
        .find(|(base, _)| *base == (address & !7))
        .map(|(_, value)| *value)
}

#[test]
fn disabled_is_identity_and_instruction_alignment_is_four_bytes() {
    let mut mmu = VfMmu::disabled();
    assert_eq!(
        mmu.translate(0x1234, Access::Read, ExceptionLevel::El1, |_| None).unwrap().pa,
        0x1234
    );
    assert_eq!(
        mmu.translate(0x1002, Access::Execute, ExceptionLevel::El1, |_| None),
        Err(Fault::Alignment)
    );
}

#[test]
fn page_walk_and_asid_tlb_hit() {
    let mut mmu = VfMmu::disabled();
    assert!(mmu.configure(0x1000, 16, 1));
    let entries = [(0x1000, 0x2003), (0x2000, 0x3003), (0x3000, 0x4003), (0x4000, 0x8000_0443)];
    let read = |address| read_page(&entries, address);
    let first = mmu.translate(0, Access::Write, ExceptionLevel::El1, read).unwrap();
    assert_eq!(first.pa, 0x8000_0000);
    let read_again = |address| read_page(&entries, address);
    assert_eq!(
        mmu.translate(0x123, Access::Read, ExceptionLevel::El1, read_again).unwrap().pa,
        0x8000_0123
    );
}

#[test]
fn permission_and_access_flag_faults_are_distinct() {
    let mut mmu = VfMmu::disabled();
    assert!(mmu.configure(0x1000, 16, 0));
    let read_only = [(0x1000, 0x2003), (0x2000, 0x3003), (0x3000, 0x4003), (0x4000, 0x8000_04c3)];
    assert_eq!(
        mmu.translate(0, Access::Write, ExceptionLevel::El1, |a| read_page(&read_only, a)),
        Err(Fault::Permission)
    );
    mmu.invalidate();
    let af_clear = [(0x1000, 0x2003), (0x2000, 0x3003), (0x3000, 0x4003), (0x4000, 0x8000_0083)];
    assert_eq!(
        mmu.translate(0, Access::Read, ExceptionLevel::El1, |a| read_page(&af_clear, a)),
        Err(Fault::AccessFlag)
    );
}

#[test]
fn dynamic_start_level_supports_t0sz_25_four_kib_blocks() {
    let mut mmu = VfMmu::disabled();
    assert!(mmu.configure_tcr(0x1000, 0, 25, 0));
    let entries = [(0x1000, 0x8000_0441)];
    let first = mmu
        .translate(0x1234, Access::Read, ExceptionLevel::El1, |address| read_page(&entries, address))
        .unwrap();
    assert_eq!(first.pa, 0x8000_1234);
    assert_eq!(first.page_shift, 30);
    assert_eq!(
        mmu.translate(0x1234, Access::Read, ExceptionLevel::El1, |_| None).unwrap().pa,
        0x8000_1234
    );
}

#[test]
fn sixteen_kib_tcr_selects_l2_block_and_preserves_fault_class() {
    let mut mmu = VfMmu::disabled();
    let tcr = 28u64 | (2u64 << 14) | (2u64 << 32) | (1u64 << 23);
    assert!(mmu.configure_tcr(0x4000, 0, tcr, 7));
    assert_eq!(mmu.granule, Granule::SixteenKiB);
    assert_eq!(mmu.tcr_t0sz, 28);
    let entries = [(0x4000, 0x4000_0441)];
    let translated = mmu
        .translate(0x12_345, Access::Write, ExceptionLevel::El1, |address| read_page(&entries, address))
        .unwrap();
    assert_eq!(translated.pa, 0x4001_2345);
    assert_eq!(translated.page_shift, 25);

    mmu.invalidate();
    let read_only = [(0x4000, 0x4000_04c1)];
    assert_eq!(
        mmu.translate(0, Access::Write, ExceptionLevel::El1, |address| read_page(&read_only, address)),
        Err(Fault::Permission)
    );
}

#[test]
fn upper_canonical_addresses_use_ttbr1_and_asid_tlb() {
    let mut mmu = VfMmu::disabled();
    let tcr = 25u64 | (25u64 << 16);
    assert!(mmu.configure_tcr(0x1000, 0x2000, tcr, 9));
    let upper = (!0u64) << 39;
    let entries = [(0x2000, 0xc000_0441)];
    let translated = mmu
        .translate(upper + 0x2345, Access::Read, ExceptionLevel::El1, |address| read_page(&entries, address))
        .unwrap();
    assert_eq!(translated.pa, 0xc000_2345);
    assert_eq!(translated.page_shift, 30);
    assert_eq!(
        mmu.translate(upper + 0x2345, Access::Read, ExceptionLevel::El1, |_| None).unwrap().pa,
        0xc000_2345
    );
}

#[test]
fn disabled_translation_accepts_full_guest_address_width() {
    let mut mmu = VfMmu::disabled();
    assert_eq!(
        mmu.translate(0xffff_ffff_ffff_f000, Access::Read, ExceptionLevel::El1, |_| None).unwrap().pa,
        0xffff_ffff_ffff_f000
    );
}

#[test]
fn tlb_does_not_bypass_el0_access_permission() {
    let mut mmu = VfMmu::disabled();
    assert!(mmu.configure(0x1000, 16, 0));
    let entries = [(0x1000, 0x2003), (0x2000, 0x3003), (0x3000, 0x4003), (0x4000, 0x8000_0403)];
    assert!(mmu
        .translate(0, Access::Read, ExceptionLevel::El1, |address| read_page(&entries, address))
        .is_ok());
    assert_eq!(mmu.translate(0, Access::Read, ExceptionLevel::El0, |_| None), Err(Fault::Permission));
}

#[test]
fn tlb_keeps_el0_uxn_and_privileged_pxn_permissions_distinct() {
    let mut mmu = VfMmu::disabled();
    assert!(mmu.configure(0x1000, 16, 0));
    let entries = [
        (0x1000, 0x2003),
        (0x2000, 0x3003),
        (0x3000, 0x4003),
        (0x4000, 0x8000_0443 | (1u64 << PXN_BIT)),
    ];
    assert!(mmu
        .translate(0, Access::Execute, ExceptionLevel::El0, |address| read_page(&entries, address))
        .is_ok());
    assert_eq!(mmu.translate(0, Access::Execute, ExceptionLevel::El1, |_| None), Err(Fault::Permission));
}

#[test]
fn missing_table_is_a_translation_fault_and_caches_nothing() {
    let mut mmu = VfMmu::disabled();
    assert!(mmu.configure(0x1000, 16, 3));
    assert_eq!(mmu.translate(0, Access::Read, ExceptionLevel::El1, |_| None), Err(Fault::Translation));
    let entries = [(0x1000, 0x2003), (0x2000, 0x3003), (0x3000, 0x4003), (0x4000, 0x8000_0443)];
    assert!(mmu.translate(0, Access::Read, ExceptionLevel::El1, |a| read_page(&entries, a)).is_ok());
}

#[test]
fn configure_rejects_unaligned_root_without_effects() {
    let mut mmu = VfMmu::disabled();
    assert!(!mmu.configure(0x1001, 16, 1));
    assert!(!mmu.enabled);
    assert_eq!(mmu.asid, 0);
}

#[test]
fn tg1_is_decoded_with_its_own_encoding() {
    let four = 16u64 | (16u64 << 16) | (2u64 << 30);
    let mut mmu = VfMmu::disabled();
    assert!(mmu.configure_tcr(0x1000, 0x2000, four, 1));
    assert_eq!((mmu.tcr_t0sz, mmu.tcr_t1sz, mmu.granule), (16, 16, Granule::FourKiB));
    let sixteen = 17u64 | (17u64 << 16) | (2u64 << 14) | (1u64 << 30);
    let mut mmu = VfMmu::disabled();
    assert!(mmu.configure_tcr(0x4000, 0x8000, sixteen, 1));
    assert_eq!((mmu.tcr_t1sz, mmu.granule), (17, Granule::SixteenKiB));
    for bad in [16u64 | (16u64 << 16) | (1u64 << 30), 17u64 | (17u64 << 16) | (2u64 << 14) | (2u64 << 30), 16u64 | (16u64 << 16) | (3u64 << 30)] {
        let mut mmu = VfMmu::disabled();
        assert!(!mmu.configure_tcr(0x4000, 0x8000, bad, 1));
        assert_eq!((mmu.enabled, mmu.ttbr0, mmu.ttbr1, mmu.tcr_t0sz, mmu.tcr_t1sz), (false, 0, 0, 16, 0));
    }
}

#[test]
fn configure_installs_a_four_kib_ttbr0_regime() {
    let mut mmu = VfMmu::disabled();
    assert!(mmu.configure(0x1000, 25, 3));
    assert_eq!((mmu.enabled, mmu.ttbr0, mmu.ttbr1, mmu.tcr_t0sz, mmu.tcr_t1sz, mmu.asid), (true, 0x1000, 0, 25, 0, 3));
    assert_eq!(mmu.granule, Granule::FourKiB);
}

#[test]
fn hierarchy_reference_all_ap_and_xn_rows() {
    let rows = [
        [(true, false, false, true), (true, false, false, true), (false, false, false, true), (false, false, false, true)],
        [(true, true, true, false), (true, false, false, true), (false, true, false, true), (false, false, false, true)],
        [(false, false, false, true); 4],
        [(false, true, false, true), (false, false, false, true), (false, true, false, true), (false, false, false, true)],
    ];
    for sixteen in [false, true] {
        for upper in [false, true] {
            for ap in 0..4 {
                for parent in 0..4 {
                    for xn in [0u64, 1, 2, 4, 8, 5, 10, 15] {
                        let step = if sixteen { 0x4000u64 } else { 0x1000 };
                        let start = if sixteen { 1 } else { 0 };
                        let tcr = if sixteen { 17 | (17 << 16) | (2 << 14) | (1 << 30) } else { 16 | (16 << 16) | (2 << 30) };
                        let va = if upper { !0u64 << (if sixteen { 47 } else { 48 }) } else { 0 };
                        let entries: Vec<(u64, u64)> = (start..=3)
                            .map(|l| {
                                let pa = step * (l - start + 1);
                                (
                                    pa,
                                    if l == 3 {
                                        0x40000403
                                            | ((ap as u64) << 6)
                                            | ((u64::from(xn & 1 != 0)) << 53)
                                            | ((u64::from(xn & 2 != 0)) << 54)
                                    } else {
                                        pa + step
                                            | 3
                                            | if l == start {
                                                ((parent as u64) << 61)
                                                    | ((u64::from(xn & 4 != 0)) << 59)
                                                    | ((u64::from(xn & 8 != 0)) << 60)
                                            } else {
                                                0
                                            }
                                    },
                                )
                            })
                            .collect();
                        let mut mmu = VfMmu::disabled();
                        assert!(mmu.configure_tcr(step, step, tcr, 255));
                        let (w, r0, w0, x1) = rows[ap][parent];
                        for el in [ExceptionLevel::El1, ExceptionLevel::El0, ExceptionLevel::El1] {
                            for access in [Access::Read, Access::Write, Access::Execute] {
                                for _ in 0..2 {
                                    let allowed = match (el, access) {
                                        (ExceptionLevel::El0, Access::Read) => r0,
                                        (ExceptionLevel::El0, Access::Write) => w0,
                                        (ExceptionLevel::El0, Access::Execute) => xn & 10 == 0,
                                        (_, Access::Read) => true,
                                        (_, Access::Write) => w,
                                        (_, Access::Execute) => x1 && xn & 5 == 0,
                                    };
                                    let result = mmu.translate(va, access, el, |pa| entries.iter().find(|e| e.0 == pa).map(|e| e.1));
                                    assert_eq!(result.is_ok(), allowed, "ap{ap} parent{parent} xn{xn} {el:?} {access:?}");
                                    if !allowed {
                                        assert_eq!(result, Err(Fault::Permission));
                                    }
                                    assert_eq!(mmu.asid, 255);
                                }
                            }
                        }
                    }
                }
            }
        }
    }
}

#[test]
fn hierarchy_reference_cross_regime_cache_does_not_leak() {
    for sixteen in [false, true] {
        let step = if sixteen { 0x4000u64 } else { 0x1000 };
        let start = if sixteen { 1 } else { 0 };
        let tcr = if sixteen { 17 | (2 << 14) } else { 16 };
        let entries: Vec<(u64, u64)> = (start..=3)
            .map(|l| {
                let pa = step * (l - start + 1);
                (pa, if l == 3 { 0x40000443 } else { pa + step | 3 | if l == start { 1 << 62 } else { 0 } })
            })
            .collect();
        let mut mmu = VfMmu::disabled();
        assert!(mmu.configure_tcr(step, 0, tcr, 127));
        let reads = std::cell::Cell::new(0);
        let read = |pa: u64| entries.iter().find(|e| e.0 == pa).map(|e| e.1);
        assert!(mmu
            .translate(0, Access::Read, ExceptionLevel::El1, |pa| {
                reads.set(reads.get() + 1);
                read(pa)
            })
            .is_ok());
        let cold = reads.get();
        assert!(cold > 0);
        assert!(mmu.translate(0, Access::Read, ExceptionLevel::El0, |_| panic!("EL0/1 must share cache")).is_ok());
        assert_eq!(mmu.translate(0, Access::Write, ExceptionLevel::El1, |_| panic!("cached")), Err(Fault::Permission));
        for el in [ExceptionLevel::El2, ExceptionLevel::El3] {
            let more = std::cell::Cell::new(0);
            assert!(mmu
                .translate(0, Access::Write, el, |pa| {
                    more.set(more.get() + 1);
                    read(pa)
                })
                .is_ok());
            if el == ExceptionLevel::El2 {
                assert!(more.get() > 0);
            } else {
                assert_eq!(more.get(), 0);
            }
        }
        assert_eq!(mmu.translate(0, Access::Write, ExceptionLevel::El1, read), Err(Fault::Permission));
        assert_eq!(mmu.asid, 127);
    }
}

#[test]
fn optional_tcr_direct_configuration_is_transactional() {
    for sixteen in [false, true] {
        for combo in 1u64..16 {
            let mut mmu = VfMmu::disabled();
            let step = if sixteen { 0x4000 } else { 0x1000 };
            let tcr = if sixteen { 17 | (2 << 14) } else { 16 };
            let start = if sixteen { 1 } else { 0 };
            assert!(mmu.configure_tcr(step, 0, tcr, 127));
            assert!(mmu
                .translate(0, Access::Read, ExceptionLevel::El1, |pa| {
                    let n = pa / step;
                    Some(if n == 4 - start { 0x80000403 } else { pa + step | 3 })
                })
                .is_ok());
            let before = mmu;
            assert!(!mmu.configure_tcr(step + 0x10000, 0, tcr | (combo << 39), 255));
            assert_eq!(mmu.enabled, before.enabled);
            assert_eq!(mmu.ttbr0, before.ttbr0);
            assert_eq!(mmu.ttbr1, before.ttbr1);
            assert_eq!(mmu.tcr_t0sz, before.tcr_t0sz);
            assert_eq!(mmu.tcr_t1sz, before.tcr_t1sz);
            assert_eq!(mmu.asid, before.asid);
            assert_eq!(mmu.granule, before.granule);
            assert_eq!(mmu.next, before.next);
            for (a, b) in mmu.tlb.iter().zip(before.tlb.iter()) {
                assert_eq!(a, b);
            }
            assert!(mmu
                .translate(0, Access::Read, ExceptionLevel::El1, |_| panic!("rejected configure must preserve warm cache"))
                .is_ok());
        }
    }
}
