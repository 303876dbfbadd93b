use nextcore_ise::dynamic::{controls_valid_dynamic, mapped, Snapshot};
use nextcore_ise::stage1::{controls_valid, Controls};

fn fixed(sixteen: bool, profile: u32) -> Controls {
    let tcr = if sixteen {
        17 | (17 << 16) | (2 << 14) | (1 << 30) | (5 << 32)
    } else {
        16 | (16 << 16) | (2 << 30) | (5 << 32)
    };
    Controls {
        abi_version: if profile == 2 { 3 } else { 2 },
        struct_size: 80,
        profile,
        reserved: 0,
        sctlr: 0x30d00803,
        ttbr0: 0x10000000,
        ttbr1: 0x10000000,
        tcr,
        mair: 0x44,
        hcr: 0,
        scr: 0,
        epoch: 1,
    }
}

#[test]
fn optional_tcr_fields_stay_closed_in_both_profiles() {
    for sixteen in [false, true] {
        for profile in [1, 2] {
            let c = fixed(sixteen, profile);
            let valid = |v: &Controls| if profile == 2 { controls_valid_dynamic(v) } else { controls_valid(v) };
            assert!(valid(&c));
            for combo in 1u64..16 {
                let mut bad = c;
                bad.tcr |= combo << 39;
                assert!(!valid(&bad));
            }
        }
    }
}

#[test]
fn fixed_profile_rejects_header_and_register_deviations() {
    let c = fixed(false, 1);
    let mut bad = c;
    bad.epoch = 2;
    assert!(!controls_valid(&bad));
    bad = c;
    bad.mair = 0xff;
    assert!(!controls_valid(&bad));
    bad = c;
    bad.ttbr0 = 0x10000800;
    assert!(!controls_valid(&bad));
    bad = c;
    bad.tcr = (bad.tcr & !63) | 40;
    assert!(!controls_valid(&bad));
    bad = c;
    bad.sctlr |= 0x18;
    assert!(controls_valid(&bad));
}

#[test]
fn dynamic_controls_map_onto_the_fixed_profile() {
    let mut d = fixed(true, 2);
    d.sctlr = 0x30d00802;
    d.epoch = 9;
    assert!(controls_valid_dynamic(&d));
    let m = mapped(Snapshot::from_controls(d));
    assert_eq!((m.abi_version, m.profile, m.epoch, m.sctlr), (2, 1, 1, 0x30d00803));
    assert!(controls_valid(&m));
    d.epoch = 0;
    assert!(!controls_valid_dynamic(&d));
}

#[test]
fn snapshot_round_trips_through_its_record() {
    let s = Snapshot::from_controls(fixed(false, 2));
    let back = Snapshot::from_controls(s.controls(5));
    assert_eq!(back, s);
    assert_eq!(s.controls(5).epoch, 5);
}

#[test]
fn fixed_profile_admits_a1_and_an_eight_bit_asid() {
    for sixteen in [false, true] {
        let c = fixed(sixteen, 1);
        let mut a1 = c;
        a1.tcr |= 1 << 22;
        assert!(controls_valid(&a1));
        for upper in [false, true] {
            let mut tagged = c;
            if upper {
                tagged.ttbr1 |= 255 << 48;
            } else {
                tagged.ttbr0 |= 1 << 48;
            }
            assert!(controls_valid(&tagged));
            if upper {
                tagged.ttbr1 |= 1 << 56;
            } else {
                tagged.ttbr0 |= 1 << 56;
            }
            assert!(!controls_valid(&tagged));
        }
        let mut as16 = c;
        as16.tcr |= 1 << 36;
        assert!(!controls_valid(&as16));
    }
}

#[test]
fn unaligned_profile_runs_without_alignment_checking() {
    let mut c = fixed(false, 1);
    c.profile = 3;
    assert!(!controls_valid(&c));
    c.sctlr = 0x30d00801;
    assert!(controls_valid(&c));
    c.profile = 1;
    assert!(!controls_valid(&c));
}

#[test]
fn dynamic_profile_keeps_a1_and_asid_closed() {
    for sixteen in [false, true] {
        let d = fixed(sixteen, 2);
        assert!(controls_valid_dynamic(&d));
        for k in 0..4 {
            let mut x = d;
            match k {
                0 => x.ttbr0 |= 1 << 48,
                1 => x.ttbr1 |= 1 << 48,
                2 => x.tcr |= 1 << 22,
                _ => x.tcr |= 1 << 36,
            }
            assert!(!controls_valid_dynamic(&x));
        }
    }
}
