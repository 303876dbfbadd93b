use nextcore_ise::bfm_cases;
use nextcore_ise::multiply_add_cases;
use nextcore_ise::register_offset_provider_cases as register_offset;
use nextcore_ise::ubfm_provider_cases;

#[test]
fn bfm_cases_cover_both_widths() {
    let cases = bfm_cases::each();
    assert_eq!(cases.len(), 5 * (32 * 32 + 64 * 64));
    assert_eq!(cases[0].word, 0x3300_0022);
    assert_eq!(cases[0].initial, [0x1234, 0x89abcdef01234567, 0xa5a5a5a55a5a5a5a, 0xfedcba9876543210]);
    assert!(cases.iter().all(|c| c.r < c.width && c.s < c.width));
    assert_eq!(bfm_cases::invalid()[0], 0xb300_0002);
}

#[test]
fn bfm_expected_inserts_the_field() {
    // BFI w2, w1, #8, #4: r = 24, s = 3 at 32 bits.
    let c = bfm_cases::Case { word: 0, width: 32, r: 24, s: 3, rn: 1, rd: 2, initial: [0, 0xab, 0xffff_0000, 0] };
    let out = bfm_cases::expected(c, c.initial);
    assert_eq!(out, [0, 0xab, 0xffff_0b00, 0]);
    // BFXIL-like r <= s: copies bits r..=s of the source to the bottom.
    let c = bfm_cases::Case { word: 0, width: 64, r: 4, s: 11, rn: 1, rd: 2, initial: [0, 0xabcd, u64::MAX, 0] };
    let out = bfm_cases::expected(c, c.initial);
    assert_eq!(out[2], 0xffff_ffff_ffff_ffbc);
    let zr = bfm_cases::Case { word: 0, width: 64, r: 4, s: 11, rn: 1, rd: 31, initial: [1, 2, 3, 4] };
    assert_eq!(bfm_cases::expected(zr, zr.initial), [1, 2, 3, 4]);
}

#[test]
fn multiply_add_cases_and_expectation() {
    let cases = multiply_add_cases::each();
    assert_eq!(cases.len(), 320);
    let c = multiply_add_cases::Case { word: 0, wide: true, sub: false, rn: 0, rm: 1, ra: 2, rd: 3, initial: [6, 7, 5, 0] };
    assert_eq!(multiply_add_cases::expected(c, c.initial), [6, 7, 5, 47]);
    let c = multiply_add_cases::Case { word: 0, wide: false, sub: true, rn: 0, rm: 1, ra: 2, rd: 3, initial: [6, 7, 5, 9] };
    assert_eq!(multiply_add_cases::expected(c, c.initial)[3], (5u32.wrapping_sub(42)) as u64);
    let c = multiply_add_cases::Case { word: 0, wide: true, sub: false, rn: 31, rm: 1, ra: 2, rd: 0, initial: [6, 7, 5, 9] };
    assert_eq!(multiply_add_cases::expected(c, c.initial), [5, 7, 5, 9]);
}

#[test]
fn register_offset_cases_and_effects() {
    let cases = register_offset::cases();
    assert_eq!(cases.len(), 13 * 128);
    assert_eq!(register_offset::word(3, 1, 3, 1, 1, 2, 3), 0xf862_7823);
    let first = &cases[0];
    assert_eq!((first.bytes, first.opc, first.rt, first.index, first.offset), (1, 0, 1, 1, 1));
    let store = register_offset::Case { word: 0, index: 0, offset: 0, bytes: 4, opc: 0, rt: 1 };
    let mut registers = [0u64, 0x1122_3344_5566_7788, 0, 0];
    let mut ram = [0u8; 8];
    register_offset::expected(&store, &mut registers, &mut ram, 2);
    assert_eq!(ram, [0, 0, 0x88, 0x77, 0x66, 0x55, 0, 0]);
    let load = register_offset::Case { word: 0, index: 0, offset: 0, bytes: 1, opc: 2, rt: 3 };
    register_offset::expected(&load, &mut registers, &mut ram, 2);
    assert_eq!(registers[3], 0xffff_ffff_ffff_ff88);
    let load32 = register_offset::Case { word: 0, index: 0, offset: 0, bytes: 2, opc: 3, rt: 0 };
    register_offset::expected(&load32, &mut registers, &mut ram, 1);
    assert_eq!(registers[0], 0xffff_8800);
    assert!(register_offset::invalid().iter().all(|w| (w >> 26) & 1 == 1 || (w >> 14) & 1 == 0 || (w >> 22) & 3 >= 2));
}

#[test]
fn ubfm_cases_place_source_bits() {
    let cases = ubfm_provider_cases::cases();
    assert_eq!(cases.len(), 384);
    for c in &cases {
        let width = if c.word >> 31 == 1 { 64 } else { 32 };
        let rotate = (c.word >> 16) & 63;
        let end = (c.word >> 10) & 63;
        let rn = (c.word >> 5) & 31;
        let input = if rn == 31 { 0 } else { c.source };
        let mut want = 0u64;
        for bit in 0..width {
            if input >> bit & 1 == 0 {
                continue;
            }
            if end >= rotate && bit >= rotate && bit <= end {
                want |= 1 << (bit - rotate);
            }
            if end < rotate && bit <= end {
                want |= 1 << (bit + width - rotate);
            }
        }
        assert_eq!(c.expected, want);
        assert_eq!(c.destination as u32, c.word & 31);
    }
    assert_eq!(ubfm_provider_cases::INVALID.len(), 11);
}
