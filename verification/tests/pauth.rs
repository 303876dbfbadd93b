use nextcore_ise::pauth::{
    cells, mix, packed, qarma5, shuffle, step, substitute, tweak, unshuffle, Key, PauthContext, PauthError,
    PauthState,
};

#[test]
fn layer_inverses_and_involutory_matrix() {
    for word in [0, 1, u64::MAX, 0x123456789abcdef0, 0xfedcba9876543210] {
        let original = cells(word);
        assert_eq!(packed(original), word);
        assert_eq!(unshuffle(shuffle(original)), original);
        assert_eq!(tweak(tweak(original, false), true), original);
        assert_eq!(mix(mix(original)), original);
        let mut altered = original;
        substitute(&mut altered, false);
        substitute(&mut altered, true);
        assert_eq!(altered, original);
    }
}

#[test]
fn qemu_executed_pacia_vector() {
    let mut state = PauthState::reset();
    state.keys[0] = Key { lo: 0x48ad369c24681357, hi: 0xb752c963db97eca8 };
    assert_eq!(state.sign(0x130, 0x9876, 0, 16).unwrap(), 0xbf36000000000130);
    assert_eq!(state.authenticate(0xbf36000000000130, 0x9876, 0, 16).unwrap(), 0x130);
}

#[test]
fn qemu_executed_generic_mac_vectors() {
    let vectors = [
        (0, 0, 0, 0, 0x76243b95),
        (u64::MAX, u64::MAX, u64::MAX, u64::MAX, 0x56b6776d),
        (0xfb623599da6e8127, 0x477d469dec0b8762, 0xec2802d4e0a488e9, 0x84be85ce9804e94b, 0xc003b939),
        (0x130, 0x9876, 0x48ad369c24681357, 0xb752c963db97eca8, 0xbf3684bf),
        (0x0123456789abcdef, 0xfedcba9876543210, 0x1111111111111111, 0x8888888888888888, 0x07277012),
        (0x8000000000000000, 1, 2, 4, 0xb31a56a5),
        (0x0123456789abcdef, 0x1020304050607080, 0x1122334455667788, 0x8877665544332211, 0x7b4ef811),
        (0xaaaaaaaaaaaaaaaa, 0x5555555555555555, 0, u64::MAX, 0x580ee305),
    ];
    for (data, modifier, lo, hi, expected) in vectors {
        assert_eq!(qarma5(data, modifier, Key { lo, hi }) >> 32, expected);
    }
}

#[test]
fn authentication_failure_and_unsupported_modes() {
    let mut state = PauthState::reset();
    let tcr = 16 | (16 << 16);
    for key in 0..4 {
        state.keys[key] = Key { lo: key as u64 + 1, hi: 0xdeadbeef };
        for pointer in [0x12345678, 0xffff800012345678] {
            let signed = state.sign(pointer, 99, key, tcr).unwrap();
            assert_eq!(state.authenticate(signed, 99, key, tcr).unwrap(), pointer);
            let corrupt = state.authenticate(signed ^ (1 << 48), 99, key, tcr).unwrap();
            assert_ne!(corrupt, pointer);
            assert_eq!((corrupt >> 61) & 3, if key & 1 == 0 { 1 } else { 2 });
            assert_eq!(PauthState::strip(signed, tcr).unwrap(), pointer);
        }
    }
    assert_eq!(state.sign(1, 2, 0, 17), Err(PauthError::Unsupported));
    assert_eq!(state.sign(1, 2, 0, tcr | (1 << 37)), Err(PauthError::Unsupported));
}

#[test]
fn step_leaves_other_instructions_to_the_main_decoder() {
    let state = PauthState::reset();
    let mut context = PauthContext::new([7u64; 31], 0x8000, 0x1000, 0, 16 | (16 << 16), state, 1);
    assert!(step(&mut context, 0x8b020020).is_none());
    assert_eq!(context.pc, 0x1000);
    assert_eq!(context.sp, 0x8000);
    assert_eq!(context.x, [7u64; 31]);
}
