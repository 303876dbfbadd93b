use nextcore_ise::memory_service::{
    MemoryService, Request, FETCH, GUEST_FAULT, INVALID_REQUEST, LOAD, OK, STORE, UNSUPPORTED,
};

fn request(op: u32, width: u32, count: u32, address: u64) -> Request {
    Request {
        abi_version: 1,
        struct_size: 80,
        operation: op,
        flags: 0,
        pc: address,
        address,
        value0: 0,
        value1: 0,
        sctlr: 0,
        epoch: 0,
        width,
        count,
        current_el: 1,
        reserved: 0,
    }
}

#[test]
fn all_widths_and_counts_preflight_and_transfer_raw_elements() {
    for width in [1u32, 2, 4, 8] {
        for count in 1..=2 {
            if count == 2 && width < 4 {
                continue;
            }
            let mut ram = [0xa5; 64];
            let mut service = MemoryService::new(&mut ram, 0x4000).unwrap();
            let mask = if width == 8 { u64::MAX } else { (1u64 << (width * 8)) - 1 };
            let mut store = request(STORE, width, count, 0x4010);
            store.value0 = 0xfedcba9876543280 & mask;
            store.value1 = if count == 2 { 0x89abcdef & mask } else { 0 };
            assert_eq!(service.execute(&store).result, OK);
            let read = service.execute(&request(LOAD, width, count, 0x4010));
            assert_eq!((read.result, read.value0, read.value1), (OK, store.value0, store.value1));
        }
    }
}

#[test]
fn rejected_pair_never_partially_writes_the_first_element() {
    for width in [4u32, 8] {
        let mut ram = [0xa5; 64];
        let before = ram;
        let mut r = request(STORE, width, 2, 0x4000 + 64 - u64::from(width));
        r.value0 = 0x42;
        r.value1 = 0x43;
        let out = MemoryService::new(&mut ram, 0x4000).unwrap().execute(&r);
        assert_eq!((out.result, out.address, out.esr), (UNSUPPORTED, 0x4040, 0));
        assert_eq!(ram, before);
    }
}

#[test]
fn malformed_requests_are_rejected_without_effects() {
    for kind in 0..14 {
        let mut ram = [0xa5; 64];
        let before = ram;
        let mut r = request(STORE, 4, 1, 0x4010);
        match kind {
            0 => r.abi_version = 2,
            1 => r.struct_size = 79,
            2 => r.flags = 1,
            3 => r.epoch = 1,
            4 => r.reserved = 1,
            5 => r.operation = 0,
            6 => r.width = 3,
            7 => r.count = 3,
            8 => {
                r.count = 2;
                r.width = 1
            }
            9 => r.value0 = 1 << 32,
            10 => r.value1 = 1,
            11 => {
                r.operation = LOAD;
                r.value0 = 1
            }
            12 => {
                r.operation = FETCH;
                r.address += 4
            }
            _ => {
                r.operation = FETCH;
                r.width = 8
            }
        }
        let out = MemoryService::new(&mut ram, 0x4000).unwrap().execute(&r);
        assert_eq!((out.result, out.fault, out.address, out.esr), (INVALID_REQUEST, 0, 0, 0));
        assert_eq!(ram, before);
    }
}

#[test]
fn device_alignment_and_pc_alignment_have_exact_syndromes() {
    for el in 0..2 {
        for a in [0, 2] {
            for op in [FETCH, LOAD, STORE] {
                let mut ram = [0xa5; 64];
                let before = ram;
                let mut r = request(op, 4, 1, 0x4001);
                r.current_el = el;
                r.sctlr = a;
                let out = MemoryService::new(&mut ram, 0x4000).unwrap().execute(&r);
                let esr = if op == FETCH {
                    0x8a000000
                } else {
                    ((0x24 + u64::from(el)) << 26) | (1 << 25) | 0x21 | if op == STORE { 64 } else { 0 }
                };
                assert_eq!((out.result, out.address, out.esr), (GUEST_FAULT, 0x4001, esr));
                assert_eq!(ram, before);
            }
        }
    }
}

#[test]
fn unsupported_modes_and_backing_do_not_invent_guest_faults() {
    for kind in 0..5 {
        let mut ram = [0xa5; 64];
        let before = ram;
        let mut r = request(STORE, 8, 1, 0x4010);
        match kind {
            0 => r.sctlr = 1,
            1 => r.current_el = 2,
            2 => r.sctlr = 1 << 25,
            3 => r.address = 0x4040,
            _ => r.address = 0x3ff8,
        }
        let out = MemoryService::new(&mut ram, 0x4000).unwrap().execute(&r);
        assert_eq!((out.result, out.fault, out.esr), (UNSUPPORTED, 0, 0));
        assert_eq!(out.address, r.address);
        assert_eq!(ram, before);
    }
    let mut short = [0; 7];
    assert!(MemoryService::new(&mut short, 0).is_err());
    let mut ram = [0; 8];
    assert!(MemoryService::new(&mut ram, u64::MAX - 7).is_err());
}

#[test]
fn fetch_reads_one_instruction_word() {
    let mut ram = [0u8; 16];
    ram[4..8].copy_from_slice(&0xd503201fu32.to_le_bytes());
    let mut service = MemoryService::new(&mut ram, 0x1000).unwrap();
    assert_eq!(service.base(), 0x1000);
    assert_eq!(service.size(), 16);
    let out = service.execute(&request(FETCH, 4, 1, 0x1004));
    assert_eq!((out.result, out.value0), (OK, 0xd503201f));
}

#[test]
fn refused_construction_leaves_ram_alone() {
    let mut short = [0x5au8; 7];
    assert!(MemoryService::new(&mut short, 0).is_err());
    assert_eq!(short, [0x5au8; 7]);
    let mut wrapping = [0xa5u8; 8];
    assert!(MemoryService::new(&mut wrapping, u64::MAX - 7).is_err());
    assert_eq!(wrapping, [0xa5u8; 8]);
}
