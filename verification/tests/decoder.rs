use nextcore_ise::decoder::{InstructionDecoder, OpcodeName, Operand};

#[test]
fn test_decode_add_reg_mem() {
    // 01 C8 = ADD eax, ecx
    let data = [0x01, 0xC8];
    let inst = InstructionDecoder::decode(&data, 0).unwrap();
    assert_eq!(inst.name, OpcodeName::Add);
    assert_eq!(inst.reg_index, 1);
    assert_eq!(inst.rm_index, 0);
}

#[test]
fn test_decode_mov() {
    // 89 C8 = MOV eax, ecx
    let data = [0x89, 0xC8];
    let inst = InstructionDecoder::decode(&data, 0).unwrap();
    assert_eq!(inst.name, OpcodeName::Mov);
    assert_eq!(inst.rm_index, 0);
    assert_eq!(inst.reg_index, 1);
    match &inst.operands[0] {
        Operand::Register(r) => assert_eq!(*r, 0),
        _ => panic!("dst should be register"),
    }
    match &inst.operands[1] {
        Operand::Register(r) => assert_eq!(*r, 1),
        _ => panic!("src should be register"),
    }
}

#[test]
fn test_decode_popcnt() {
    let data = [0xF3, 0x0F, 0xB8, 0xC0];
    let inst = InstructionDecoder::decode(&data, 0).unwrap();
    assert_eq!(inst.name, OpcodeName::Popcnt);
    assert!(inst.is_sse4);
}

#[test]
fn test_decode_vex() {
    let data = [0xC5, 0xF8, 0x77];
    let inst = InstructionDecoder::decode(&data, 0).unwrap();
    assert!(inst.is_avx);
    assert_eq!(inst.name, OpcodeName::VzeroUpper);
}

#[test]
fn test_decode_shl() {
    let data = [0xD1, 0xE0];
    let inst = InstructionDecoder::decode(&data, 0).unwrap();
    assert_eq!(inst.name, OpcodeName::Shl);
}

#[test]
fn test_decode_xor() {
    let data = [0x31, 0xC0];
    let inst = InstructionDecoder::decode(&data, 0).unwrap();
    assert_eq!(inst.name, OpcodeName::Xor);
}

#[test]
fn test_decode_add_imm8() {
    let data = [0x83, 0xC0, 0x05];
    let inst = InstructionDecoder::decode(&data, 0).unwrap();
    assert_eq!(inst.name, OpcodeName::Add);
    assert_eq!(inst.length, 3);
    match &inst.operands[1] {
        Operand::Immediate(v) => assert_eq!(*v, 5),
        _ => panic!("expected immediate"),
    }
}

#[test]
fn test_decode_movdqa() {
    let data = [0x66, 0x0F, 0x6F, 0xC1];
    let inst = InstructionDecoder::decode(&data, 0).unwrap();
    assert_eq!(inst.name, OpcodeName::Movdqa);
}

#[test]
fn test_decode_nop() {
    let data = [0x90];
    let inst = InstructionDecoder::decode(&data, 0).unwrap();
    assert_eq!(inst.name, OpcodeName::Nop);
}

#[test]
fn test_decode_unsupported() {
    let data = [0x0F, 0xAA];
    assert!(InstructionDecoder::decode(&data, 0).is_err());
}

#[test]
fn decode_reports_truncated_input() {
    let data = [0x83, 0xC0];
    assert!(InstructionDecoder::decode(&data, 0).is_err());
    assert!(InstructionDecoder::decode(&data, 2).is_err());
}

#[test]
fn decode_honours_offset() {
    let data = [0x90, 0x31, 0xC0];
    let inst = InstructionDecoder::decode(&data, 1).unwrap();
    assert_eq!(inst.name, OpcodeName::Xor);
    assert_eq!(inst.length, 2);
}
