use nextcore_ise::decoder::{DecodedInstruction, InstructionDecoder};
use nextcore_ise::emulator::{Emulator, EmulatorError, Registers, FLAG_CF, FLAG_ZF};

fn dec(data: &[u8]) -> DecodedInstruction {
    InstructionDecoder::decode(data, 0).unwrap()
}

fn lane_add(a: u32, b: u32) -> u32 {
    (f32::from_bits(a) + f32::from_bits(b)).to_bits()
}

#[test]
fn test_vzeroupper() {
    let mut regs = Registers::new();
    regs.ymm[0] = 0xFFFF_FFFF_FFFF_FFFF_FFFF_FFFF_FFFF_FFFF;
    let inst = dec(&[0xC5, 0xF8, 0x77]);
    Emulator::emulate_ise(&inst, &mut regs, lane_add).unwrap();
    assert_eq!(regs.ymm[0], 0);
}

#[test]
fn test_popcnt_gpr() {
    let mut regs = Registers::new();
    regs.rax = 0xFF;
    let inst = dec(&[0xF3, 0x0F, 0xB8, 0xC0]);
    Emulator::emulate_ise(&inst, &mut regs, lane_add).unwrap();
    assert_eq!(regs.rax, 8);
}

#[test]
fn test_xor_reg() {
    let mut regs = Registers::new();
    regs.rax = 0xAAAA_AAAA_AAAA_AAAA;
    let inst = dec(&[0x31, 0xC0]);
    Emulator::emulate_ise(&inst, &mut regs, lane_add).unwrap();
    assert_eq!(regs.rax, 0);
    assert_ne!(regs.rflags & FLAG_ZF, 0);
}

#[test]
fn test_add_reg() {
    let mut regs = Registers::new();
    regs.rax = 5;
    regs.rcx = 3;
    let inst = dec(&[0x01, 0xC8]);
    Emulator::emulate_ise(&inst, &mut regs, lane_add).unwrap();
    assert_eq!(regs.rax, 8);
}

#[test]
fn test_add_imm() {
    let mut regs = Registers::new();
    regs.rax = 10;
    let inst = dec(&[0x83, 0xC0, 0x05]);
    Emulator::emulate_ise(&inst, &mut regs, lane_add).unwrap();
    assert_eq!(regs.rax, 15);
}

#[test]
fn test_cmp_flags() {
    let mut regs = Registers::new();
    regs.rax = 5;
    regs.rcx = 5;
    let inst = dec(&[0x39, 0xC8]);
    Emulator::emulate_ise(&inst, &mut regs, lane_add).unwrap();
    assert_ne!(regs.rflags & FLAG_ZF, 0);
    assert_eq!(regs.rax, 5);
}

#[test]
fn test_mov() {
    let mut regs = Registers::new();
    regs.rcx = 0x1234;
    let inst = dec(&[0x89, 0xC8]);
    Emulator::emulate_ise(&inst, &mut regs, lane_add).unwrap();
    assert_eq!(regs.rax, 0x1234);
}

#[test]
fn test_shl_imm() {
    let mut regs = Registers::new();
    regs.rax = 1;
    let inst = dec(&[0xD1, 0xE0]);
    Emulator::emulate_ise(&inst, &mut regs, lane_add).unwrap();
    assert_eq!(regs.rax, 2);
}

#[test]
fn test_and_imm() {
    let mut regs = Registers::new();
    regs.rax = 0xFFFF;
    let inst = dec(&[0x83, 0xE0, 0x0F]);
    Emulator::emulate_ise(&inst, &mut regs, lane_add).unwrap();
    assert_eq!(regs.rax, 0x0F);
}

#[test]
fn test_vaddps_simple() {
    let mut regs = Registers::new();
    regs.set_xmm(0, (1.0f32).to_bits() as u128).unwrap();
    regs.set_xmm(1, (2.0f32).to_bits() as u128).unwrap();
    let inst = dec(&[0xC5, 0xF0, 0x58, 0xC1]);
    Emulator::emulate_ise(&inst, &mut regs, lane_add).unwrap();
    let lo = regs.get_xmm(0).unwrap() as u32;
    assert_eq!(lo, (3.0f32).to_bits());
}

#[test]
fn test_sub_mem_unsupported() {
    let mut regs = Registers::new();
    let inst = dec(&[0x2B, 0x05, 0x00, 0x00, 0x00, 0x00]);
    assert!(Emulator::emulate_ise(&inst, &mut regs, lane_add).is_err());
}

#[test]
fn failed_emulation_leaves_registers_unchanged() {
    let mut regs = Registers::new();
    regs.rax = 77;
    let inst = dec(&[0x2B, 0x05, 0x00, 0x00, 0x00, 0x00]);
    let before = regs;
    assert!(Emulator::emulate_ise(&inst, &mut regs, lane_add).is_err());
    assert_eq!(regs.rax, before.rax);
    assert_eq!(regs.rflags, before.rflags);
}

#[test]
fn cmp_below_sets_carry_and_clears_zero() {
    let mut regs = Registers::new();
    regs.rax = 3;
    regs.rcx = 5;
    let inst = dec(&[0x39, 0xC8]);
    Emulator::emulate_ise(&inst, &mut regs, lane_add).unwrap();
    assert_ne!(regs.rflags & FLAG_CF, 0);
    assert_eq!(regs.rflags & FLAG_ZF, 0);
    assert_eq!(regs.rax, 3);
}

#[test]
fn register_index_out_of_range_is_an_error() {
    let mut regs = Registers::new();
    assert!(matches!(regs.get_gpr(16), Err(EmulatorError::InvalidRegister(16))));
    assert!(regs.set_xmm(16, 1).is_err());
    assert_eq!(regs.set_gpr(15, 9), Ok(()));
    assert_eq!(regs.r15, 9);
}
