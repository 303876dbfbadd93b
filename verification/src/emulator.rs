//! Register-file emulation of decoded instructions.
//!
//! `emulate_spec` states, per opcode, what an instruction does to the
//! register file; `Emulator::emulate_ise` is proved to do exactly that.  The
//! single-precision lane addition of VADDPS is floating point and is supplied
//! by the caller as `lane_add`; everything around it is proved here.
use vstd::prelude::*;
use crate::decoder::{DecodedInstruction, DecodedView, OpcodeName, Operand, OperandSize};

verus! {

#[derive(Debug, Clone, Copy, PartialEq, Eq, Structural)]
pub enum EmulatorError {
    UnsupportedInstruction(u32),
    InvalidRegister(u32),
    DivisionByZero,
    UnsupportedName,
    MemoryUnsupported,
}

#[derive(Debug, Clone, Copy)]
pub struct Registers {
    pub rax: u64,
    pub rbx: u64,
    pub rcx: u64,
    pub rdx: u64,
    pub rsi: u64,
    pub rdi: u64,
    pub rsp: u64,
    pub rbp: u64,
    pub r8: u64,
    pub r9: u64,
    pub r10: u64,
    pub r11: u64,
    pub r12: u64,
    pub r13: u64,
    pub r14: u64,
    pub r15: u64,
    pub xmm: [u128; 16],
    pub ymm: [u128; 16],
    pub rflags: u64,
}

pub const FLAG_CF: u64 = 1;
pub const FLAG_ZF: u64 = 0x40;
pub const FLAG_SF: u64 = 0x80;
pub const FLAG_OF: u64 = 0x800;

/// The register file as mathematics: general-purpose registers in encoding
/// order (rax, rcx, rdx, rbx, rsp, rbp, rsi, rdi, r8..r15).
#[verifier::ext_equal]
pub struct RegsView {
    pub gpr: Seq<u64>,
    pub xmm: Seq<u128>,
    pub ymm: Seq<u128>,
    pub rflags: u64,
}

impl View for Registers {
    type V = RegsView;

    open spec fn view(&self) -> RegsView {
        RegsView {
            gpr: seq![self.rax, self.rcx, self.rdx, self.rbx, self.rsp, self.rbp, self.rsi, self.rdi,
                self.r8, self.r9, self.r10, self.r11, self.r12, self.r13, self.r14, self.r15],
            xmm: self.xmm@,
            ymm: self.ymm@,
            rflags: self.rflags,
        }
    }
}

// ---------------------------------------------------------------------------
// Semantics.
// ---------------------------------------------------------------------------

pub open spec fn msb(x: u64) -> bool {
    x >= 0x8000_0000_0000_0000
}

pub open spec fn with_gpr(r: RegsView, index: int, value: u64) -> RegsView {
    RegsView { gpr: r.gpr.update(index, value), ..r }
}

pub open spec fn with_xmm(r: RegsView, index: int, value: u128) -> RegsView {
    RegsView { xmm: r.xmm.update(index, value), ..r }
}

/// RFLAGS after an arithmetic result: CF, ZF, SF and OF replaced, every other
/// bit kept.
pub open spec fn flags_after(rflags: u64, cf: bool, zf: bool, sf: bool, of: bool) -> u64 {
    (rflags & !(FLAG_CF | FLAG_ZF | FLAG_SF | FLAG_OF)) | (if cf { FLAG_CF } else { 0 }) | (if zf {
        FLAG_ZF
    } else {
        0
    }) | (if sf { FLAG_SF } else { 0 }) | (if of { FLAG_OF } else { 0 })
}

pub open spec fn with_flags(r: RegsView, cf: bool, zf: bool, sf: bool, of: bool) -> RegsView {
    RegsView { rflags: flags_after(r.rflags, cf, zf, sf, of), ..r }
}

/// Value of operand `which`; a missing operand reads as zero.
pub open spec fn operand_value(ops: Seq<Operand>, r: RegsView, which: int) -> Result<u64, EmulatorError> {
    if which >= ops.len() {
        Ok(0)
    } else {
        match ops[which] {
            Operand::Register(x) => if x < 16 {
                Ok(r.gpr[x as int])
            } else {
                Err(EmulatorError::InvalidRegister(x))
            },
            Operand::Immediate(v) => Ok(v),
            Operand::Memory(_) => Err(EmulatorError::MemoryUnsupported),
        }
    }
}

/// Register file after writing `value` to operand `which`.
pub open spec fn write_operand(ops: Seq<Operand>, r: RegsView, which: int, value: u64) -> Result<RegsView, EmulatorError> {
    if which >= ops.len() {
        Err(EmulatorError::UnsupportedName)
    } else {
        match ops[which] {
            Operand::Register(x) => if x < 16 {
                Ok(with_gpr(r, x as int, value))
            } else {
                Err(EmulatorError::InvalidRegister(x))
            },
            Operand::Memory(_) => Err(EmulatorError::MemoryUnsupported),
            Operand::Immediate(_) => Err(EmulatorError::UnsupportedName),
        }
    }
}

pub open spec fn wrap64(x: int) -> u64 {
    (x % 0x1_0000_0000_0000_0000) as u64
}

/// `(result, carry, overflow)` of the two-operand ALU operations.
pub open spec fn alu(name: OpcodeName, l: u64, r: u64) -> (u64, bool, bool) {
    match name {
        OpcodeName::Add => {
            let v = wrap64(l + r);
            (v, l + r >= 0x1_0000_0000_0000_0000, msb(l) == msb(r) && msb(v) != msb(l))
        },
        OpcodeName::Sub | OpcodeName::Cmp => {
            let v = wrap64(l - r);
            (v, l < r, msb(l) != msb(r) && msb(v) != msb(l))
        },
        OpcodeName::Xor => (l ^ r, false, false),
        OpcodeName::And => (l & r, false, false),
        _ => (l | r, false, false),
    }
}

/// `(result, carry)` of a shift by `count` (already reduced to 0..=63).
pub open spec fn shift(left: bool, value: u64, count: u64) -> (u64, bool) {
    if count == 0 {
        (value, false)
    } else if left {
        (value << count, (value >> (64 - count) as u64) & 1 == 1)
    } else {
        (value >> count, (value >> (count - 1) as u64) & 1 == 1)
    }
}

/// Number of one bits.
pub open spec fn popcount(x: u64) -> nat
    decreases x,
{
    if x == 0 {
        0
    } else {
        popcount(x / 2) + (x % 2) as nat
    }
}

/// Byte `i` of `s`, sign-extended to a 16-bit word.
pub open spec fn sx_word(s: u128, i: u32) -> u128 {
    let b = (s >> ((i * 8) as u128)) & 0xff;
    if b < 128 { b } else { b | 0xff00 }
}

/// PMOVSXBW: the low `n` words of the result are the sign-extended low bytes
/// of the source.
pub open spec fn pmovsxbw(s: u128, n: u32) -> u128
    decreases n,
{
    if n == 0 {
        0
    } else {
        pmovsxbw(s, (n - 1) as u32) | (sx_word(s, (n - 1) as u32) << (((n - 1) * 16) as u128))
    }
}

/// The 64-bit lane `lane` (0 or 1) of a 128-bit register.
pub open spec fn lane64(x: u128, lane: u128) -> u128 {
    (x >> (lane * 64)) & 0xffff_ffff_ffff_ffff
}

/// The 32-bit lane `i` of a 128-bit register.
pub open spec fn lane32(x: u128, i: u128) -> u32 {
    ((x >> (i * 32)) & 0xffff_ffff) as u32
}

pub open spec fn last_immediate(ops: Seq<Operand>) -> u64 {
    if ops.len() > 0 && ops.last() is Immediate {
        ops.last()->Immediate_0
    } else {
        0
    }
}

/// Two-operand ALU instructions: the destination gets the result, then flags.
pub open spec fn binary_spec(inst: DecodedView, r: RegsView) -> Result<RegsView, EmulatorError> {
    match operand_value(inst.operands, r, 0) {
        Err(e) => Err(e),
        Ok(l) => match operand_value(inst.operands, r, 1) {
            Err(e) => Err(e),
            Ok(v) => {
                let (res, cf, of) = alu(inst.name, l, v);
                match write_operand(inst.operands, r, 0, res) {
                    Err(e) => Err(e),
                    Ok(r2) => Ok(with_flags(r2, cf, res == 0, msb(res), of)),
                }
            },
        },
    }
}

pub open spec fn xmm_value(r: RegsView, index: u32) -> Result<u128, EmulatorError> {
    if index < 16 {
        Ok(r.xmm[index as int])
    } else {
        Err(EmulatorError::InvalidRegister(index))
    }
}

pub open spec fn set_xmm_spec(r: RegsView, index: u32, value: u128) -> Result<RegsView, EmulatorError> {
    if index < 16 {
        Ok(with_xmm(r, index as int, value))
    } else {
        Err(EmulatorError::InvalidRegister(index))
    }
}

/// The register file after `inst` (VADDPS excepted, see `emulate_ise`).
pub open spec fn emulate_spec(inst: DecodedView, r: RegsView) -> Result<RegsView, EmulatorError> {
    let ops = inst.operands;
    match inst.name {
        OpcodeName::Add | OpcodeName::Sub | OpcodeName::Xor | OpcodeName::And | OpcodeName::Or =>
            binary_spec(inst, r),
        OpcodeName::Mov => match operand_value(ops, r, 1) {
            Err(e) => Err(e),
            Ok(v) => write_operand(ops, r, 0, v),
        },
        OpcodeName::Cmp => match operand_value(ops, r, 0) {
            Err(e) => Err(e),
            Ok(l) => match operand_value(ops, r, 1) {
                Err(e) => Err(e),
                Ok(v) => {
                    let (res, cf, of) = alu(OpcodeName::Cmp, l, v);
                    Ok(with_flags(r, cf, res == 0, msb(res), of))
                },
            },
        },
        OpcodeName::Shl | OpcodeName::Shr => match operand_value(ops, r, 0) {
            Err(e) => Err(e),
            Ok(value) => match operand_value(ops, r, 1) {
                Err(e) => Err(e),
                Ok(c) => {
                    let (res, cf) = shift(inst.name == OpcodeName::Shl, value, c & 0x3f);
                    match write_operand(ops, r, 0, res) {
                        Err(e) => Err(e),
                        Ok(r2) => Ok(with_flags(r2, cf, res == 0, msb(res), false)),
                    }
                },
            },
        },
        OpcodeName::Popcnt => match operand_value(ops, r, 1) {
            Err(e) => Err(e),
            Ok(src) => {
                let res = popcount(src) as u64;
                match write_operand(ops, r, 0, res) {
                    Err(e) => Err(e),
                    Ok(r2) => Ok(with_flags(r2, false, res == 0, false, false)),
                }
            },
        },
        OpcodeName::Pclmulqdq => {
            let imm = last_immediate(ops);
            match xmm_value(r, inst.reg_index) {
                Err(e) => Err(e),
                Ok(a) => match xmm_value(r, inst.rm_index) {
                    Err(e) => Err(e),
                    Ok(b) => set_xmm_spec(r, inst.reg_index,
                        (lane64(a, ((imm >> 4u64) & 1) as u128) * lane64(b, (imm & 1) as u128)) as u128),
                },
            }
        },
        OpcodeName::Pmovsxbw => match xmm_value(r, inst.rm_index) {
            Err(e) => Err(e),
            Ok(s) => set_xmm_spec(r, inst.reg_index, pmovsxbw(s, 8)),
        },
        OpcodeName::Movdqa | OpcodeName::Movdqu => match xmm_value(r, inst.rm_index) {
            Err(e) => Err(e),
            Ok(s) => set_xmm_spec(r, inst.reg_index, s),
        },
        OpcodeName::VzeroUpper => Ok(RegsView { ymm: Seq::new(16, |i: int| 0u128), ..r }),
        OpcodeName::Nop => Ok(r),
        _ => Err(EmulatorError::UnsupportedName),
    }
}

/// Register-to-register ADD, SUB, AND, OR and XOR write to the destination
/// register its value combined with the source register's value (the sum
/// or difference modulo 2^64, or the bitwise AND, OR or XOR), keep every
/// other register, set ZF exactly when the result is zero and SF exactly
/// when its top bit is set; AND, OR and XOR clear CF and OF, ADD sets CF on
/// a carry out of bit 63 and SUB on a borrow.
pub proof fn lemma_register_alu(inst: DecodedView, r: RegsView, d: u32, s: u32)
    requires
        inst.operands == seq![Operand::Register(d), Operand::Register(s)],
        d < 16,
        s < 16,
        r.gpr.len() == 16,
        inst.name == OpcodeName::Add || inst.name == OpcodeName::Sub || inst.name == OpcodeName::And || inst.name
            == OpcodeName::Or || inst.name == OpcodeName::Xor,
    ensures
        emulate_spec(inst, r) is Ok,
        ({
            let n = emulate_spec(inst, r)->Ok_0;
            let a = r.gpr[d as int];
            let b = r.gpr[s as int];
            let v = n.gpr[d as int];
            &&& v == (if inst.name == OpcodeName::Or {
                a | b
            } else if inst.name == OpcodeName::And {
                a & b
            } else if inst.name == OpcodeName::Xor {
                a ^ b
            } else if inst.name == OpcodeName::Add {
                ((a + b) % 0x1_0000_0000_0000_0000) as u64
            } else {
                ((a - b) % 0x1_0000_0000_0000_0000) as u64
            })
            &&& n.gpr.len() == 16
            &&& forall|i: int| 0 <= i < 16 && i != d ==> n.gpr[i] == r.gpr[i]
            &&& n.xmm == r.xmm && n.ymm == r.ymm
            &&& (n.rflags & 0x40 != 0) == (v == 0)
            &&& (n.rflags & 0x80 != 0) == (v >= 0x8000_0000_0000_0000)
            &&& (inst.name == OpcodeName::And || inst.name == OpcodeName::Or || inst.name == OpcodeName::Xor) ==> n.rflags
                & 0x1 == 0 && n.rflags & 0x800 == 0
            &&& inst.name == OpcodeName::Add ==> (n.rflags & 0x1 != 0) == (a + b >= 0x1_0000_0000_0000_0000)
            &&& inst.name == OpcodeName::Sub ==> (n.rflags & 0x1 != 0) == (a < b)
        }),
{
    let a = r.gpr[d as int];
    let b = r.gpr[s as int];
    let (v, cf, of) = alu(inst.name, a, b);
    let zf = v == 0;
    let sf = msb(v);
    let x = r.rflags;
    let fl = flags_after(x, cf, zf, sf, of);
    assert((fl & 0x40 != 0) == zf && (fl & 0x80 != 0) == sf && (fl & 0x1 != 0) == cf && (fl & 0x800 != 0) == of)
        by (bit_vector)
        requires
            fl == (x & !(1u64 | 0x40u64 | 0x80u64 | 0x800u64)) | (if cf { 1u64 } else { 0u64 }) | (if zf {
                0x40u64
            } else {
                0u64
            }) | (if sf { 0x80u64 } else { 0u64 }) | (if of { 0x800u64 } else { 0u64 }),
    ;
    let n = emulate_spec(inst, r)->Ok_0;
    assert(n.gpr[d as int] == v);
}

/// Register-to-register MOV copies the source register's value into the
/// destination and changes nothing else; CMP changes no register, sets ZF
/// exactly when the two values are equal, CF exactly when the first is
/// below the second (unsigned), and SF from bit 63 of their difference.
pub proof fn lemma_register_mov_and_compare(inst: DecodedView, r: RegsView, d: u32, s: u32)
    requires
        inst.operands == seq![Operand::Register(d), Operand::Register(s)],
        d < 16,
        s < 16,
        r.gpr.len() == 16,
        inst.name == OpcodeName::Mov || inst.name == OpcodeName::Cmp,
    ensures
        emulate_spec(inst, r) is Ok,
        ({
            let n = emulate_spec(inst, r)->Ok_0;
            let a = r.gpr[d as int];
            let b = r.gpr[s as int];
            &&& inst.name == OpcodeName::Mov ==> n == RegsView { gpr: r.gpr.update(d as int, b), ..r }
            &&& inst.name == OpcodeName::Cmp ==> {
                &&& n.gpr == r.gpr && n.xmm == r.xmm && n.ymm == r.ymm
                &&& (n.rflags & 0x40 != 0) == (a == b)
                &&& (n.rflags & 0x1 != 0) == (a < b)
                &&& (n.rflags & 0x80 != 0) == (((a - b) % 0x1_0000_0000_0000_0000) >= 0x8000_0000_0000_0000)
            }
        }),
{
    if inst.name == OpcodeName::Cmp {
        let a = r.gpr[d as int];
        let b = r.gpr[s as int];
        let (v, cf, of) = alu(OpcodeName::Cmp, a, b);
        let zf = v == 0;
        let sf = msb(v);
        let x = r.rflags;
        let fl = flags_after(x, cf, zf, sf, of);
        assert((fl & 0x40 != 0) == zf && (fl & 0x80 != 0) == sf && (fl & 0x1 != 0) == cf) by (bit_vector)
            requires
                fl == (x & !(1u64 | 0x40u64 | 0x80u64 | 0x800u64)) | (if cf { 1u64 } else { 0u64 }) | (if zf {
                    0x40u64
                } else {
                    0u64
                }) | (if sf { 0x80u64 } else { 0u64 }) | (if of { 0x800u64 } else { 0u64 }),
        ;
    }
}

pub open spec fn outcome(res: Result<(), EmulatorError>, r: RegsView) -> Result<RegsView, EmulatorError> {
    match res {
        Ok(()) => Ok(r),
        Err(e) => Err(e),
    }
}

/// The second VADDPS source: the register operand, or ModRM.rm.
pub open spec fn vaddps_source(inst: DecodedView) -> u32 {
    if inst.operands.len() > 1 && inst.operands[1] is Register {
        inst.operands[1]->Register_0
    } else {
        inst.rm_index
    }
}

// ---------------------------------------------------------------------------
// Register file.
// ---------------------------------------------------------------------------

impl Registers {
    pub fn new() -> (r: Self)
        ensures
            r@.gpr == Seq::new(16, |i: int| 0u64),
            r@.xmm == Seq::new(16, |i: int| 0u128),
            r@.ymm == Seq::new(16, |i: int| 0u128),
            r@.rflags == 0,
    {
        let r = Registers {
            rax: 0,
            rbx: 0,
            rcx: 0,
            rdx: 0,
            rsi: 0,
            rdi: 0,
            rsp: 0,
            rbp: 0,
            r8: 0,
            r9: 0,
            r10: 0,
            r11: 0,
            r12: 0,
            r13: 0,
            r14: 0,
            r15: 0,
            xmm: [0u128; 16],
            ymm: [0u128; 16],
            rflags: 0,
        };
        assert(r@.xmm =~= Seq::new(16, |i: int| 0u128));
        assert(r@.ymm =~= Seq::new(16, |i: int| 0u128));
        assert(r@.gpr =~= Seq::new(16, |i: int| 0u64));
        r
    }

    pub fn get_gpr(&self, index: u32) -> (r: Result<u64, EmulatorError>)
        ensures
            index < 16 ==> r == Ok::<u64, EmulatorError>(self@.gpr[index as int]),
            index >= 16 ==> r == Err::<u64, EmulatorError>(EmulatorError::InvalidRegister(index)),
    {
        match index {
            0 => Ok(self.rax),
            1 => Ok(self.rcx),
            2 => Ok(self.rdx),
            3 => Ok(self.rbx),
            4 => Ok(self.rsp),
            5 => Ok(self.rbp),
            6 => Ok(self.rsi),
            7 => Ok(self.rdi),
            8 => Ok(self.r8),
            9 => Ok(self.r9),
            10 => Ok(self.r10),
            11 => Ok(self.r11),
            12 => Ok(self.r12),
            13 => Ok(self.r13),
            14 => Ok(self.r14),
            15 => Ok(self.r15),
            _ => Err(EmulatorError::InvalidRegister(index)),
        }
    }

    pub fn set_gpr(&mut self, index: u32, value: u64) -> (r: Result<(), EmulatorError>)
        ensures
            index < 16 ==> r is Ok && final(self)@ == with_gpr(old(self)@, index as int, value),
            index >= 16 ==> r == Err::<(), EmulatorError>(EmulatorError::InvalidRegister(index))
                && *final(self) == *old(self),
    {
        match index {
            0 => self.rax = value,
            1 => self.rcx = value,
            2 => self.rdx = value,
            3 => self.rbx = value,
            4 => self.rsp = value,
            5 => self.rbp = value,
            6 => self.rsi = value,
            7 => self.rdi = value,
            8 => self.r8 = value,
            9 => self.r9 = value,
            10 => self.r10 = value,
            11 => self.r11 = value,
            12 => self.r12 = value,
            13 => self.r13 = value,
            14 => self.r14 = value,
            15 => self.r15 = value,
            _ => return Err(EmulatorError::InvalidRegister(index)),
        }
        assert(self@.gpr =~= old(self)@.gpr.update(index as int, value));
        Ok(())
    }

    pub fn get_xmm(&self, index: u32) -> (r: Result<u128, EmulatorError>)
        ensures
            r == xmm_value(self@, index),
    {
        if index < 16 {
            Ok(self.xmm[index as usize])
        } else {
            Err(EmulatorError::InvalidRegister(index))
        }
    }

    pub fn set_xmm(&mut self, index: u32, value: u128) -> (r: Result<(), EmulatorError>)
        ensures
            outcome(r, final(self)@) == set_xmm_spec(old(self)@, index, value),
            r is Err ==> *final(self) == *old(self),
    {
        if index < 16 {
            self.xmm[index as usize] = value;
            Ok(())
        } else {
            Err(EmulatorError::InvalidRegister(index))
        }
    }
}

// ---------------------------------------------------------------------------
// Emulator.
// ---------------------------------------------------------------------------

pub struct Emulator;

#[derive(Clone, Copy)]
enum BinOp {
    Add,
    Sub,
    Xor,
    And,
    Or,
}

fn popcount_exec(x: u64) -> (c: u64)
    ensures
        c == popcount(x),
{
    let mut v = x;
    let mut c: u64 = 0;
    proof {
        lemma_popcount_le(x);
    }
    while v != 0
        invariant
            c + popcount(v) == popcount(x),
            popcount(x) <= x,
        decreases v,
    {
        proof {
            assert(v & 1 == v % 2) by {
                crate::bits::lemma_u64_bits(v);
            }
            assert(v >> 1 == v / 2) by {
                crate::bits::lemma_u64_bits(v);
            }
        }
        c = c + (v & 1);
        v = v >> 1;
    }
    c
}

/// A word has no more one bits than its value.
proof fn lemma_popcount_le(x: u64)
    ensures
        popcount(x) <= x,
    decreases x,
{
    if x != 0 {
        lemma_popcount_le(x / 2);
    }
}

impl Emulator {
    pub fn new() -> (e: Self) {
        Emulator
    }

    /// Emulate `inst` on `regs`.  A failed emulation leaves `regs` untouched.
    pub fn emulate_ise<F: Fn(u32, u32) -> u32>(inst: &DecodedInstruction, regs: &mut Registers, lane_add: F) -> (res: Result<(), EmulatorError>)
        requires
            forall|a: u32, b: u32| call_requires(lane_add, (a, b)),
            // 256-bit VADDPS shifts a 128-bit lane register by 128 or more.
            !(inst.name == OpcodeName::Vaddps && inst.operand_size == OperandSize::Size256),
        ensures
            inst.name != OpcodeName::Vaddps ==> outcome(res, final(regs)@) == emulate_spec(inst@, old(regs)@),
            res is Err ==> *final(regs) == *old(regs),
            inst.name == OpcodeName::Vaddps ==> vaddps_done(inst@, old(regs)@, final(regs)@, res, lane_add),
    {
        match inst.name {
            OpcodeName::Add => Self::emulate_binary(inst, regs, BinOp::Add),
            OpcodeName::Sub => Self::emulate_binary(inst, regs, BinOp::Sub),
            OpcodeName::Xor => Self::emulate_binary(inst, regs, BinOp::Xor),
            OpcodeName::And => Self::emulate_binary(inst, regs, BinOp::And),
            OpcodeName::Or => Self::emulate_binary(inst, regs, BinOp::Or),
            OpcodeName::Mov => Self::emulate_mov(inst, regs),
            OpcodeName::Cmp => Self::emulate_cmp(inst, regs),
            OpcodeName::Shl => Self::emulate_shift(inst, regs, true),
            OpcodeName::Shr => Self::emulate_shift(inst, regs, false),
            OpcodeName::Popcnt => Self::emulate_popcnt(inst, regs),
            OpcodeName::Pclmulqdq => Self::emulate_pclmulqdq(inst, regs),
            OpcodeName::Pmovsxbw => Self::emulate_pmovsxbw(inst, regs),
            OpcodeName::Movdqa | OpcodeName::Movdqu => Self::emulate_mov_xmm(inst, regs),
            OpcodeName::VzeroUpper => Self::emulate_vzeroupper(regs),
            OpcodeName::Vaddps => Self::emulate_vaddps(inst, regs, lane_add),
            OpcodeName::Nop => Ok(()),
            OpcodeName::Unknown => Err(EmulatorError::UnsupportedName),
        }
    }

    fn read_operand(inst: &DecodedInstruction, regs: &Registers, which: usize) -> (r: Result<u64, EmulatorError>)
        ensures
            r == operand_value(inst@.operands, regs@, which as int),
    {
        if which >= inst.operands.len() {
            return Ok(0);
        }
        match inst.operands[which] {
            Operand::Register(r) => regs.get_gpr(r),
            Operand::Immediate(v) => Ok(v),
            Operand::Memory(_) => Err(EmulatorError::MemoryUnsupported),
        }
    }

    fn write_dst(inst: &DecodedInstruction, regs: &mut Registers, which: usize, value: u64) -> (r: Result<(), EmulatorError>)
        ensures
            outcome(r, final(regs)@) == write_operand(inst@.operands, old(regs)@, which as int, value),
            r is Err ==> *final(regs) == *old(regs),
    {
        if which >= inst.operands.len() {
            return Err(EmulatorError::UnsupportedName);
        }
        match inst.operands[which] {
            Operand::Register(r) => regs.set_gpr(r, value),
            Operand::Memory(_) => Err(EmulatorError::MemoryUnsupported),
            Operand::Immediate(_) => Err(EmulatorError::UnsupportedName),
        }
    }

    fn emulate_mov(inst: &DecodedInstruction, regs: &mut Registers) -> (res: Result<(), EmulatorError>)
        requires
            inst.name == OpcodeName::Mov,
        ensures
            outcome(res, final(regs)@) == emulate_spec(inst@, old(regs)@),
            res is Err ==> *final(regs) == *old(regs),
    {
        let host = match Self::read_operand(inst, regs, 1) {
            Ok(v) => v,
            Err(e) => return Err(e),
        };
        Self::write_dst(inst, regs, 0, host)
    }

    fn update_flags(regs: &mut Registers, cf: bool, zf: bool, sf: bool, of: bool)
        ensures
            final(regs)@ == with_flags(old(regs)@, cf, zf, sf, of),
    {
        regs.rflags = (regs.rflags & !(FLAG_CF | FLAG_ZF | FLAG_SF | FLAG_OF)) | (if cf { FLAG_CF } else { 0 })
            | (if zf { FLAG_ZF } else { 0 }) | (if sf { FLAG_SF } else { 0 }) | (if of { FLAG_OF } else { 0 });
    }

    /// `(result, carry, overflow)` of one ALU operation.
    fn alu_exec(op: BinOp, lhs: u64, rhs: u64) -> (out: (u64, bool, bool))
        ensures
            out == alu(
                match op {
                    BinOp::Add => OpcodeName::Add,
                    BinOp::Sub => OpcodeName::Sub,
                    BinOp::Xor => OpcodeName::Xor,
                    BinOp::And => OpcodeName::And,
                    BinOp::Or => OpcodeName::Or,
                },
                lhs,
                rhs,
            ),
    {
        match op {
            BinOp::Add => {
                let (r, cf) = if rhs <= u64::MAX - lhs {
                    (lhs + rhs, false)
                } else {
                    (rhs - (u64::MAX - lhs) - 1, true)
                };
                let of = (lhs >= 0x8000_0000_0000_0000) == (rhs >= 0x8000_0000_0000_0000)
                    && (r >= 0x8000_0000_0000_0000) != (lhs >= 0x8000_0000_0000_0000);
                (r, cf, of)
            },
            BinOp::Sub => Self::sub_exec(lhs, rhs),
            BinOp::Xor => (lhs ^ rhs, false, false),
            BinOp::And => (lhs & rhs, false, false),
            BinOp::Or => (lhs | rhs, false, false),
        }
    }

    fn sub_exec(lhs: u64, rhs: u64) -> (out: (u64, bool, bool))
        ensures
            out == alu(OpcodeName::Sub, lhs, rhs),
    {
        let (r, cf) = if rhs <= lhs {
            (lhs - rhs, false)
        } else {
            (u64::MAX - (rhs - lhs) + 1, true)
        };
        let of = (lhs >= 0x8000_0000_0000_0000) != (rhs >= 0x8000_0000_0000_0000)
            && (r >= 0x8000_0000_0000_0000) != (lhs >= 0x8000_0000_0000_0000);
        (r, cf, of)
    }

    fn emulate_binary(inst: &DecodedInstruction, regs: &mut Registers, op: BinOp) -> (res: Result<(), EmulatorError>)
        requires
            inst.name == match op {
                BinOp::Add => OpcodeName::Add,
                BinOp::Sub => OpcodeName::Sub,
                BinOp::Xor => OpcodeName::Xor,
                BinOp::And => OpcodeName::And,
                BinOp::Or => OpcodeName::Or,
            },
        ensures
            outcome(res, final(regs)@) == binary_spec(inst@, old(regs)@),
            res is Err ==> *final(regs) == *old(regs),
    {
        let lhs = match Self::read_operand(inst, regs, 0) {
            Ok(v) => v,
            Err(e) => return Err(e),
        };
        let rhs = match Self::read_operand(inst, regs, 1) {
            Ok(v) => v,
            Err(e) => return Err(e),
        };
        let (result, cf, of) = Self::alu_exec(op, lhs, rhs);
        match Self::write_dst(inst, regs, 0, result) {
            Ok(()) => {},
            Err(e) => return Err(e),
        }
        Self::update_flags(regs, cf, result == 0, result >= 0x8000_0000_0000_0000, of);
        Ok(())
    }

    fn emulate_cmp(inst: &DecodedInstruction, regs: &mut Registers) -> (res: Result<(), EmulatorError>)
        requires
            inst.name == OpcodeName::Cmp,
        ensures
            outcome(res, final(regs)@) == emulate_spec(inst@, old(regs)@),
            res is Err ==> *final(regs) == *old(regs),
    {
        let lhs = match Self::read_operand(inst, regs, 0) {
            Ok(v) => v,
            Err(e) => return Err(e),
        };
        let rhs = match Self::read_operand(inst, regs, 1) {
            Ok(v) => v,
            Err(e) => return Err(e),
        };
        let (r, cf, of) = Self::sub_exec(lhs, rhs);
        Self::update_flags(regs, cf, r == 0, r >= 0x8000_0000_0000_0000, of);
        Ok(())
    }

    fn emulate_shift(inst: &DecodedInstruction, regs: &mut Registers, left: bool) -> (res: Result<(), EmulatorError>)
        requires
            inst.name == (if left { OpcodeName::Shl } else { OpcodeName::Shr }),
        ensures
            outcome(res, final(regs)@) == emulate_spec(inst@, old(regs)@),
            res is Err ==> *final(regs) == *old(regs),
    {
        let value = match Self::read_operand(inst, regs, 0) {
            Ok(v) => v,
            Err(e) => return Err(e),
        };
        let raw = match Self::read_operand(inst, regs, 1) {
            Ok(v) => v,
            Err(e) => return Err(e),
        };
        let count = raw & 0x3f;
        proof {
            assert(raw & 0x3f <= 63) by {
                crate::bits::lemma_u64_bits(raw);
            }
        }
        let (result, cf) = if count == 0 {
            (value, false)
        } else if left {
            ((value << count), (value >> (64 - count)) & 1 == 1)
        } else {
            ((value >> count), (value >> (count - 1)) & 1 == 1)
        };
        match Self::write_dst(inst, regs, 0, result) {
            Ok(()) => {},
            Err(e) => return Err(e),
        }
        Self::update_flags(regs, cf, result == 0, result >= 0x8000_0000_0000_0000, false);
        Ok(())
    }

    fn emulate_popcnt(inst: &DecodedInstruction, regs: &mut Registers) -> (res: Result<(), EmulatorError>)
        requires
            inst.name == OpcodeName::Popcnt,
        ensures
            outcome(res, final(regs)@) == emulate_spec(inst@, old(regs)@),
            res is Err ==> *final(regs) == *old(regs),
    {
        let src = match Self::read_operand(inst, regs, 1) {
            Ok(v) => v,
            Err(e) => return Err(e),
        };
        let result = popcount_exec(src);
        match Self::write_dst(inst, regs, 0, result) {
            Ok(()) => {},
            Err(e) => return Err(e),
        }
        Self::update_flags(regs, false, result == 0, false, false);
        Ok(())
    }

    fn emulate_vzeroupper(regs: &mut Registers) -> (res: Result<(), EmulatorError>)
        ensures
            res is Ok,
            final(regs)@ == (RegsView { ymm: Seq::new(16, |i: int| 0u128), ..old(regs)@ }),
    {
        regs.ymm = [0u128; 16];
        assert(regs.ymm@ =~= Seq::new(16, |i: int| 0u128));
        Ok(())
    }

    fn emulate_mov_xmm(inst: &DecodedInstruction, regs: &mut Registers) -> (res: Result<(), EmulatorError>)
        requires
            inst.name == OpcodeName::Movdqa || inst.name == OpcodeName::Movdqu,
        ensures
            outcome(res, final(regs)@) == emulate_spec(inst@, old(regs)@),
            res is Err ==> *final(regs) == *old(regs),
    {
        let dst = inst.reg_index;
        let src = inst.rm_index;
        let v = match regs.get_xmm(src) {
            Ok(v) => v,
            Err(e) => return Err(e),
        };
        regs.set_xmm(dst, v)
    }

    fn emulate_pmovsxbw(inst: &DecodedInstruction, regs: &mut Registers) -> (res: Result<(), EmulatorError>)
        requires
            inst.name == OpcodeName::Pmovsxbw,
        ensures
            outcome(res, final(regs)@) == emulate_spec(inst@, old(regs)@),
            res is Err ==> *final(regs) == *old(regs),
    {
        let dst = inst.reg_index;
        let src = inst.rm_index;
        let s = match regs.get_xmm(src) {
            Ok(v) => v,
            Err(e) => return Err(e),
        };
        let mut result: u128 = 0;
        let mut i: u32 = 0;
        while i < 8
            invariant
                i <= 8,
                result == pmovsxbw(s, i),
            decreases 8 - i,
        {
            let b = (s >> ((i * 8) as u128)) & 0xff;
            let word = if b < 128 { b } else { b | 0xff00 };
            result = result | (word << ((i * 16) as u128));
            i = i + 1;
        }
        regs.set_xmm(dst, result)
    }

    fn emulate_pclmulqdq(inst: &DecodedInstruction, regs: &mut Registers) -> (res: Result<(), EmulatorError>)
        requires
            inst.name == OpcodeName::Pclmulqdq,
        ensures
            outcome(res, final(regs)@) == emulate_spec(inst@, old(regs)@),
            res is Err ==> *final(regs) == *old(regs),
    {
        let dst = inst.reg_index;
        let src = inst.rm_index;
        let n = inst.operands.len();
        let imm: u64 = if n > 0 {
            match inst.operands[n - 1] {
                Operand::Immediate(v) => v,
                _ => 0,
            }
        } else {
            0
        };
        let src_lane = (imm & 1) as u128;
        let dst_lane = ((imm >> 4u64) & 1) as u128;
        proof {
            assert(imm & 1 <= 1) by {
                crate::bits::lemma_u64_bits(imm);
            }
            assert((imm >> 4u64) & 1 <= 1) by {
                crate::bits::lemma_u64_bits(imm);
            }
        }
        let a = match regs.get_xmm(dst) {
            Ok(v) => v,
            Err(e) => return Err(e),
        };
        let b = match regs.get_xmm(src) {
            Ok(v) => v,
            Err(e) => return Err(e),
        };
        let a_lo = (a >> (dst_lane * 64)) & 0xffff_ffff_ffff_ffff;
        let b_lo = (b >> (src_lane * 64)) & 0xffff_ffff_ffff_ffff;
        proof {
            crate::bits::lemma_u128_bits(a >> (dst_lane * 64));
            crate::bits::lemma_u128_bits(b >> (src_lane * 64));
            assert(a_lo * b_lo <= 0xffff_ffff_ffff_fffe_0000_0000_0000_0001) by (nonlinear_arith)
                requires
                    a_lo <= 0xffff_ffff_ffff_ffff,
                    b_lo <= 0xffff_ffff_ffff_ffff,
            ;
        }
        let product = a_lo * b_lo;
        regs.set_xmm(dst, product)
    }

    fn emulate_vaddps<F: Fn(u32, u32) -> u32>(inst: &DecodedInstruction, regs: &mut Registers, lane_add: F) -> (res: Result<(), EmulatorError>)
        requires
            forall|a: u32, b: u32| call_requires(lane_add, (a, b)),
            inst.operand_size != OperandSize::Size256,
        ensures
            vaddps_done(inst@, old(regs)@, final(regs)@, res, lane_add),
            res is Err ==> *final(regs) == *old(regs),
    {
        let dst = inst.reg_index;
        let src = inst.rm_index;
        let a = match regs.get_xmm(dst) {
            Ok(v) => v,
            Err(e) => return Err(e),
        };
        let b_index = if inst.operands.len() > 1 {
            match inst.operands[1] {
                Operand::Register(r) => r,
                _ => src,
            }
        } else {
            src
        };
        let b = match regs.get_xmm(b_index) {
            Ok(v) => v,
            Err(e) => return Err(e),
        };
        let o0 = lane_add(((a >> 0u128) & 0xffff_ffff) as u32, ((b >> 0u128) & 0xffff_ffff) as u32);
        let o1 = lane_add(((a >> 32u128) & 0xffff_ffff) as u32, ((b >> 32u128) & 0xffff_ffff) as u32);
        let o2 = lane_add(((a >> 64u128) & 0xffff_ffff) as u32, ((b >> 64u128) & 0xffff_ffff) as u32);
        let o3 = lane_add(((a >> 96u128) & 0xffff_ffff) as u32, ((b >> 96u128) & 0xffff_ffff) as u32);
        let result = (o0 as u128) | ((o1 as u128) << 32u128) | ((o2 as u128) << 64u128) | ((o3 as u128)
            << 96u128);
        proof {
            lemma_compose_lanes(o0, o1, o2, o3, result);
        }
        regs.set_xmm(dst, result)
    }
}

/// A 128-bit value assembled from four 32-bit lanes has those lanes.
/// The four 32-bit lanes of a composed 128-bit value.
proof fn lemma_lane_bits(o0: u32, o1: u32, o2: u32, o3: u32, result: u128)
    by (bit_vector)
    requires
        result == (o0 as u128) | ((o1 as u128) << 32u128) | ((o2 as u128) << 64u128) | ((o3 as u128) << 96u128),
    ensures
        ((result >> 0u128) & 0xffff_ffff) == o0 as u128,
        ((result >> 32u128) & 0xffff_ffff) == o1 as u128,
        ((result >> 64u128) & 0xffff_ffff) == o2 as u128,
        ((result >> 96u128) & 0xffff_ffff) == o3 as u128,
{
}

proof fn lemma_compose_lanes(o0: u32, o1: u32, o2: u32, o3: u32, result: u128)
    requires
        result == (o0 as u128) | ((o1 as u128) << 32u128) | ((o2 as u128) << 64u128) | ((o3 as u128) << 96u128),
    ensures
        lane32(result, 0) == o0,
        lane32(result, 1) == o1,
        lane32(result, 2) == o2,
        lane32(result, 3) == o3,
{
    lemma_lane_bits(o0, o1, o2, o3, result);
}

/// What VADDPS guarantees: on success the destination XMM register holds,
/// in each of its four 32-bit lanes, a value that `lane_add` may return for
/// the corresponding lanes of the two sources; nothing else changes.
pub open spec fn vaddps_done<F: Fn(u32, u32) -> u32>(inst: DecodedView, before: RegsView, after: RegsView, res: Result<(), EmulatorError>, lane_add: F) -> bool {
    let dst = inst.reg_index;
    let src = vaddps_source(inst);
    if dst >= 16 {
        res == Err::<(), EmulatorError>(EmulatorError::InvalidRegister(dst)) && after == before
    } else if src >= 16 {
        res == Err::<(), EmulatorError>(EmulatorError::InvalidRegister(src)) && after == before
    } else {
        let a = before.xmm[dst as int];
        let b = before.xmm[src as int];
        &&& res is Ok
        &&& after.gpr == before.gpr && after.ymm == before.ymm && after.rflags == before.rflags
        &&& after.xmm == before.xmm.update(dst as int, after.xmm[dst as int])
        &&& forall|i: u128| 0 <= i < 4 ==> call_ensures(lane_add, (lane32(a, i), lane32(b, i)),
            #[trigger] lane32(after.xmm[dst as int], i))
    }
}

} // verus!
