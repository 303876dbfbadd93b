//! Decoder for the x86 instruction subset that the trap path emulates.
//!
//! The accepted grammar is written down as spec functions (`scan_prefixes`,
//! `modrm_spec`, `decode_spec`, ...); `InstructionDecoder::decode` is proved to
//! compute exactly that grammar on every input byte string.
use vstd::prelude::*;

verus! {

#[derive(Debug, Clone, Copy, PartialEq, Eq, Structural)]
pub enum DecodeError {
    InsufficientData(usize),
    InvalidVexPrefix(usize),
    Unsupported,
    BadModRm(usize),
}

#[derive(Debug, Clone, Copy, PartialEq, Eq, Structural)]
pub enum OperandSize {
    Size8,
    Size16,
    Size32,
    Size64,
    Size128,
    Size256,
}

#[derive(Debug, Clone, Copy, PartialEq, Eq, Structural)]
pub enum OpcodeName {
    Add,
    Sub,
    Xor,
    And,
    Or,
    Mov,
    Cmp,
    Shl,
    Shr,
    Popcnt,
    Pclmulqdq,
    Pmovsxbw,
    Movdqa,
    Movdqu,
    VzeroUpper,
    Vaddps,
    Nop,
    Unknown,
}

#[derive(Debug, Clone, Copy, PartialEq, Eq, Structural)]
pub struct MemoryOperand {
    pub base: Option<u32>,
    pub index: Option<u32>,
    pub scale: u32,
    pub displacement: i64,
}

#[derive(Debug, Clone, Copy, PartialEq, Eq, Structural)]
pub enum Operand {
    Register(u32),
    Immediate(u64),
    Memory(MemoryOperand),
}

#[derive(Debug, Clone)]
pub struct DecodedInstruction {
    pub opcode: u32,
    pub name: OpcodeName,
    pub operand_size: OperandSize,
    pub operands: Vec<Operand>,
    pub is_avx: bool,
    pub is_sse4: bool,
    pub length: usize,
    pub reg_index: u32,
    pub rm_index: u32,
    pub memory: Option<MemoryOperand>,
}

/// Mathematical view of a decoded instruction.
pub struct DecodedView {
    pub opcode: u32,
    pub name: OpcodeName,
    pub operand_size: OperandSize,
    pub operands: Seq<Operand>,
    pub is_avx: bool,
    pub is_sse4: bool,
    pub length: int,
    pub reg_index: u32,
    pub rm_index: u32,
    pub memory: Option<MemoryOperand>,
}

impl View for DecodedInstruction {
    type V = DecodedView;

    open spec fn view(&self) -> DecodedView {
        DecodedView {
            opcode: self.opcode,
            name: self.name,
            operand_size: self.operand_size,
            operands: self.operands@,
            is_avx: self.is_avx,
            is_sse4: self.is_sse4,
            length: self.length as int,
            reg_index: self.reg_index,
            rm_index: self.rm_index,
            memory: self.memory,
        }
    }
}

pub open spec fn result_view(r: Result<DecodedInstruction, DecodeError>) -> Result<DecodedView, DecodeError> {
    match r {
        Ok(i) => Ok(i@),
        Err(e) => Err(e),
    }
}

// ---------------------------------------------------------------------------
// The grammar.
// ---------------------------------------------------------------------------

/// REX (0x40..=0x4F) and the mandatory prefixes 0x66 / 0xF2 / 0xF3 are
/// consumed, the last one of each kind winning.  Returns the position of the
/// first non-prefix byte (or the end of the buffer).
pub open spec fn scan_prefixes(data: Seq<u8>, pos: int, rex: u8, mandatory: u8) -> (int, u8, u8)
    decreases data.len() - pos,
{
    if pos < 0 || pos >= data.len() {
        (pos, rex, mandatory)
    } else {
        let b = data[pos];
        if 0x40 <= b <= 0x4f {
            scan_prefixes(data, pos + 1, b, mandatory)
        } else if b == 0x66 || b == 0xf2 || b == 0xf3 {
            scan_prefixes(data, pos + 1, rex, b)
        } else {
            (pos, rex, mandatory)
        }
    }
}

/// Two's-complement value of a byte.
pub open spec fn sign_extend8(b: u8) -> int {
    if b < 128 { b as int } else { b as int - 256 }
}

/// A byte sign-extended to 64 bits, as an unsigned word.
pub open spec fn sign_extend8_u64(b: u8) -> u64 {
    if b < 128 { b as u64 } else { (b as int + 0xffff_ffff_ffff_ff00) as u64 }
}

/// Little-endian value of four bytes, read as a signed 32-bit integer.
pub open spec fn le_i32(data: Seq<u8>, p: int) -> int {
    let v = data[p] as int + data[p + 1] as int * 0x100 + data[p + 2] as int * 0x1_0000
        + data[p + 3] as int * 0x100_0000;
    if v < 0x8000_0000 { v } else { v - 0x1_0000_0000 }
}

/// Little-endian value of four bytes.
pub open spec fn le_u32(data: Seq<u8>, p: int) -> int {
    data[p] as int + data[p + 1] as int * 0x100 + data[p + 2] as int * 0x1_0000 + data[p + 3] as int
        * 0x100_0000
}

/// Little-endian value of eight bytes.
pub open spec fn le_u64(data: Seq<u8>, p: int) -> int {
    le_u32(data, p) + le_u32(data, p + 4) * 0x1_0000_0000
}

/// ModRM / SIB / displacement: `(reg, rm, memory operand, position after them)`.
pub open spec fn modrm_spec(data: Seq<u8>, pos: int) -> Result<(u32, u32, Option<MemoryOperand>, int), DecodeError> {
    if pos < 0 || pos >= data.len() {
        Err(DecodeError::InsufficientData(pos as usize))
    } else {
        let modrm = data[pos];
        let mode = (modrm >> 6u8) & 3;
        let rm = (modrm & 7) as u32;
        let reg = ((modrm >> 3u8) & 7) as u32;
        if mode == 3 {
            Ok((reg, rm, None, pos + 1))
        } else {
            let after_sib = if rm == 4 { pos + 2 } else { pos + 1 };
            if rm == 4 && pos + 1 >= data.len() {
                Err(DecodeError::InsufficientData((pos + 1) as usize))
            } else {
                let sib = data[pos + 1];
                let index: Option<u32> = if rm == 4 && ((sib >> 3u8) & 7) != 4 {
                    Some(((sib >> 3u8) & 7) as u32)
                } else {
                    None
                };
                let scale: u32 = if rm == 4 { ((sib >> 6u8) + 1) as u32 } else { 1 };
                let sib_no_base = rm == 4 && mode == 0 && (sib & 7) == 5;
                if mode == 1 {
                    if after_sib >= data.len() {
                        Err(DecodeError::InsufficientData(after_sib as usize))
                    } else {
                        Ok((reg, rm, Some(MemoryOperand {
                            base: Some(rm),
                            index,
                            scale,
                            displacement: sign_extend8(data[after_sib]) as i64,
                        }), after_sib + 1))
                    }
                } else if mode == 2 {
                    if after_sib + 4 > data.len() {
                        Err(DecodeError::InsufficientData(after_sib as usize))
                    } else {
                        Ok((reg, rm, Some(MemoryOperand {
                            base: Some(rm),
                            index,
                            scale,
                            displacement: le_i32(data, after_sib) as i64,
                        }), after_sib + 4))
                    }
                } else if rm == 5 {
                    // mode 0, rm 5: RIP-relative / absolute disp32, no base.
                    if after_sib + 4 > data.len() {
                        Err(DecodeError::InsufficientData(after_sib as usize))
                    } else {
                        Ok((reg, rm, Some(MemoryOperand {
                            base: None,
                            index,
                            scale,
                            displacement: le_i32(data, after_sib) as i64,
                        }), after_sib + 4))
                    }
                } else {
                    Ok((reg, rm, Some(MemoryOperand {
                        base: if sib_no_base { None } else { Some(rm) },
                        index,
                        scale,
                        displacement: 0,
                    }), after_sib))
                }
            }
        }
    }
}

/// The operand named by ModRM.rm: the memory operand when there is one.
pub open spec fn rm_operand(rm: u32, mem: Option<MemoryOperand>) -> Operand {
    match mem {
        Some(m) => Operand::Memory(m),
        None => Operand::Register(rm),
    }
}

/// The reg/mem ALU forms: `op r/m, reg` and `op reg, r/m`.
pub open spec fn alu_name(opcode: u32) -> Option<OpcodeName> {
    if opcode == 0x01 || opcode == 0x03 {
        Some(OpcodeName::Add)
    } else if opcode == 0x29 || opcode == 0x2b {
        Some(OpcodeName::Sub)
    } else if opcode == 0x31 || opcode == 0x33 {
        Some(OpcodeName::Xor)
    } else if opcode == 0x21 || opcode == 0x23 {
        Some(OpcodeName::And)
    } else if opcode == 0x09 || opcode == 0x0b {
        Some(OpcodeName::Or)
    } else if opcode == 0x39 || opcode == 0x3b {
        Some(OpcodeName::Cmp)
    } else if opcode == 0x89 || opcode == 0x8b {
        Some(OpcodeName::Mov)
    } else {
        None
    }
}

/// The group-1 immediate forms 0x81 / 0x83 select their operation by ModRM.reg.
pub open spec fn group1_name(reg: u32) -> OpcodeName {
    if reg == 0 {
        OpcodeName::Add
    } else if reg == 5 {
        OpcodeName::Sub
    } else if reg == 1 {
        OpcodeName::Or
    } else if reg == 4 {
        OpcodeName::And
    } else if reg == 6 {
        OpcodeName::Xor
    } else if reg == 7 {
        OpcodeName::Cmp
    } else {
        OpcodeName::Unknown
    }
}

pub open spec fn shift_name(reg: u32) -> OpcodeName {
    if reg == 4 { OpcodeName::Shl } else { OpcodeName::Shr }
}

pub open spec fn width_size(rex_w: bool) -> OperandSize {
    if rex_w { OperandSize::Size64 } else { OperandSize::Size32 }
}

pub open spec fn view_of(
    opcode: u32,
    name: OpcodeName,
    operand_size: OperandSize,
    operands: Seq<Operand>,
    is_sse4: bool,
    length: int,
    reg: u32,
    rm: u32,
    memory: Option<MemoryOperand>,
) -> DecodedView {
    DecodedView {
        opcode,
        name,
        operand_size,
        operands,
        is_avx: false,
        is_sse4,
        length,
        reg_index: reg,
        rm_index: rm,
        memory,
    }
}

/// VEX operand size: VEX.L selects 256 bits.
pub open spec fn vex_size(byte1: u8) -> OperandSize {
    if (byte1 >> 2u8) & 1 == 1 { OperandSize::Size256 } else { OperandSize::Size128 }
}

/// VEX.vvvv is stored inverted.
pub open spec fn vex_vvvv(byte1: u8) -> u32 {
    (15 - ((byte1 >> 3u8) & 15)) as u32
}

pub open spec fn vex2_spec(data: Seq<u8>, offset: int) -> Result<DecodedView, DecodeError> {
    if data.len() - offset <= 2 {
        Err(DecodeError::InsufficientData(offset as usize))
    } else {
        let byte1 = data[offset + 1];
        let opcode = data[offset + 2] as u32;
        let vvvv = vex_vvvv(byte1);
        Ok(DecodedView {
            opcode,
            name: if opcode == 0x77 {
                OpcodeName::VzeroUpper
            } else if opcode == 0x58 {
                OpcodeName::Vaddps
            } else {
                OpcodeName::Unknown
            },
            operand_size: vex_size(byte1),
            operands: seq![Operand::Register(0), Operand::Register(vvvv)],
            is_avx: true,
            is_sse4: byte1 & 3 == 1,
            length: 3,
            reg_index: 0,
            rm_index: vvvv,
            memory: None,
        })
    }
}

pub open spec fn vex3_spec(data: Seq<u8>, offset: int) -> Result<DecodedView, DecodeError> {
    if data.len() - offset <= 3 {
        Err(DecodeError::InsufficientData(offset as usize))
    } else {
        let byte1 = data[offset + 1];
        let vvvv = vex_vvvv(byte1);
        Ok(DecodedView {
            opcode: data[offset + 3] as u32,
            name: OpcodeName::Unknown,
            operand_size: vex_size(byte1),
            operands: seq![Operand::Register(0), Operand::Register(vvvv)],
            is_avx: true,
            is_sse4: byte1 & 3 == 1,
            length: 4,
            reg_index: 0,
            rm_index: vvvv,
            memory: None,
        })
    }
}

/// Forms that follow the 0x0F escape byte; `pos` is the position of the
/// second opcode byte.
pub open spec fn escape_spec(data: Seq<u8>, offset: int, pos: int, rex_w: bool, mandatory: u8) -> Result<DecodedView, DecodeError> {
    if pos >= data.len() {
        Err(DecodeError::InsufficientData(pos as usize))
    } else {
        let second = data[pos] as u32;
        if second == 0xb8 {
            match modrm_spec(data, pos + 1) {
                Err(e) => Err(e),
                Ok((reg, rm, mem, next)) => Ok(view_of(0xb8, OpcodeName::Popcnt, width_size(rex_w),
                    seq![Operand::Register(reg), rm_operand(rm, mem)], true, next - offset, reg, rm, mem)),
            }
        } else if second == 0x6f || second == 0x7f {
            match modrm_spec(data, pos + 1) {
                Err(e) => Err(e),
                Ok((reg, rm, mem, next)) => Ok(view_of(second,
                    if mandatory == 0x66 { OpcodeName::Movdqa } else { OpcodeName::Movdqu },
                    OperandSize::Size128, seq![Operand::Register(reg), rm_operand(rm, mem)], false,
                    next - offset, reg, rm, mem)),
            }
        } else if second == 0x38 {
            if pos + 1 >= data.len() {
                Err(DecodeError::InsufficientData((pos + 1) as usize))
            } else if data[pos + 1] == 0x20 {
                match modrm_spec(data, pos + 2) {
                    Err(e) => Err(e),
                    Ok((reg, rm, mem, next)) => Ok(view_of(0x20, OpcodeName::Pmovsxbw,
                        OperandSize::Size128, seq![Operand::Register(reg), rm_operand(rm, mem)], true,
                        next - offset, reg, rm, mem)),
                }
            } else {
                Err(DecodeError::Unsupported)
            }
        } else if second == 0x3a {
            if pos + 1 >= data.len() {
                Err(DecodeError::InsufficientData((pos + 1) as usize))
            } else if data[pos + 1] == 0x44 {
                match modrm_spec(data, pos + 2) {
                    Err(e) => Err(e),
                    Ok((reg, rm, mem, next)) => {
                        // A missing imm8 reads as zero and is not counted.
                        let imm: u64 = if next < data.len() { data[next] as u64 } else { 0 };
                        let end = if next < data.len() { next + 1 } else { next };
                        Ok(view_of(0x44, OpcodeName::Pclmulqdq, OperandSize::Size128,
                            seq![Operand::Register(reg), rm_operand(rm, mem), Operand::Immediate(imm)],
                            true, end - offset, reg, rm, mem))
                    },
                }
            } else {
                Err(DecodeError::Unsupported)
            }
        } else {
            Err(DecodeError::Unsupported)
        }
    }
}

/// Legacy (non-VEX) forms; `pos` is the position of the opcode byte.
pub open spec fn legacy_spec(data: Seq<u8>, offset: int, pos: int, rex: u8, mandatory: u8) -> Result<DecodedView, DecodeError> {
    let opcode = data[pos] as u32;
    let rex_w = rex & 8 != 0;
    let p = pos + 1;
    if alu_name(opcode) is Some {
        match modrm_spec(data, p) {
            Err(e) => Err(e),
            Ok((reg, rm, mem, next)) => Ok(view_of(opcode, alu_name(opcode).unwrap(), width_size(rex_w),
                seq![rm_operand(rm, mem), Operand::Register(reg)], false, next - offset, reg, rm, mem)),
        }
    } else if opcode == 0x81 || opcode == 0x83 {
        match modrm_spec(data, p) {
            Err(e) => Err(e),
            Ok((reg, rm, mem, next)) => {
                let imm_len: int = if opcode == 0x83 { 1 } else if rex_w { 8 } else { 4 };
                if next + imm_len > data.len() {
                    Err(DecodeError::InsufficientData(next as usize))
                } else {
                    let imm: u64 = if opcode == 0x83 {
                        sign_extend8_u64(data[next])
                    } else if rex_w {
                        le_u64(data, next) as u64
                    } else {
                        le_u32(data, next) as u64
                    };
                    Ok(view_of(opcode, group1_name(reg), width_size(rex_w),
                        seq![rm_operand(rm, mem), Operand::Immediate(imm)], false,
                        next + imm_len - offset, reg, rm, mem))
                }
            },
        }
    } else if opcode == 0xd1 || opcode == 0xc1 || opcode == 0xd3 {
        match modrm_spec(data, p) {
            Err(e) => Err(e),
            Ok((reg, rm, mem, next)) => {
                if opcode == 0xc1 && next < data.len() {
                    Ok(view_of(opcode, shift_name(reg), OperandSize::Size32,
                        seq![rm_operand(rm, mem), Operand::Immediate((data[next] & 0x3f) as u64)],
                        false, next + 1 - offset, reg, rm, mem))
                } else {
                    // D1 shifts by one; D3 (count in CL) and a C1 whose imm8
                    // is missing carry a zero count.
                    let count: u64 = if opcode == 0xd1 { 1 } else { 0 };
                    Ok(view_of(opcode, shift_name(reg), OperandSize::Size32,
                        seq![rm_operand(rm, mem), Operand::Immediate(count)], false, next - offset,
                        reg, rm, mem))
                }
            },
        }
    } else if opcode == 0x0f {
        escape_spec(data, offset, p, rex_w, mandatory)
    } else if opcode == 0x90 {
        Ok(view_of(opcode, OpcodeName::Nop, OperandSize::Size8, seq![], false, p - offset, 0, 0, None))
    } else {
        Err(DecodeError::Unsupported)
    }
}

/// What `InstructionDecoder::decode(data, offset)` returns.
pub open spec fn decode_spec(data: Seq<u8>, offset: int) -> Result<DecodedView, DecodeError> {
    if offset >= data.len() {
        Err(DecodeError::InsufficientData(offset as usize))
    } else if data[offset] == 0xc5 {
        vex2_spec(data, offset)
    } else if data[offset] == 0xc6 {
        vex3_spec(data, offset)
    } else {
        let (pos, rex, mandatory) = scan_prefixes(data, offset, 0, 0);
        if pos >= data.len() {
            Err(DecodeError::InsufficientData(pos as usize))
        } else {
            legacy_spec(data, offset, pos, rex, mandatory)
        }
    }
}

/// Group-1 `0x83` forms carry a one-byte immediate, the instruction's last
/// byte, read as a signed byte: the immediate operand is that byte's
/// two's-complement value extended to 64 bits (0xF0 gives
/// 0xFFFF_FFFF_FFFF_FFF0, 0x7F gives 0x7F).
pub proof fn lemma_group1_imm8_sign_extended(data: Seq<u8>, offset: int)
    requires
        0 <= offset < data.len(),
        data[offset] != 0xc5 && data[offset] != 0xc6,
        scan_prefixes(data, offset, 0, 0).0 < data.len(),
        data[scan_prefixes(data, offset, 0, 0).0] == 0x83,
    ensures
        decode_spec(data, offset) matches Ok(v) ==> {
            &&& v.operands.len() == 2
            &&& 0 < v.length && offset + v.length <= data.len()
            &&& v.operands[1] matches Operand::Immediate(imm) && imm as i64 == (data[offset + v.length - 1] as i8) as i64
        },
{
    lemma_scan_prefixes_bounds(data, offset, 0, 0);
    let (pos, rex, mandatory) = scan_prefixes(data, offset, 0, 0);
    if let Ok((reg, rm, mem, next)) = modrm_spec(data, pos + 1) {
        if next + 1 <= data.len() {
            let b = data[next];
            let y = sign_extend8_u64(b);
            assert(y == if b < 128 { b as u64 } else { ((b as u64) + 0xffff_ffff_ffff_ff00u64) as u64 });
            assert(y as i64 == (b as i8) as i64) by (bit_vector)
                requires
                    y == if b < 128 { b as u64 } else { ((b as u64) + 0xffff_ffff_ffff_ff00u64) as u64 },
            ;
        }
    }
}

/// Whether `scan_prefixes` only moves forward.
pub proof fn lemma_scan_prefixes_bounds(data: Seq<u8>, pos: int, rex: u8, mandatory: u8)
    requires
        0 <= pos <= data.len(),
    ensures
        pos <= scan_prefixes(data, pos, rex, mandatory).0 <= data.len(),
    decreases data.len() - pos,
{
    if pos < data.len() {
        let b = data[pos];
        if 0x40 <= b <= 0x4f {
            lemma_scan_prefixes_bounds(data, pos + 1, b, mandatory);
        } else if b == 0x66 || b == 0xf2 || b == 0xf3 {
            lemma_scan_prefixes_bounds(data, pos + 1, rex, b);
        }
    }
}

// ---------------------------------------------------------------------------
// The decoder.
// ---------------------------------------------------------------------------

fn sign_extend_byte(b: u8) -> (v: i64)
    ensures
        v == sign_extend8(b),
{
    if b < 128 { b as i64 } else { b as i64 - 256 }
}

fn read_le_u32(data: &[u8], p: usize) -> (v: u64)
    requires
        p + 4 <= data.len(),
    ensures
        v == le_u32(data@, p as int),
{
    data[p] as u64 + data[p + 1] as u64 * 0x100 + data[p + 2] as u64 * 0x1_0000 + data[p + 3] as u64
        * 0x100_0000
}

fn read_le_i32(data: &[u8], p: usize) -> (v: i64)
    requires
        p + 4 <= data.len(),
    ensures
        v == le_i32(data@, p as int),
{
    let u = read_le_u32(data, p);
    if u < 0x8000_0000 { u as i64 } else { u as i64 - 0x1_0000_0000 }
}

fn read_le_u64(data: &[u8], p: usize) -> (v: u64)
    requires
        p + 8 <= data.len(),
    ensures
        v == le_u64(data@, p as int),
{
    let lo = read_le_u32(data, p);
    let hi = read_le_u32(data, p + 4);
    lo + hi * 0x1_0000_0000
}

pub struct InstructionDecoder;

impl InstructionDecoder {
    pub fn new() -> (d: Self) {
        InstructionDecoder
    }

    fn op_from_rm(rm: u32, mem: Option<MemoryOperand>) -> (op: Operand)
        ensures
            op == rm_operand(rm, mem),
    {
        match mem {
            Some(m) => Operand::Memory(m),
            None => Operand::Register(rm),
        }
    }

    /// Returns (reg_index, rm_index, memory, position after full modrm+sib+disp).
    fn read_modrm(data: &[u8], pos: usize) -> (r: Result<(u32, u32, Option<MemoryOperand>, usize), DecodeError>)
        ensures
            match (r, modrm_spec(data@, pos as int)) {
                (Ok((a, b, c, d)), Ok((sa, sb, sc, sd))) => a == sa && b == sb && c == sc && d == sd,
                (Err(e), Err(se)) => e == se,
                _ => false,
            },
            r matches Ok((_, _, _, next)) ==> pos < next <= data@.len(),
    {
        if pos >= data.len() {
            return Err(DecodeError::InsufficientData(pos));
        }
        let modrm = data[pos];
        let mode = (modrm >> 6u8) & 3;
        let rm = (modrm & 7) as u32;
        let reg = ((modrm >> 3u8) & 7) as u32;
        let mut newpos = pos + 1;
        if mode == 3 {
            return Ok((reg, rm, None, newpos));
        }
        let mut base_none = false;
        let mut index: Option<u32> = None;
        let mut scale: u32 = 1;
        let mut displacement: i64 = 0;
        proof {
            assert(modrm & 7 <= 7) by {
                crate::bits::lemma_u8_bits(modrm);
            }
            assert((modrm >> 6u8) & 3 <= 3) by {
                crate::bits::lemma_u8_bits(modrm);
            }
        }
        if rm == 4 {
            if newpos >= data.len() {
                return Err(DecodeError::InsufficientData(newpos));
            }
            let sib = data[newpos];
            newpos = newpos + 1;
            proof {
                assert((sib >> 6u8) <= 3) by {
                    crate::bits::lemma_u8_bits(sib);
                }
            }
            scale = ((sib >> 6u8) + 1) as u32;
            let idx = ((sib >> 3u8) & 7) as u32;
            let bs = (sib & 7) as u32;
            if idx != 4 {
                index = Some(idx);
            }
            if mode == 0 && bs == 5 {
                base_none = true;
            }
        }
        if mode == 1 {
            if newpos >= data.len() {
                return Err(DecodeError::InsufficientData(newpos));
            }
            displacement = sign_extend_byte(data[newpos]);
            newpos = newpos + 1;
        } else if mode == 2 {
            if data.len() - newpos < 4 {
                return Err(DecodeError::InsufficientData(newpos));
            }
            displacement = read_le_i32(data, newpos);
            newpos = newpos + 4;
        } else if rm == 5 {
            if data.len() - newpos < 4 {
                return Err(DecodeError::InsufficientData(newpos));
            }
            displacement = read_le_i32(data, newpos);
            newpos = newpos + 4;
            base_none = true;
        }
        let memop = MemoryOperand {
            base: if base_none { None } else { Some(rm) },
            index,
            scale,
            displacement,
        };
        Ok((reg, rm, Some(memop), newpos))
    }

    fn instruction(
        opcode: u32,
        name: OpcodeName,
        operand_size: OperandSize,
        operands: Vec<Operand>,
        is_sse4: bool,
        length: usize,
        reg: u32,
        rm: u32,
        memory: Option<MemoryOperand>,
    ) -> (i: DecodedInstruction)
        ensures
            i@ == view_of(opcode, name, operand_size, operands@, is_sse4, length as int, reg, rm, memory),
    {
        DecodedInstruction {
            opcode,
            name,
            operand_size,
            operands,
            is_avx: false,
            is_sse4,
            length,
            reg_index: reg,
            rm_index: rm,
            memory,
        }
    }

    fn decode_vex2(data: &[u8], offset: usize) -> (r: Result<DecodedInstruction, DecodeError>)
        requires
            offset < data@.len(),
        ensures
            result_view(r) == vex2_spec(data@, offset as int),
    {
        if data.len() - offset <= 2 {
            return Err(DecodeError::InsufficientData(offset));
        }
        let byte1 = data[offset + 1];
        let byte2 = data[offset + 2];
        let raw = ((byte1 >> 3u8) & 0xf) as u32;
        let l = (byte1 >> 2u8) & 1;
        let pp = byte1 & 3;
        let operand_size = if l == 1 { OperandSize::Size256 } else { OperandSize::Size128 };
        proof {
            assert((byte1 >> 3u8) & 0xf <= 15) by {
                crate::bits::lemma_u8_bits(byte1);
            }
            assert(raw <= 15 ==> (!raw) & 0xf == 15 - raw) by {
                crate::bits::lemma_u32_bits(raw);
            }
        }
        let vvvv = (!raw) & 0xf;
        let reg = 0u32;
        let opcode = byte2 as u32;
        let name = if opcode == 0x77 {
            OpcodeName::VzeroUpper
        } else if opcode == 0x58 {
            OpcodeName::Vaddps
        } else {
            OpcodeName::Unknown
        };
        let operands = vec![Operand::Register(reg), Operand::Register(vvvv)];
        Ok(DecodedInstruction {
            opcode,
            name,
            operand_size,
            operands,
            is_avx: true,
            is_sse4: pp == 1,
            length: 3,
            reg_index: reg,
            rm_index: vvvv,
            memory: None,
        })
    }

    fn decode_vex3(data: &[u8], offset: usize) -> (r: Result<DecodedInstruction, DecodeError>)
        requires
            offset < data@.len(),
        ensures
            result_view(r) == vex3_spec(data@, offset as int),
    {
        if data.len() - offset <= 3 {
            return Err(DecodeError::InsufficientData(offset));
        }
        let byte1 = data[offset + 1];
        let byte3 = data[offset + 3];
        let raw = ((byte1 >> 3u8) & 0xf) as u32;
        let l = (byte1 >> 2u8) & 1;
        let pp = byte1 & 3;
        proof {
            assert((byte1 >> 3u8) & 0xf <= 15) by {
                crate::bits::lemma_u8_bits(byte1);
            }
            assert(raw <= 15 ==> (!raw) & 0xf == 15 - raw) by {
                crate::bits::lemma_u32_bits(raw);
            }
        }
        let vvvv = (!raw) & 0xf;
        let operand_size = if l == 1 { OperandSize::Size256 } else { OperandSize::Size128 };
        Ok(DecodedInstruction {
            opcode: byte3 as u32,
            name: OpcodeName::Unknown,
            operand_size,
            operands: vec![Operand::Register(0), Operand::Register(vvvv)],
            is_avx: true,
            is_sse4: pp == 1,
            length: 4,
            reg_index: 0,
            rm_index: vvvv,
            memory: None,
        })
    }

    /// Forms after the 0x0F escape; `pos` indexes the second opcode byte.
    fn decode_escape(data: &[u8], offset: usize, pos: usize, rex_w: bool, mandatory: u8) -> (r: Result<DecodedInstruction, DecodeError>)
        requires
            offset < pos <= data@.len(),
        ensures
            result_view(r) == escape_spec(data@, offset as int, pos as int, rex_w, mandatory),
    {
        if pos >= data.len() {
            return Err(DecodeError::InsufficientData(pos));
        }
        let second = data[pos] as u32;
        let pos = pos + 1;
        if second == 0xb8 {
            let (reg, rm, mem, newpos) = match Self::read_modrm(data, pos) {
                Ok(v) => v,
                Err(e) => return Err(e),
            };
            let size = if rex_w { OperandSize::Size64 } else { OperandSize::Size32 };
            let src = Self::op_from_rm(rm, mem);
            let operands = vec![Operand::Register(reg), src];
            return Ok(Self::instruction(0xb8, OpcodeName::Popcnt, size, operands, true, newpos - offset, reg, rm, mem));
        }
        if second == 0x6f || second == 0x7f {
            let (reg, rm, mem, newpos) = match Self::read_modrm(data, pos) {
                Ok(v) => v,
                Err(e) => return Err(e),
            };
            // 66 0F 6F = MOVDQA, F3 0F 6F = MOVDQU
            let name = if mandatory == 0x66 { OpcodeName::Movdqa } else { OpcodeName::Movdqu };
            let src = Self::op_from_rm(rm, mem);
            let operands = vec![Operand::Register(reg), src];
            return Ok(Self::instruction(second, name, OperandSize::Size128, operands, false, newpos - offset, reg, rm, mem));
        }
        if second == 0x38 {
            if pos >= data.len() {
                return Err(DecodeError::InsufficientData(pos));
            }
            let third = data[pos] as u32;
            let pos = pos + 1;
            if third == 0x20 {
                let (reg, rm, mem, newpos) = match Self::read_modrm(data, pos) {
                    Ok(v) => v,
                    Err(e) => return Err(e),
                };
                let src = Self::op_from_rm(rm, mem);
                let operands = vec![Operand::Register(reg), src];
                return Ok(Self::instruction(third, OpcodeName::Pmovsxbw, OperandSize::Size128, operands, true, newpos - offset, reg, rm, mem));
            }
            return Err(DecodeError::Unsupported);
        }
        if second == 0x3a {
            if pos >= data.len() {
                return Err(DecodeError::InsufficientData(pos));
            }
            let third = data[pos] as u32;
            let pos = pos + 1;
            if third == 0x44 {
                let (reg, rm, mem, newpos) = match Self::read_modrm(data, pos) {
                    Ok(v) => v,
                    Err(e) => return Err(e),
                };
                let mut ip = newpos;
                let imm: u64 = if ip < data.len() {
                    let v = data[ip] as u64;
                    ip = ip + 1;
                    v
                } else {
                    0
                };
                let src = Self::op_from_rm(rm, mem);
                let operands = vec![Operand::Register(reg), src, Operand::Immediate(imm)];
                return Ok(Self::instruction(third, OpcodeName::Pclmulqdq, OperandSize::Size128, operands, true, ip - offset, reg, rm, mem));
            }
            return Err(DecodeError::Unsupported);
        }
        Err(DecodeError::Unsupported)
    }

    /// Decode the instruction that starts at `data[offset]`.
    pub fn decode(data: &[u8], offset: usize) -> (r: Result<DecodedInstruction, DecodeError>)
        ensures
            result_view(r) == decode_spec(data@, offset as int),
            r matches Ok(i) ==> 0 < i.length && offset + i.length <= data@.len(),
    {
        if offset >= data.len() {
            return Err(DecodeError::InsufficientData(offset));
        }
        let first = data[offset];
        if first == 0xc5 {
            return Self::decode_vex2(data, offset);
        }
        if first == 0xc6 {
            return Self::decode_vex3(data, offset);
        }
        // Parse optional prefixes.
        let mut pos = offset;
        let mut rex = 0u8;
        let mut mandatory = 0u8;  // 0x66, 0xF2, 0xF3
        loop
            invariant
                offset <= pos <= data@.len(),
                offset < data@.len(),
                scan_prefixes(data@, pos as int, rex, mandatory) == scan_prefixes(data@, offset as int, 0, 0),
            ensures
                offset <= pos <= data@.len(),
                scan_prefixes(data@, offset as int, 0, 0) == (pos as int, rex, mandatory),
            decreases data@.len() - pos,
        {
            if pos >= data.len() {
                break;
            }
            let b = data[pos];
            if 0x40 <= b && b <= 0x4f {
                rex = b;
                pos = pos + 1;
            } else if b == 0x66 || b == 0xf2 || b == 0xf3 {
                mandatory = b;
                pos = pos + 1;
            } else {
                break;
            }
        }
        if pos >= data.len() {
            return Err(DecodeError::InsufficientData(pos));
        }
        let opcode = data[pos] as u32;
        let pos = pos + 1;
        let rex_w = (rex & 0x08) != 0;
        proof {
            assert(data@[pos - 1] as u32 == opcode);
        }

        // reg/mem ALU forms.  Encoding /r: dst = modrm.rm, src = modrm.reg.
        let table = if opcode == 0x01 || opcode == 0x03 {
            Some(OpcodeName::Add)
        } else if opcode == 0x29 || opcode == 0x2b {
            Some(OpcodeName::Sub)
        } else if opcode == 0x31 || opcode == 0x33 {
            Some(OpcodeName::Xor)
        } else if opcode == 0x21 || opcode == 0x23 {
            Some(OpcodeName::And)
        } else if opcode == 0x09 || opcode == 0x0b {
            Some(OpcodeName::Or)
        } else if opcode == 0x39 || opcode == 0x3b {
            Some(OpcodeName::Cmp)
        } else if opcode == 0x89 || opcode == 0x8b {
            Some(OpcodeName::Mov)
        } else {
            None
        };
        if let Some(name) = table {
            let (reg, rm, mem, newpos) = match Self::read_modrm(data, pos) {
                Ok(v) => v,
                Err(e) => return Err(e),
            };
            let size = if rex_w { OperandSize::Size64 } else { OperandSize::Size32 };
            let dst = Self::op_from_rm(rm, mem);
            let operands = vec![dst, Operand::Register(reg)];
            return Ok(Self::instruction(opcode, name, size, operands, false, newpos - offset, reg, rm, mem));
        }

        // Immediate ALU forms 0x81 (imm32/64) and 0x83 (imm8 sign-extended).
        if opcode == 0x81 || opcode == 0x83 {
            let (reg, rm, mem, newpos) = match Self::read_modrm(data, pos) {
                Ok(v) => v,
                Err(e) => return Err(e),
            };
            let mut ip = newpos;
            let imm: u64 = if opcode == 0x83 {
                if ip >= data.len() {
                    return Err(DecodeError::InsufficientData(ip));
                }
                let b = data[ip];
                ip = ip + 1;
                if b < 128 { b as u64 } else { b as u64 + 0xffff_ffff_ffff_ff00 }
            } else if rex_w {
                if ip > data.len() || data.len() - ip < 8 {
                    return Err(DecodeError::InsufficientData(ip));
                }
                let v = read_le_u64(data, ip);
                ip = ip + 8;
                v
            } else {
                if ip > data.len() || data.len() - ip < 4 {
                    return Err(DecodeError::InsufficientData(ip));
                }
                let v = read_le_u32(data, ip);
                ip = ip + 4;
                v
            };
            let name = if reg == 0 {
                OpcodeName::Add
            } else if reg == 5 {
                OpcodeName::Sub
            } else if reg == 1 {
                OpcodeName::Or
            } else if reg == 4 {
                OpcodeName::And
            } else if reg == 6 {
                OpcodeName::Xor
            } else if reg == 7 {
                OpcodeName::Cmp
            } else {
                OpcodeName::Unknown
            };
            let size = if rex_w { OperandSize::Size64 } else { OperandSize::Size32 };
            let dst = Self::op_from_rm(rm, mem);
            let operands = vec![dst, Operand::Immediate(imm)];
            return Ok(Self::instruction(opcode, name, size, operands, false, ip - offset, reg, rm, mem));
        }

        // Shifts 0xD1 (count 1), 0xD3 (count in CL) and 0xC1 (imm8).
        if opcode == 0xd1 || opcode == 0xc1 || opcode == 0xd3 {
            let (reg, rm, mem, newpos) = match Self::read_modrm(data, pos) {
                Ok(v) => v,
                Err(e) => return Err(e),
            };
            let name = if reg == 4 { OpcodeName::Shl } else { OpcodeName::Shr };
            if opcode == 0xc1 && newpos < data.len() {
                let v = (data[newpos] & 0x3f) as u64;
                let operands = vec![Self::op_from_rm(rm, mem), Operand::Immediate(v)];
                return Ok(Self::instruction(opcode, name, OperandSize::Size32, operands, false, newpos + 1 - offset, reg, rm, mem));
            }
            let count: u64 = if opcode == 0xd1 { 1 } else { 0 };
            let operands = vec![Self::op_from_rm(rm, mem), Operand::Immediate(count)];
            return Ok(Self::instruction(opcode, name, OperandSize::Size32, operands, false, newpos - offset, reg, rm, mem));
        }

        if opcode == 0x0f {
            return Self::decode_escape(data, offset, pos, rex_w, mandatory);
        }

        if opcode == 0x90 {
            return Ok(Self::instruction(opcode, OpcodeName::Nop, OperandSize::Size8, Vec::new(), false, pos - offset, 0, 0, None));
        }
        Err(DecodeError::Unsupported)
    }
}

} // verus!
