//! Classification of host traps raised by instructions the CPU lacks.
use vstd::prelude::*;
use crate::decoder::{decode_spec, DecodedInstruction, InstructionDecoder};

verus! {

broadcast use vstd::string::group_string_axioms;

#[derive(Debug, Clone, PartialEq, Eq)]
pub enum TrapError {
    Fatal(String),
    UnsupportedTrap,
}

#[derive(Debug, Clone, Copy, PartialEq, Eq, Structural)]
pub enum TrapType {
    InvalidOpcode,
    GeneralProtectionFault,
}

#[derive(Debug)]
pub enum TrapAction {
    Emulate(DecodedInstruction),
    Passthrough,
    Fatal(String),
}

/// Whether the action is `Fatal` with exactly the message `msg`.
pub open spec fn is_fatal_with(a: TrapAction, msg: Seq<char>) -> bool {
    a matches TrapAction::Fatal(s) && s@ == msg
}

pub struct TrapHandler;

impl TrapHandler {
    pub fn new() -> (h: Self) {
        TrapHandler
    }

    /// What to do about a trap.  A general-protection fault is fatal; an
    /// invalid-opcode trap on a VEX-prefixed (0xC5 / 0xC6) instruction is
    /// emulated when it decodes, any other invalid opcode passes through.
    pub fn handle_trap(trap_type: TrapType, inst_bytes: &[u8]) -> (r: Result<TrapAction, TrapError>)
        ensures
            r is Ok,
            trap_type == TrapType::GeneralProtectionFault ==> is_fatal_with(r->Ok_0, "GP fault not recoverable"@),
            trap_type == TrapType::InvalidOpcode ==> Self::invalid_opcode_action(inst_bytes@, r->Ok_0),
    {
        match trap_type {
            TrapType::InvalidOpcode => Self::handle_invalid_opcode(inst_bytes),
            TrapType::GeneralProtectionFault => Ok(TrapAction::Fatal("GP fault not recoverable".to_string())),
        }
    }

    /// The response to an invalid-opcode trap on `bytes`.
    pub open spec fn invalid_opcode_action(bytes: Seq<u8>, a: TrapAction) -> bool {
        if bytes.len() == 0 {
            is_fatal_with(a, "empty instruction bytes"@)
        } else if bytes[0] == 0xc5 || bytes[0] == 0xc6 {
            match decode_spec(bytes, 0) {
                Ok(v) => a matches TrapAction::Emulate(i) && i@ == v,
                Err(_) => is_fatal_with(a, "failed to decode VEX instruction"@),
            }
        } else {
            a is Passthrough
        }
    }

    fn handle_invalid_opcode(inst_bytes: &[u8]) -> (r: Result<TrapAction, TrapError>)
        ensures
            r is Ok,
            Self::invalid_opcode_action(inst_bytes@, r->Ok_0),
    {
        if inst_bytes.len() == 0 {
            return Ok(TrapAction::Fatal("empty instruction bytes".to_string()));
        }
        let is_vex = inst_bytes[0] == 0xc5 || inst_bytes[0] == 0xc6;
        if is_vex {
            match InstructionDecoder::decode(inst_bytes, 0) {
                Ok(inst) => Ok(TrapAction::Emulate(inst)),
                Err(_) => Ok(TrapAction::Fatal("failed to decode VEX instruction".to_string())),
            }
        } else {
            Ok(TrapAction::Passthrough)
        }
    }
}

} // verus!
