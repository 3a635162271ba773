//! The compact instructions by operation.
use vstd::prelude::*;
use crate::compact::Register3;
use crate::fixed::Register;

verus! {

/// A compact instruction with its operands. Immediates hold 5 bits, those of
/// `SWSP` 6, those of the jumps 11, where the type has more.
#[allow(inconsistent_fields)]
#[derive(PartialEq, Eq, Structural, Debug, Clone, Copy)]
pub enum InstructionC {
    ADDI4SPN { imm: u8, rd: Register3 },
    LW { imm: u8, rs1: Register3, rd: Register3 },
    SW { imm: u8, rs1: Register3, rs2: Register3 },
    NOP,
    ADDI { imm: u8, rs1rd: Register },
    JAL { imm: u16 },
    LI { imm: u8, rd: Register },
    ADDI16SP { imm: u8 },
    LUI { imm: u8, rd: Register },
    SRLI { imm: u8, rs1rd: Register3 },
    SRAI { imm: u8, rs1rd: Register3 },
    ANDI { imm: u8, rs1rd: Register3 },
    SUB { rs1rd: Register3, rs2: Register3 },
    XOR { rs1rd: Register3, rs2: Register3 },
    OR { rs1rd: Register3, rs2: Register3 },
    AND { rs1rd: Register3, rs2: Register3 },
    J { imm: u16 },
    BEQZ { imm: u8, rs1: Register3 },
    BNEZ { imm: u8, rs1: Register3 },
    SLLI { imm: u8, rs1rd: Register },
    LWSP { imm: u8, rd: Register },
    JR { rs1: Register },
    MV { rd: Register, rs2: Register },
    EBREAK,
    JALR { rs1: Register },
    ADD { rs1rd: Register, rs2: Register },
    SWSP { imm: u8, rs2: Register },
}

impl InstructionC {
    /// True when every operand has the bits of its kind.
    pub open spec fn wf(&self) -> bool {
        match self {
            InstructionC::ADDI4SPN { imm, rd } => rd.wf(),
            InstructionC::LW { imm, rs1, rd } => *imm < 32 && rs1.wf() && rd.wf(),
            InstructionC::SW { imm, rs1, rs2 } => *imm < 32 && rs1.wf() && rs2.wf(),
            InstructionC::NOP => true,
            InstructionC::ADDI { imm, rs1rd } => *imm < 32 && rs1rd.wf(),
            InstructionC::JAL { imm } => *imm < 2048,
            InstructionC::LI { imm, rd } => *imm < 32 && rd.wf(),
            InstructionC::ADDI16SP { imm } => *imm < 32,
            InstructionC::LUI { imm, rd } => *imm < 32 && rd.wf(),
            InstructionC::SRLI { imm, rs1rd } => *imm < 32 && rs1rd.wf(),
            InstructionC::SRAI { imm, rs1rd } => *imm < 32 && rs1rd.wf(),
            InstructionC::ANDI { imm, rs1rd } => *imm < 32 && rs1rd.wf(),
            InstructionC::SUB { rs1rd, rs2 } => rs1rd.wf() && rs2.wf(),
            InstructionC::XOR { rs1rd, rs2 } => rs1rd.wf() && rs2.wf(),
            InstructionC::OR { rs1rd, rs2 } => rs1rd.wf() && rs2.wf(),
            InstructionC::AND { rs1rd, rs2 } => rs1rd.wf() && rs2.wf(),
            InstructionC::J { imm } => *imm < 2048,
            InstructionC::BEQZ { imm, rs1 } => rs1.wf(),
            InstructionC::BNEZ { imm, rs1 } => rs1.wf(),
            InstructionC::SLLI { imm, rs1rd } => *imm < 32 && rs1rd.wf(),
            InstructionC::LWSP { imm, rd } => *imm < 32 && rd.wf(),
            InstructionC::JR { rs1 } => rs1.wf(),
            InstructionC::MV { rd, rs2 } => rd.wf() && rs2.wf(),
            InstructionC::EBREAK => true,
            InstructionC::JALR { rs1 } => rs1.wf(),
            InstructionC::ADD { rs1rd, rs2 } => rs1rd.wf() && rs2.wf(),
            InstructionC::SWSP { imm, rs2 } => *imm < 64 && rs2.wf(),
        }
    }
}

} // verus!
