//! The table of the 16-bit compact instructions.
use vstd::prelude::*;
use crate::dsl::DslError;
use crate::isa::{
    lines_view, register_dict, register_show_dict, table_of, ISA, ISARV32C,
};
use crate::show::Show;
use crate::width::CompactType;

verus! {

pub const C_ADDI4SPN: &'static str = "\"c.addi4spn rd, imm\", 000, imm[5:4|9:6|2|3], rd[2:0], 00";
pub const C_LW: &'static str = "\"c.lw rd, rs1, imm\", 010, imm[5:3], rs1[2:0], imm[2|6], rd[2:0], 00";
pub const C_SW: &'static str = "\"c.sw rs1, imm (rs2)\", 110, imm[5:3], rs1[2:0], imm[2|6], rs2[2:0], 00";
pub const C_NOP: &'static str = "\"c.nop\", 000, imm[5], 00000, imm[4:0], 01";
pub const C_ADDI: &'static str = "\"c.addi rd, imm\", 000, imm[5], rd[4:0], imm[4:0], 01";
pub const C_JAL: &'static str = "\"c.jal imm\", 001, imm[11|4|9:8|10|6|7|3:1|5], 01";
pub const C_LI: &'static str = "\"c.li rd, imm\", 010, imm[5], rd[4:0], imm[4:0], 01";
pub const C_ADDI16SP: &'static str = "\"c.addi16sp imm\", 011, imm[9], 00010, imm[4|6|8:7|5], 01";
pub const C_LUI: &'static str = "\"c.lui rd, imm\", 011, imm[17], rd[4:0], imm[16:12], 01";
pub const C_SRLI: &'static str = "\"c.srli rd, imm\", 100100, rd[2:0], imm[4:0], 01";
pub const C_SRAI: &'static str = "\"c.srai rd, imm\", 100101, rd[2:0], imm[4:0], 01";
pub const C_ANDI: &'static str = "\"c.andi rd, imm\", 100, imm[5], 10, rd[2:0], imm[4:0], 01";
pub const C_SUB: &'static str = "\"c.sub rd, rs2\", 100011, rd[2:0], 00, rs2[2:0], 01";
pub const C_XOR: &'static str = "\"c.xor rd, rs2\", 100011, rd[2:0], 01, rs2[2:0], 01";
pub const C_OR: &'static str = "\"c.or rd, rs2\", 100011, rd[2:0], 10, rs2[2:0], 01";
pub const C_AND: &'static str = "\"c.and rd, rs2\", 100011, rd[2:0], 11, rs2[2:0], 01";
pub const C_J: &'static str = "\"c.j imm\", 101, imm[11|4|9:8|10|6|7|3:1|5], 01";
pub const C_BEQZ: &'static str = "\"c.beqz rs1, imm\", 110, imm[8|4:3], rs1[2:0], imm[7:6|2:1|5], 01";
pub const C_BNEZ: &'static str = "\"c.bnez rs1, imm\", 111, imm[8|4:3], rs1[2:0], imm[7:6|2:1|5], 01";
pub const C_SLLI: &'static str = "\"c.slli rd, imm\", 000, imm[5], rd[4:0], imm[4:0], 10";
pub const C_LWSP: &'static str = "\"c.lwsp rd, imm\", 010, imm[5], rd[4:0], imm[4:2|7:6], 10";
pub const C_JR: &'static str = "\"c.jr rs1\", 1000, rs1[4:0], 0000010";
pub const C_MV: &'static str = "\"c.mv rd, rs2\", 1000, rd[4:0], rs2[4:0], 10";
pub const C_EBREAK: &'static str = "\"c.ebreak\", 1001000000000010";
pub const C_JALR: &'static str = "\"c.jalr rs1\", 1001, rs1[4:0], 0000010";
pub const C_ADD: &'static str = "\"c.add rd, rs2\", 1001, rd[4:0], rs2[4:0], 10";
pub const C_SWSP: &'static str = "\"c.swsp rs2, imm\", 110, imm[5:2|7:6], rs2[4:0], 10";
pub const ILLEGAL: &'static str = "\"<illegal>\", 0000000000000000";

/// Number of entries of the table.
pub const ENTRIES: usize = 28;

/// The text of entry `i`; the last entry stands for every index behind it.
pub open spec fn line_at(i: usize) -> Seq<char> {
    match i {
        0 => C_ADDI4SPN@,
        1 => C_LW@,
        2 => C_SW@,
        3 => C_NOP@,
        4 => C_ADDI@,
        5 => C_JAL@,
        6 => C_LI@,
        7 => C_ADDI16SP@,
        8 => C_LUI@,
        9 => C_SRLI@,
        10 => C_SRAI@,
        11 => C_ANDI@,
        12 => C_SUB@,
        13 => C_XOR@,
        14 => C_OR@,
        15 => C_AND@,
        16 => C_J@,
        17 => C_BEQZ@,
        18 => C_BNEZ@,
        19 => C_SLLI@,
        20 => C_LWSP@,
        21 => C_JR@,
        22 => C_MV@,
        23 => C_EBREAK@,
        24 => C_JALR@,
        25 => C_ADD@,
        26 => C_SWSP@,
        _ => ILLEGAL@,
    }
}

/// The entries of the table, in order of priority.
pub open spec fn rv32c_lines() -> Seq<Seq<char>> {
    Seq::new(ENTRIES as nat, |i: int| line_at(i as usize))
}

/// The text of entry `i`.
fn line(i: usize) -> (r: &'static str)
    ensures
        r@ == line_at(i),
{
    match i {
        0 => C_ADDI4SPN,
        1 => C_LW,
        2 => C_SW,
        3 => C_NOP,
        4 => C_ADDI,
        5 => C_JAL,
        6 => C_LI,
        7 => C_ADDI16SP,
        8 => C_LUI,
        9 => C_SRLI,
        10 => C_SRAI,
        11 => C_ANDI,
        12 => C_SUB,
        13 => C_XOR,
        14 => C_OR,
        15 => C_AND,
        16 => C_J,
        17 => C_BEQZ,
        18 => C_BNEZ,
        19 => C_SLLI,
        20 => C_LWSP,
        21 => C_JR,
        22 => C_MV,
        23 => C_EBREAK,
        24 => C_JALR,
        25 => C_ADD,
        26 => C_SWSP,
        _ => ILLEGAL,
    }
}

/// The entries of the table, in order of priority.
fn table_lines() -> (lines: Vec<&'static str>)
    ensures
        lines_view(lines@) == rv32c_lines(),
{
    let mut lines: Vec<&'static str> = Vec::new();
    let mut i: usize = 0;
    while i < ENTRIES
        invariant
            i <= ENTRIES,
            lines@.len() == i,
            forall|k: int| 0 <= k < i ==> (#[trigger] lines@[k])@ == line_at(k as usize),
        decreases ENTRIES - i,
    {
        lines.push(line(i));
        i = i + 1;
    }
    proof {
        assert(lines_view(lines@) =~= rv32c_lines());
    }
    lines
}

impl ISA<CompactType, Show> {
    /// Builds the table of the compact instructions, with registers shown by index.
    pub fn new() -> (r: Result<ISARV32C, (usize, DslError)>)
        ensures
            table_of(r, rv32c_lines(), register_dict()),
    {
        let lines = table_lines();
        ISA::from_lines(&lines, register_show_dict())
    }
}

} // verus!
