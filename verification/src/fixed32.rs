//! Decoded 32-bit instructions with the three kinds of the I format told
//! apart: an immediate, a constant, or a `funct7` with a short immediate.
use vstd::prelude::*;
use vstd::string::StringExecFns;
use crate::fixed::{Func3, Func7, Opcode, Register};
use crate::show::{decimal_text, hex_text_padded, show_decimal, show_hex_padded};

verus! {

/// The formats of 32-bit instructions, with the kinds of the I format told apart.
#[derive(PartialEq, Eq, Structural, Debug, Clone, Copy)]
pub enum Instruction32Fmt {
    R,
    I,
    IC,
    IF,
    S,
    SB,
    U,
    UJ,
}

/// A decoded 32-bit instruction, by format.
#[allow(inconsistent_fields)]
#[derive(PartialEq, Eq, Structural, Clone, Copy)]
pub enum Instruction32 {
    R { func7: Func7, rs2: Register, rs1: Register, func3: Func3, rd: Register, opcode: Opcode },
    I { imm: u16, rs1: Register, func3: Func3, rd: Register, opcode: Opcode },
    IC { cst: u16, rs1: Register, func3: Func3, rd: Register, opcode: Opcode },
    IF { func7: Func7, imm: u8, rs1: Register, func3: Func3, rd: Register, opcode: Opcode },
    S { imm: u16, rs2: Register, rs1: Register, func3: Func3, opcode: Opcode },
    SB { imm: u16, rs2: Register, rs1: Register, func3: Func3, opcode: Opcode },
    U { imm: u32, rd: Register, opcode: Opcode },
    UJ { imm: u32, rd: Register, opcode: Opcode },
}

impl Instruction32 {
    /// True when every field has the bits of its kind: 12 for the immediates
    /// of I and S and for a constant, 5 beside a `funct7`, 13 for SB, 21 for UJ.
    pub open spec fn wf(&self) -> bool {
        match self {
            Instruction32::R { func7, rs2, rs1, func3, rd, opcode } => func7.wf() && rs2.wf()
                && rs1.wf() && func3.wf() && rd.wf() && opcode.wf(),
            Instruction32::I { imm, rs1, func3, rd, opcode } => *imm < 4096 && rs1.wf()
                && func3.wf() && rd.wf() && opcode.wf(),
            Instruction32::IC { cst, rs1, func3, rd, opcode } => *cst < 4096 && rs1.wf()
                && func3.wf() && rd.wf() && opcode.wf(),
            Instruction32::IF { func7, imm, rs1, func3, rd, opcode } => func7.wf() && *imm < 32
                && rs1.wf() && func3.wf() && rd.wf() && opcode.wf(),
            Instruction32::S { imm, rs2, rs1, func3, opcode } => *imm < 4096 && rs2.wf()
                && rs1.wf() && func3.wf() && opcode.wf(),
            Instruction32::SB { imm, rs2, rs1, func3, opcode } => *imm < 8192 && rs2.wf()
                && rs1.wf() && func3.wf() && opcode.wf(),
            Instruction32::U { imm, rd, opcode } => rd.wf() && opcode.wf(),
            Instruction32::UJ { imm, rd, opcode } => *imm < 0x20_0000 && rd.wf() && opcode.wf(),
        }
    }

    /// The opcode that chose the format.
    pub open spec fn opcode(&self) -> Opcode {
        match self {
            Instruction32::R { opcode, .. } => *opcode,
            Instruction32::I { opcode, .. } => *opcode,
            Instruction32::IC { opcode, .. } => *opcode,
            Instruction32::IF { opcode, .. } => *opcode,
            Instruction32::S { opcode, .. } => *opcode,
            Instruction32::SB { opcode, .. } => *opcode,
            Instruction32::U { opcode, .. } => *opcode,
            Instruction32::UJ { opcode, .. } => *opcode,
        }
    }

    /// The name of the format as a line starts with it; `short` gives the
    /// three kinds of I one name.
    pub open spec fn format_text(&self, short: bool) -> Seq<char> {
        match self {
            Instruction32::R { .. } => "fmt: R, "@,
            Instruction32::I { .. } => "fmt: I, "@,
            Instruction32::IC { .. } => if short {
                "fmt: I, "@
            } else {
                "fmt: Ic, "@
            },
            Instruction32::IF { .. } => if short {
                "fmt: I, "@
            } else {
                "fmt: If, "@
            },
            Instruction32::S { .. } => "fmt: S, "@,
            Instruction32::SB { .. } => "fmt: S, "@,
            Instruction32::U { .. } => "fmt: U, "@,
            Instruction32::UJ { .. } => "fmt: U, "@,
        }
    }

    /// The fields, in the order of the word from its top bit down.
    pub open spec fn fields_text(&self) -> Seq<char> {
        match self {
            Instruction32::R { func7, rs2, rs1, func3, rd, opcode } => "func7: "@ + func7.text()
                + ", rs2: "@ + rs2.text() + ", rs1: "@ + rs1.text() + ", func3: "@ + func3.text()
                + ", rd: "@ + rd.text(),
            Instruction32::I { imm, rs1, func3, rd, opcode } => "imm : "@ + decimal_text(
                *imm as u32,
            ) + ", rs1 : "@ + rs1.text() + ", func3 : "@ + func3.text() + ", rd : "@ + rd.text(),
            Instruction32::IC { cst, rs1, func3, rd, opcode } => "cst : "@ + decimal_text(
                *cst as u32,
            ) + ", rs1 : "@ + rs1.text() + ", func3 : "@ + func3.text() + ", rd : "@ + rd.text(),
            Instruction32::IF { func7, imm, rs1, func3, rd, opcode } => "func7 : "@ + func7.text()
                + ", imm : "@ + decimal_text(*imm as u32) + ", rs1 : "@ + rs1.text()
                + ", func3 : "@ + func3.text() + ", rd : "@ + rd.text(),
            Instruction32::S { imm, rs2, rs1, func3, opcode } => "imm: "@ + hex_text_padded(
                *imm as u32,
                6,
            ) + ", rs2: "@ + rs2.text() + ", rs1: "@ + rs1.text() + ", func3: "@ + func3.text(),
            Instruction32::SB { imm, rs2, rs1, func3, opcode } => "imm: "@ + hex_text_padded(
                *imm as u32,
                6,
            ) + ", rs2: "@ + rs2.text() + ", rs1: "@ + rs1.text() + ", func3: "@ + func3.text(),
            Instruction32::U { imm, rd, opcode } => "imm: "@ + hex_text_padded(*imm, 10)
                + ", rd : "@ + rd.text(),
            Instruction32::UJ { imm, rd, opcode } => "imm: "@ + hex_text_padded(*imm, 10)
                + ", rd : "@ + rd.text(),
        }
    }

    /// The format and the fields, without the opcode.
    pub open spec fn text(&self) -> Seq<char> {
        self.format_text(false) + self.fields_text()
    }

    /// The opcode, then the format and the fields.
    pub open spec fn debug_text(&self) -> Seq<char> {
        "op: "@ + self.opcode().text() + ", "@ + self.format_text(true) + self.fields_text()
    }

    /// Appends the name of the format to `out`.
    fn push_format(&self, out: &mut String, short: bool)
        ensures
            final(out)@ == old(out)@ + self.format_text(short),
    {
        match self {
            Instruction32::R { .. } => out.append("fmt: R, "),
            Instruction32::I { .. } => out.append("fmt: I, "),
            Instruction32::IC { .. } => if short {
                out.append("fmt: I, ")
            } else {
                out.append("fmt: Ic, ")
            },
            Instruction32::IF { .. } => if short {
                out.append("fmt: I, ")
            } else {
                out.append("fmt: If, ")
            },
            Instruction32::S { .. } => out.append("fmt: S, "),
            Instruction32::SB { .. } => out.append("fmt: S, "),
            Instruction32::U { .. } => out.append("fmt: U, "),
            Instruction32::UJ { .. } => out.append("fmt: U, "),
        }
    }

    /// Appends the fields to `out`.
    fn push_fields(&self, out: &mut String)
        ensures
            final(out)@ == old(out)@ + self.fields_text(),
    {
        let ghost start = out@;
        match self {
            Instruction32::R { func7, rs2, rs1, func3, rd, opcode } => {
                out.append("func7: ");
                out.append(func7.to_string().as_str());
                out.append(", rs2: ");
                out.append(rs2.to_string().as_str());
                out.append(", rs1: ");
                out.append(rs1.to_string().as_str());
                out.append(", func3: ");
                out.append(func3.to_string().as_str());
                out.append(", rd: ");
                out.append(rd.to_string().as_str());
            },
            Instruction32::I { imm, rs1, func3, rd, opcode } => {
                out.append("imm : ");
                out.append(show_decimal(*imm as u32).as_str());
                out.append(", rs1 : ");
                out.append(rs1.to_string().as_str());
                out.append(", func3 : ");
                out.append(func3.to_string().as_str());
                out.append(", rd : ");
                out.append(rd.to_string().as_str());
            },
            Instruction32::IC { cst, rs1, func3, rd, opcode } => {
                out.append("cst : ");
                out.append(show_decimal(*cst as u32).as_str());
                out.append(", rs1 : ");
                out.append(rs1.to_string().as_str());
                out.append(", func3 : ");
                out.append(func3.to_string().as_str());
                out.append(", rd : ");
                out.append(rd.to_string().as_str());
            },
            Instruction32::IF { func7, imm, rs1, func3, rd, opcode } => {
                out.append("func7 : ");
                out.append(func7.to_string().as_str());
                out.append(", imm : ");
                out.append(show_decimal(*imm as u32).as_str());
                out.append(", rs1 : ");
                out.append(rs1.to_string().as_str());
                out.append(", func3 : ");
                out.append(func3.to_string().as_str());
                out.append(", rd : ");
                out.append(rd.to_string().as_str());
            },
            Instruction32::S { imm, rs2, rs1, func3, opcode } => {
                out.append("imm: ");
                out.append(show_hex_padded(*imm as u32, 6).as_str());
                out.append(", rs2: ");
                out.append(rs2.to_string().as_str());
                out.append(", rs1: ");
                out.append(rs1.to_string().as_str());
                out.append(", func3: ");
                out.append(func3.to_string().as_str());
            },
            Instruction32::SB { imm, rs2, rs1, func3, opcode } => {
                out.append("imm: ");
                out.append(show_hex_padded(*imm as u32, 6).as_str());
                out.append(", rs2: ");
                out.append(rs2.to_string().as_str());
                out.append(", rs1: ");
                out.append(rs1.to_string().as_str());
                out.append(", func3: ");
                out.append(func3.to_string().as_str());
            },
            Instruction32::U { imm, rd, opcode } => {
                out.append("imm: ");
                out.append(show_hex_padded(*imm, 10).as_str());
                out.append(", rd : ");
                out.append(rd.to_string().as_str());
            },
            Instruction32::UJ { imm, rd, opcode } => {
                out.append("imm: ");
                out.append(show_hex_padded(*imm, 10).as_str());
                out.append(", rd : ");
                out.append(rd.to_string().as_str());
            },
        }
        proof {
            assert(out@ =~= start + self.fields_text());
        }
    }

    /// The opcode of the record.
    pub fn get_opcode(&self) -> (r: Opcode)
        ensures
            r == self.opcode(),
    {
        match self {
            Instruction32::R { opcode, .. } => *opcode,
            Instruction32::I { opcode, .. } => *opcode,
            Instruction32::IC { opcode, .. } => *opcode,
            Instruction32::IF { opcode, .. } => *opcode,
            Instruction32::S { opcode, .. } => *opcode,
            Instruction32::SB { opcode, .. } => *opcode,
            Instruction32::U { opcode, .. } => *opcode,
            Instruction32::UJ { opcode, .. } => *opcode,
        }
    }

    /// The record as a line of text, without the opcode.
    pub fn to_string(&self) -> (r: String)
        ensures
            r@ == self.text(),
    {
        let mut out = String::new();
        self.push_format(&mut out, false);
        self.push_fields(&mut out);
        proof {
            assert(out@ =~= self.text());
        }
        out
    }

    /// The record as a line of text that starts with the opcode.
    pub fn to_debug_string(&self) -> (r: String)
        ensures
            r@ == self.debug_text(),
    {
        let mut out = "op: ".to_owned();
        out.append(self.get_opcode().to_string().as_str());
        out.append(", ");
        self.push_format(&mut out, true);
        self.push_fields(&mut out);
        proof {
            assert(out@ =~= self.debug_text());
        }
        out
    }
}

} // verus!
