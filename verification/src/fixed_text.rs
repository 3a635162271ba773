//! Decoded 32-bit instructions as text.
use vstd::prelude::*;
use vstd::string::StringExecFns;
use crate::fixed::{Func3, Func7, ImmFunc, Instruction, Opcode, Register};
use crate::show::{
    decimal_text, hex_text, hex_text_padded, push_decimal_digits, show_decimal, show_hex,
    show_hex_padded,
};

verus! {

impl Opcode {
    /// The opcode in hexadecimal, two digits at least.
    pub open spec fn text(&self) -> Seq<char> {
        hex_text_padded(self.v as u32, 4)
    }

    pub fn to_string(&self) -> (r: String)
        ensures
            r@ == self.text(),
    {
        show_hex_padded(self.v as u32, 4)
    }
}

impl Func3 {
    /// The value in hexadecimal.
    pub open spec fn text(&self) -> Seq<char> {
        hex_text(self.v as u32)
    }

    pub fn to_string(&self) -> (r: String)
        ensures
            r@ == self.text(),
    {
        show_hex(self.v as u32)
    }
}

impl Register {
    /// `x` and the index in decimal.
    pub open spec fn text(&self) -> Seq<char> {
        seq!['x'] + decimal_text(self.v as u32)
    }

    pub fn to_string(&self) -> (r: String)
        ensures
            r@ == self.text(),
    {
        let mut out = String::new();
        out.push('x');
        push_decimal_digits(&mut out, self.v as u32);
        proof {
            assert(out@ =~= self.text());
        }
        out
    }
}

impl Func7 {
    /// The value in hexadecimal, two digits at least.
    pub open spec fn text(&self) -> Seq<char> {
        hex_text_padded(self.v as u32, 4)
    }

    pub fn to_string(&self) -> (r: String)
        ensures
            r@ == self.text(),
    {
        show_hex_padded(self.v as u32, 4)
    }
}

impl ImmFunc {
    /// The kind and its values.
    pub open spec fn text(&self) -> Seq<char> {
        match self {
            ImmFunc::Imm(imm) => "imm: "@ + decimal_text(*imm as u32),
            ImmFunc::FuncImm { func7, imm } => "func7: "@ + func7.text() + ", imm: "@
                + hex_text_padded(*imm as u32, 4),
            ImmFunc::Const(imm) => "cst: "@ + decimal_text(*imm as u32),
        }
    }

    pub fn to_string(&self) -> (r: String)
        ensures
            r@ == self.text(),
    {
        match self {
            ImmFunc::Imm(imm) => {
                let mut out = "imm: ".to_owned();
                out.append(show_decimal(*imm as u32).as_str());
                out
            },
            ImmFunc::FuncImm { func7, imm } => {
                let mut out = "func7: ".to_owned();
                out.append(func7.to_string().as_str());
                out.append(", imm: ");
                out.append(show_hex_padded(*imm as u32, 4).as_str());
                out
            },
            ImmFunc::Const(imm) => {
                let mut out = "cst: ".to_owned();
                out.append(show_decimal(*imm as u32).as_str());
                out
            },
        }
    }
}

impl Instruction {
    /// The opcode that chose the format.
    pub open spec fn opcode(&self) -> Opcode {
        match self {
            Instruction::R { opcode, .. } => *opcode,
            Instruction::I { opcode, .. } => *opcode,
            Instruction::S { opcode, .. } => *opcode,
            Instruction::SB { opcode, .. } => *opcode,
            Instruction::U { opcode, .. } => *opcode,
            Instruction::UJ { opcode, .. } => *opcode,
        }
    }

    /// The format and the fields, without the opcode.
    pub open spec fn text(&self) -> Seq<char> {
        match self {
            Instruction::R { func7, rs2, rs1, func3, rd, opcode } => "fmt: R, func7: "@
                + func7.text() + ", rs2: "@ + rs2.text() + ", rs1: "@ + rs1.text() + ", func3: "@
                + func3.text() + ", rd: "@ + rd.text(),
            Instruction::I { immfunc, rs1, func3, rd, opcode } => "fmt: I, "@ + immfunc.text()
                + ", rs1 : "@ + rs1.text() + ", func3 : "@ + func3.text() + ", rd : "@ + rd.text(),
            Instruction::S { imm, rs2, rs1, func3, opcode } => "fmt: S, imm: "@ + hex_text_padded(
                *imm as u32,
                6,
            ) + ", rs2: "@ + rs2.text() + ", rs1: "@ + rs1.text() + ", func3: "@ + func3.text(),
            Instruction::SB { imm, rs2, rs1, func3, opcode } => "fmt: S, imm: "@
                + hex_text_padded(*imm as u32, 6) + ", rs2: "@ + rs2.text() + ", rs1: "@
                + rs1.text() + ", func3: "@ + func3.text(),
            Instruction::U { imm, rd, opcode } => "fmt: U, imm: "@ + hex_text_padded(*imm, 10)
                + ", rd : "@ + rd.text(),
            Instruction::UJ { imm, rd, opcode } => "fmt: U, imm: "@ + hex_text_padded(*imm, 10)
                + ", rd : "@ + rd.text(),
        }
    }

    /// The opcode, then the format and the fields.
    pub open spec fn debug_text(&self) -> Seq<char> {
        "op: "@ + self.opcode().text() + ", "@ + self.text()
    }

    /// Appends the format and the fields to `out`.
    fn push_text(&self, out: &mut String)
        ensures
            final(out)@ == old(out)@ + self.text(),
    {
        let ghost start = out@;
        match self {
            Instruction::R { func7, rs2, rs1, func3, rd, opcode } => {
                out.append("fmt: R, func7: ");
                out.append(func7.to_string().as_str());
                out.append(", rs2: ");
                out.append(rs2.to_string().as_str());
                out.append(", rs1: ");
                out.append(rs1.to_string().as_str());
                out.append(", func3: ");
                out.append(func3.to_string().as_str());
                out.append(", rd: ");
                out.append(rd.to_string().as_str());
            },
            Instruction::I { immfunc, rs1, func3, rd, opcode } => {
                out.append("fmt: I, ");
                out.append(immfunc.to_string().as_str());
                out.append(", rs1 : ");
                out.append(rs1.to_string().as_str());
                out.append(", func3 : ");
                out.append(func3.to_string().as_str());
                out.append(", rd : ");
                out.append(rd.to_string().as_str());
            },
            Instruction::S { imm, rs2, rs1, func3, opcode } => {
                out.append("fmt: S, imm: ");
                out.append(show_hex_padded(*imm as u32, 6).as_str());
                out.append(", rs2: ");
                out.append(rs2.to_string().as_str());
                out.append(", rs1: ");
                out.append(rs1.to_string().as_str());
                out.append(", func3: ");
                out.append(func3.to_string().as_str());
            },
            Instruction::SB { imm, rs2, rs1, func3, opcode } => {
                out.append("fmt: S, imm: ");
                out.append(show_hex_padded(*imm as u32, 6).as_str());
                out.append(", rs2: ");
                out.append(rs2.to_string().as_str());
                out.append(", rs1: ");
                out.append(rs1.to_string().as_str());
                out.append(", func3: ");
                out.append(func3.to_string().as_str());
            },
            Instruction::U { imm, rd, opcode } => {
                out.append("fmt: U, imm: ");
                out.append(show_hex_padded(*imm, 10).as_str());
                out.append(", rd : ");
                out.append(rd.to_string().as_str());
            },
            Instruction::UJ { imm, rd, opcode } => {
                out.append("fmt: U, imm: ");
                out.append(show_hex_padded(*imm, 10).as_str());
                out.append(", rd : ");
                out.append(rd.to_string().as_str());
            },
        }
        proof {
            assert(out@ =~= start + self.text());
        }
    }

    /// The opcode of the record.
    pub fn get_opcode(&self) -> (r: Opcode)
        ensures
            r == self.opcode(),
    {
        match self {
            Instruction::R { opcode, .. } => *opcode,
            Instruction::I { opcode, .. } => *opcode,
            Instruction::S { opcode, .. } => *opcode,
            Instruction::SB { opcode, .. } => *opcode,
            Instruction::U { opcode, .. } => *opcode,
            Instruction::UJ { opcode, .. } => *opcode,
        }
    }

    /// The record as a line of text, without the opcode.
    pub fn to_string(&self) -> (r: String)
        ensures
            r@ == self.text(),
    {
        let mut out = String::new();
        self.push_text(&mut out);
        proof {
            assert(out@ =~= self.text());
        }
        out
    }

    /// The record as a line of text that starts with the opcode.
    pub fn to_debug_string(&self) -> (r: String)
        ensures
            r@ == self.debug_text(),
    {
        let mut out = "op: ".to_owned();
        out.append(self.get_opcode().to_string().as_str());
        out.append(", ");
        self.push_text(&mut out);
        proof {
            assert(out@ =~= self.debug_text());
        }
        out
    }
}

} // verus!
