//! The fields and formats of 16-bit compact instructions.
use vstd::prelude::*;
use crate::fixed::{Func3, Register};
use crate::show::{decimal_text, hex_text, push_decimal_digits, show_decimal, show_hex};

verus! {

/// The opcode of a compact instruction: 2 bits.
#[derive(PartialEq, Eq, Structural, Hash, Clone, Copy, Debug)]
pub struct OpcodeC {
    pub v: u8,
}

/// The minor opcode `funct2`: 2 bits.
#[derive(PartialEq, Eq, Structural, Hash, Clone, Copy, Debug)]
pub struct Func2 {
    pub v: u8,
}

/// The minor opcode `funct4`: 4 bits.
#[derive(PartialEq, Eq, Structural, Hash, Clone, Copy, Debug)]
pub struct Func4 {
    pub v: u8,
}

/// The minor opcode `funct6`: 6 bits.
#[derive(PartialEq, Eq, Structural, Hash, Clone, Copy, Debug)]
pub struct Func6 {
    pub v: u8,
}

/// A short register index: 3 bits, for the registers 8 to 15.
#[derive(PartialEq, Eq, Structural, Hash, Clone, Copy, Debug)]
pub struct Register3 {
    pub v: u8,
}

impl OpcodeC {
    /// True when the value has 2 bits.
    pub open spec fn wf(&self) -> bool {
        self.v < 4
    }

    /// The value in decimal.
    pub open spec fn text(&self) -> Seq<char> {
        decimal_text(self.v as u32)
    }

    pub fn new(v: u8) -> (r: OpcodeC)
        requires
            v < 4,
        ensures
            r.v == v,
            r.wf(),
    {
        OpcodeC { v }
    }

    pub fn to_string(&self) -> (r: String)
        ensures
            r@ == self.text(),
    {
        show_decimal(self.v as u32)
    }
}

impl Func2 {
    /// True when the value has 2 bits.
    pub open spec fn wf(&self) -> bool {
        self.v < 4
    }

    /// The value in hexadecimal.
    pub open spec fn text(&self) -> Seq<char> {
        hex_text(self.v as u32)
    }

    pub fn new(v: u8) -> (r: Func2)
        requires
            v < 4,
        ensures
            r.v == v,
            r.wf(),
    {
        Func2 { v }
    }

    pub fn to_string(&self) -> (r: String)
        ensures
            r@ == self.text(),
    {
        show_hex(self.v as u32)
    }
}

impl Func4 {
    /// True when the value has 4 bits.
    pub open spec fn wf(&self) -> bool {
        self.v < 16
    }

    /// The value in hexadecimal.
    pub open spec fn text(&self) -> Seq<char> {
        hex_text(self.v as u32)
    }

    pub fn new(v: u8) -> (r: Func4)
        requires
            v < 16,
        ensures
            r.v == v,
            r.wf(),
    {
        Func4 { v }
    }

    pub fn to_string(&self) -> (r: String)
        ensures
            r@ == self.text(),
    {
        show_hex(self.v as u32)
    }
}

impl Func6 {
    /// True when the value has 6 bits.
    pub open spec fn wf(&self) -> bool {
        self.v < 64
    }

    /// The value in hexadecimal.
    pub open spec fn text(&self) -> Seq<char> {
        hex_text(self.v as u32)
    }

    pub fn new(v: u8) -> (r: Func6)
        requires
            v < 64,
        ensures
            r.v == v,
            r.wf(),
    {
        Func6 { v }
    }

    pub fn to_string(&self) -> (r: String)
        ensures
            r@ == self.text(),
    {
        show_hex(self.v as u32)
    }
}

impl Register3 {
    /// True when the value has 3 bits.
    pub open spec fn wf(&self) -> bool {
        self.v < 8
    }

    /// `x` and the index in decimal.
    pub open spec fn text(&self) -> Seq<char> {
        seq!['x'] + decimal_text(self.v as u32)
    }

    pub fn new(v: u8) -> (r: Register3)
        requires
            v < 8,
        ensures
            r.v == v,
            r.wf(),
    {
        Register3 { v }
    }

    pub fn to_string(&self) -> (r: String)
        ensures
            r@ == self.text(),
    {
        let mut out = String::new();
        out.push('x');
        push_decimal_digits(&mut out, self.v as u32);
        proof {
            assert(out@ =~= self.text());
        }
        out
    }
}

/// The formats of 16-bit compact instructions.
#[derive(PartialEq, Eq, Structural, Debug, Clone, Copy)]
pub enum InstructionCFmt {
    CR,
    CI,
    CSS,
    CIW,
    CL,
    CS,
    CA,
    CB,
    CJ,
}

/// A compact instruction, by format.
#[allow(inconsistent_fields)]
#[derive(PartialEq, Eq, Structural, Debug, Clone, Copy)]
pub enum InstructionC {
    CR { func4: Func4, rdrs1: Register, rs2: Register, opcode: OpcodeC },
    CI { func3: Func3, imm: u8, rdrs1: Register, opcode: OpcodeC },
    CSS { func3: Func3, imm: u8, rs2: Register, opcode: OpcodeC },
    CIW { func3: Func3, imm: u8, rdprime: Register3, opcode: OpcodeC },
    CL { func3: Func3, imm: u8, rs1prime: Register3, rdprime: Register3, opcode: OpcodeC },
    CS { func3: Func3, imm: u8, rs1prime: Register3, rs2prime: Register3, opcode: OpcodeC },
    CA {
        func6: Func6,
        rdrs1prime: Register3,
        func2: Func2,
        rs2prime: Register3,
        opcode: OpcodeC,
    },
    CB { func3: Func3, offset: u8, rs1prime: Register3, opcode: OpcodeC },
    CJ { func3: Func3, target: u16, opcode: OpcodeC },
}

impl InstructionC {
    /// The format of the record.
    pub open spec fn format(&self) -> InstructionCFmt {
        match self {
            InstructionC::CR { .. } => InstructionCFmt::CR,
            InstructionC::CI { .. } => InstructionCFmt::CI,
            InstructionC::CSS { .. } => InstructionCFmt::CSS,
            InstructionC::CIW { .. } => InstructionCFmt::CIW,
            InstructionC::CL { .. } => InstructionCFmt::CL,
            InstructionC::CS { .. } => InstructionCFmt::CS,
            InstructionC::CA { .. } => InstructionCFmt::CA,
            InstructionC::CB { .. } => InstructionCFmt::CB,
            InstructionC::CJ { .. } => InstructionCFmt::CJ,
        }
    }

    /// True when every field has the bits of its kind: 6 for the immediates
    /// of CI and CSS, 5 for those of CL and CS, 11 for the target of CJ.
    pub open spec fn wf(&self) -> bool {
        match self {
            InstructionC::CR { func4, rdrs1, rs2, opcode } => func4.wf() && rdrs1.wf() && rs2.wf()
                && opcode.wf(),
            InstructionC::CI { func3, imm, rdrs1, opcode } => func3.wf() && *imm < 64
                && rdrs1.wf() && opcode.wf(),
            InstructionC::CSS { func3, imm, rs2, opcode } => func3.wf() && *imm < 64 && rs2.wf()
                && opcode.wf(),
            InstructionC::CIW { func3, imm, rdprime, opcode } => func3.wf() && rdprime.wf()
                && opcode.wf(),
            InstructionC::CL { func3, imm, rs1prime, rdprime, opcode } => func3.wf() && *imm < 32
                && rs1prime.wf() && rdprime.wf() && opcode.wf(),
            InstructionC::CS { func3, imm, rs1prime, rs2prime, opcode } => func3.wf() && *imm < 32
                && rs1prime.wf() && rs2prime.wf() && opcode.wf(),
            InstructionC::CA { func6, rdrs1prime, func2, rs2prime, opcode } => func6.wf()
                && rdrs1prime.wf() && func2.wf() && rs2prime.wf() && opcode.wf(),
            InstructionC::CB { func3, offset, rs1prime, opcode } => func3.wf() && rs1prime.wf()
                && opcode.wf(),
            InstructionC::CJ { func3, target, opcode } => func3.wf() && *target < 2048
                && opcode.wf(),
        }
    }

    /// Tells the format of the record.
    pub fn get_format(&self) -> (r: InstructionCFmt)
        ensures
            r == self.format(),
    {
        match self {
            InstructionC::CR { .. } => InstructionCFmt::CR,
            InstructionC::CI { .. } => InstructionCFmt::CI,
            InstructionC::CSS { .. } => InstructionCFmt::CSS,
            InstructionC::CIW { .. } => InstructionCFmt::CIW,
            InstructionC::CL { .. } => InstructionCFmt::CL,
            InstructionC::CS { .. } => InstructionCFmt::CS,
            InstructionC::CA { .. } => InstructionCFmt::CA,
            InstructionC::CB { .. } => InstructionCFmt::CB,
            InstructionC::CJ { .. } => InstructionCFmt::CJ,
        }
    }
}

} // verus!
