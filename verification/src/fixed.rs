//! The six base formats of 32-bit instructions, decoded from their fixed bit
//! positions.
use vstd::prelude::*;

verus! {

/// Bits `hi` down to `lo` of `v`, as a number.
pub open spec fn bit_range(v: u32, hi: u32, lo: u32) -> u32 {
    (v >> lo) & (0xffff_ffffu32 >> ((31 - hi + lo) as u32))
}

/// The major opcode: 7 bits.
#[derive(PartialEq, Eq, Structural, Hash, Clone, Copy, Debug)]
pub struct Opcode {
    pub v: u8,
}

/// The minor opcode `funct3`: 3 bits.
#[derive(PartialEq, Eq, Structural, Hash, Clone, Copy, Debug)]
pub struct Func3 {
    pub v: u8,
}

/// A register index: 5 bits.
#[derive(PartialEq, Eq, Structural, Hash, Clone, Copy, Debug)]
pub struct Register {
    pub v: u8,
}

/// The minor opcode `funct7`: 7 bits.
#[derive(PartialEq, Eq, Structural, Hash, Clone, Copy, Debug)]
pub struct Func7 {
    pub v: u8,
}

impl Opcode {
    /// True when the value has 7 bits.
    pub open spec fn wf(&self) -> bool {
        self.v < 128
    }

    pub fn new(v: u8) -> (r: Opcode)
        requires
            v < 128,
        ensures
            r.v == v,
            r.wf(),
    {
        Opcode { v }
    }
}

impl Func3 {
    /// True when the value has 3 bits.
    pub open spec fn wf(&self) -> bool {
        self.v < 8
    }

    pub fn new(v: u8) -> (r: Func3)
        requires
            v < 8,
        ensures
            r.v == v,
            r.wf(),
    {
        Func3 { v }
    }
}

impl Register {
    /// True when the value has 5 bits.
    pub open spec fn wf(&self) -> bool {
        self.v < 32
    }

    pub fn new(v: u8) -> (r: Register)
        requires
            v < 32,
        ensures
            r.v == v,
            r.wf(),
    {
        Register { v }
    }
}

impl Func7 {
    /// True when the value has 7 bits.
    pub open spec fn wf(&self) -> bool {
        self.v < 128
    }

    pub fn new(v: u8) -> (r: Func7)
        requires
            v < 128,
        ensures
            r.v == v,
            r.wf(),
    {
        Func7 { v }
    }
}

/// The upper 12 bits of an I-format word: an immediate, a `funct7` with a
/// 5-bit immediate, or a constant.
#[derive(PartialEq, Eq, Structural, Clone, Copy, Debug)]
pub enum ImmFunc {
    Imm(u16),
    FuncImm { func7: Func7, imm: u8 },
    Const(u16),
}

impl ImmFunc {
    /// True when each value has the bits of its kind: 12 for an immediate or a
    /// constant, 7 and 5 for a `funct7` with its immediate.
    pub open spec fn wf(&self) -> bool {
        match self {
            ImmFunc::Imm(v) => *v < 4096,
            ImmFunc::FuncImm { func7, imm } => func7.wf() && *imm < 32,
            ImmFunc::Const(v) => *v < 4096,
        }
    }

    pub fn from_imm(v: u16) -> (r: ImmFunc)
        requires
            v < 4096,
        ensures
            r == ImmFunc::Imm(v),
            r.wf(),
    {
        ImmFunc::Imm(v)
    }

    pub fn from_func_imm(func7: Func7, v: u8) -> (r: ImmFunc)
        requires
            func7.wf(),
            v < 32,
        ensures
            r == (ImmFunc::FuncImm { func7, imm: v }),
            r.wf(),
    {
        ImmFunc::FuncImm { func7, imm: v }
    }

    pub fn from_const(v: u16) -> (r: ImmFunc)
        requires
            v < 4096,
        ensures
            r == ImmFunc::Const(v),
            r.wf(),
    {
        ImmFunc::Const(v)
    }

    /// The constant, where this is one.
    pub fn cst12(&self) -> (r: Option<u16>)
        ensures
            r == (match self {
                ImmFunc::Const(v) => Some(*v),
                _ => None,
            }),
    {
        match self {
            ImmFunc::Const(v) => Some(*v),
            _ => None,
        }
    }

    /// The `funct7`, where this holds one.
    pub fn func7(&self) -> (r: Option<Func7>)
        ensures
            r == (match self {
                ImmFunc::FuncImm { func7, .. } => Some(*func7),
                _ => None,
            }),
    {
        match self {
            ImmFunc::FuncImm { func7, .. } => Some(*func7),
            _ => None,
        }
    }
}

/// A decoded 32-bit instruction, by format.
#[allow(inconsistent_fields)]
#[derive(PartialEq, Eq, Structural, Clone, Copy)]
pub enum Instruction {
    R { func7: Func7, rs2: Register, rs1: Register, func3: Func3, rd: Register, opcode: Opcode },
    I { immfunc: ImmFunc, rs1: Register, func3: Func3, rd: Register, opcode: Opcode },
    S { imm: u16, rs2: Register, rs1: Register, func3: Func3, opcode: Opcode },
    SB { imm: u16, rs2: Register, rs1: Register, func3: Func3, opcode: Opcode },
    U { imm: u32, rd: Register, opcode: Opcode },
    UJ { imm: u32, rd: Register, opcode: Opcode },
}

/// The six base formats.
#[derive(PartialEq, Eq, Structural, Debug, Clone, Copy)]
pub enum InstructionFmt {
    R,
    I,
    S,
    SB,
    U,
    UJ,
}

impl Instruction {
    /// True when every field has the bits of its kind: 12 for the immediate
    /// of S, 13 for that of SB, 21 for that of UJ.
    pub open spec fn wf(&self) -> bool {
        match self {
            Instruction::R { func7, rs2, rs1, func3, rd, opcode } => func7.wf() && rs2.wf()
                && rs1.wf() && func3.wf() && rd.wf() && opcode.wf(),
            Instruction::I { immfunc, rs1, func3, rd, opcode } => immfunc.wf() && rs1.wf()
                && func3.wf() && rd.wf() && opcode.wf(),
            Instruction::S { imm, rs2, rs1, func3, opcode } => *imm < 4096 && rs2.wf() && rs1.wf()
                && func3.wf() && opcode.wf(),
            Instruction::SB { imm, rs2, rs1, func3, opcode } => *imm < 8192 && rs2.wf()
                && rs1.wf() && func3.wf() && opcode.wf(),
            Instruction::U { imm, rd, opcode } => rd.wf() && opcode.wf(),
            Instruction::UJ { imm, rd, opcode } => *imm < 0x20_0000 && rd.wf() && opcode.wf(),
        }
    }
}

/// The destination register: bits 11 to 7.
pub open spec fn rd_of(v: u32) -> Register {
    Register { v: bit_range(v, 11, 7) as u8 }
}

/// The minor opcode: bits 14 to 12.
pub open spec fn func3_of(v: u32) -> Func3 {
    Func3 { v: bit_range(v, 14, 12) as u8 }
}

/// The first source register: bits 19 to 15.
pub open spec fn rs1_of(v: u32) -> Register {
    Register { v: bit_range(v, 19, 15) as u8 }
}

/// The second source register: bits 24 to 20.
pub open spec fn rs2_of(v: u32) -> Register {
    Register { v: bit_range(v, 24, 20) as u8 }
}

/// The second minor opcode: bits 31 to 25.
pub open spec fn func7_of(v: u32) -> Func7 {
    Func7 { v: bit_range(v, 31, 25) as u8 }
}

/// The immediate of the I format: bits 31 to 20.
pub open spec fn i_imm(v: u32) -> u16 {
    bit_range(v, 31, 20) as u16
}

/// The immediate of the S format: bits 31 to 25 above bits 11 to 7.
pub open spec fn s_imm(v: u32) -> u16 {
    ((bit_range(v, 31, 25) << 5) | bit_range(v, 11, 7)) as u16
}

/// The immediate of the SB format: bit 31 is its bit 12, bit 7 its bit 11,
/// bits 30 to 25 its bits 10 to 5, bits 11 to 8 its bits 4 to 1; bit 0 is zero.
pub open spec fn sb_imm(v: u32) -> u16 {
    ((bit_range(v, 31, 31) << 12) | (bit_range(v, 7, 7) << 11) | (bit_range(v, 30, 25) << 5) | (
    bit_range(v, 11, 8) << 1)) as u16
}

/// The immediate of the U format: bits 31 to 12 in place, the low 12 bits zero.
pub open spec fn u_imm(v: u32) -> u32 {
    v & 0xffff_f000
}

/// The immediate of the UJ format: bit 31 is its bit 20, bits 19 to 12 stay,
/// bit 20 is its bit 11, bits 30 to 21 its bits 10 to 1; bit 0 is zero.
pub open spec fn uj_imm(v: u32) -> u32 {
    (bit_range(v, 31, 31) << 20) | (bit_range(v, 19, 12) << 12) | (bit_range(v, 20, 20) << 11) | (
    bit_range(v, 30, 21) << 1)
}

/// What a word decodes to in a format, with the opcode that chose the format.
pub open spec fn decoded_fixed(fmt: InstructionFmt, v: u32, op: Opcode) -> Instruction {
    match fmt {
        InstructionFmt::R => Instruction::R {
            func7: func7_of(v),
            rs2: rs2_of(v),
            rs1: rs1_of(v),
            func3: func3_of(v),
            rd: rd_of(v),
            opcode: op,
        },
        InstructionFmt::I => Instruction::I {
            immfunc: ImmFunc::Imm(i_imm(v)),
            rs1: rs1_of(v),
            func3: func3_of(v),
            rd: rd_of(v),
            opcode: op,
        },
        InstructionFmt::S => Instruction::S {
            imm: s_imm(v),
            rs2: rs2_of(v),
            rs1: rs1_of(v),
            func3: func3_of(v),
            opcode: op,
        },
        InstructionFmt::SB => Instruction::SB {
            imm: sb_imm(v),
            rs2: rs2_of(v),
            rs1: rs1_of(v),
            func3: func3_of(v),
            opcode: op,
        },
        InstructionFmt::U => Instruction::U { imm: u_imm(v), rd: rd_of(v), opcode: op },
        InstructionFmt::UJ => Instruction::UJ { imm: uj_imm(v), rd: rd_of(v), opcode: op },
    }
}

/// The register, `funct3` and `funct7` fields as the decoders read them, on
/// bit vectors.
proof fn lemma_common_fields(v: u32)
    by (bit_vector)
    ensures
        ((v >> 7) & 0x1f) == ((v >> 7u32) & (0xffff_ffffu32 >> 27u32)),
        ((v >> 7) & 0x1f) < 32,
        (((v >> 7) >> 5) & 0x7) == ((v >> 12u32) & (0xffff_ffffu32 >> 29u32)),
        (((v >> 7) >> 5) & 0x7) < 8,
        ((((v >> 7) >> 5) >> 3) & 0x1f) == ((v >> 15u32) & (0xffff_ffffu32 >> 27u32)),
        ((((v >> 7) >> 5) >> 3) & 0x1f) < 32,
        (((((v >> 7) >> 5) >> 3) >> 5) & 0x1f) == ((v >> 20u32) & (0xffff_ffffu32 >> 27u32)),
        (((((v >> 7) >> 5) >> 3) >> 5) & 0x1f) < 32,
        ((((((v >> 7) >> 5) >> 3) >> 5) >> 5) & 0x7f) == ((v >> 25u32) & (0xffff_ffffu32
            >> 25u32)),
        ((((((v >> 7) >> 5) >> 3) >> 5) >> 5) & 0x7f) < 128,
        ((v & 0xF80) >> 7) == ((v >> 7u32) & (0xffff_ffffu32 >> 27u32)),
        ((v & 0x7000) >> 12) == ((v >> 12u32) & (0xffff_ffffu32 >> 29u32)),
        ((v & 0xF8000) >> 15) == ((v >> 15u32) & (0xffff_ffffu32 >> 27u32)),
        ((v & 0xFFF00000) >> 20) == ((v >> 20u32) & (0xffff_ffffu32 >> 20u32)),
        ((v & 0xFFF00000) >> 20) < 4096,
{
}

fn decode_r(v: u32, op: &Opcode) -> (r: Instruction)
    requires
        op.wf(),
    ensures
        r == decoded_fixed(InstructionFmt::R, v, *op),
        r.wf(),
{
    proof {
        lemma_common_fields(v);
    }
    let v = v >> 7;
    let rd = Register::new((v & 0x1F) as u8);
    let v = v >> 5;
    let func3 = Func3::new((v & 0x7) as u8);
    let v = v >> 3;
    let rs1 = Register::new((v & 0x1F) as u8);
    let v = v >> 5;
    let rs2 = Register::new((v & 0x1F) as u8);
    let v = v >> 5;
    let func7 = Func7::new((v & 0x7F) as u8);
    Instruction::R { func7, rs2, rs1, func3, rd, opcode: *op }
}

fn decode_i(v: u32, op: &Opcode) -> (r: Instruction)
    requires
        op.wf(),
    ensures
        r == decoded_fixed(InstructionFmt::I, v, *op),
        r.wf(),
{
    proof {
        lemma_common_fields(v);
    }
    let rd = Register::new(((v & 0xF80) >> 7) as u8);
    let func3 = Func3::new(((v & 0x7000) >> 12) as u8);
    let rs1 = Register::new(((v & 0xF8000) >> 15) as u8);
    let imm = ((v & 0xFFF00000) >> 20) as u16;
    Instruction::I { immfunc: ImmFunc::from_imm(imm), rs1, func3, rd, opcode: *op }
}

/// The immediate of the S format as the decoder assembles it, on bit vectors.
proof fn lemma_s_imm(v: u32)
    by (bit_vector)
    ensures
        ((((((((v >> 7) >> 5) >> 3) >> 5) >> 5) & 0x7f) << 5) | ((v >> 7) & 0x1f)) == ((((v
            >> 25u32) & (0xffff_ffffu32 >> 25u32)) << 5) | ((v >> 7u32) & (0xffff_ffffu32
            >> 27u32))),
        ((((((((v >> 7) >> 5) >> 3) >> 5) >> 5) & 0x7f) << 5) | ((v >> 7) & 0x1f)) < 4096,
{
}

fn decode_s(v: u32, op: &Opcode) -> (r: Instruction)
    requires
        op.wf(),
    ensures
        r == decoded_fixed(InstructionFmt::S, v, *op),
        r.wf(),
{
    proof {
        lemma_common_fields(v);
        lemma_s_imm(v);
    }
    let v = v >> 7;
    let bit0to4 = v & 0x1F;
    let v = v >> 5;
    let func3 = Func3::new((v & 0x7) as u8);
    let v = v >> 3;
    let rs1 = Register::new((v & 0x1F) as u8);
    let v = v >> 5;
    let rs2 = Register::new((v & 0x1F) as u8);
    let v = v >> 5;
    let bit5to11 = v & 0x7F;
    let imm = ((bit5to11 << 5) | bit0to4) as u16;
    Instruction::S { imm, rs2, rs1, func3, opcode: *op }
}

/// The fields of the SB format as the decoder reads them, on bit vectors.
proof fn lemma_sb_fields(v: u32)
    by (bit_vector)
    ensures
        ((((v >> 7) >> 1) >> 4) & 0x7) == ((v >> 12u32) & (0xffff_ffffu32 >> 29u32)),
        ((((v >> 7) >> 1) >> 4) & 0x7) < 8,
        (((((v >> 7) >> 1) >> 4) >> 3) & 0x1f) == ((v >> 15u32) & (0xffff_ffffu32 >> 27u32)),
        (((((v >> 7) >> 1) >> 4) >> 3) & 0x1f) < 32,
        ((((((v >> 7) >> 1) >> 4) >> 3) >> 5) & 0x1f) == ((v >> 20u32) & (0xffff_ffffu32
            >> 27u32)),
        ((((((v >> 7) >> 1) >> 4) >> 3) >> 5) & 0x1f) < 32,
        ((((((((((v >> 7) >> 1) >> 4) >> 3) >> 5) >> 5) >> 6) & 1) << 12) | (((v >> 7) & 1) << 11)
            | ((((((((v >> 7) >> 1) >> 4) >> 3) >> 5) >> 5) & 0x3f) << 5) | ((((v >> 7) >> 1)
            & 0xf) << 1)) == ((((v >> 31u32) & (0xffff_ffffu32 >> 31u32)) << 12) | (((v >> 7u32)
            & (0xffff_ffffu32 >> 31u32)) << 11) | (((v >> 25u32) & (0xffff_ffffu32 >> 26u32))
            << 5) | (((v >> 8u32) & (0xffff_ffffu32 >> 28u32)) << 1)),
        ((((((((((v >> 7) >> 1) >> 4) >> 3) >> 5) >> 5) >> 6) & 1) << 12) | (((v >> 7) & 1) << 11)
            | ((((((((v >> 7) >> 1) >> 4) >> 3) >> 5) >> 5) & 0x3f) << 5) | ((((v >> 7) >> 1)
            & 0xf) << 1)) < 8192,
{
}

fn decode_sb(v: u32, op: &Opcode) -> (r: Instruction)
    requires
        op.wf(),
    ensures
        r == decoded_fixed(InstructionFmt::SB, v, *op),
        r.wf(),
{
    proof {
        lemma_sb_fields(v);
    }
    let v = v >> 7;
    let bit11 = v & 1;
    let v = v >> 1;
    let bit1to4 = v & 0xF;
    let v = v >> 4;
    let func3 = Func3::new((v & 0x7) as u8);
    let v = v >> 3;
    let rs1 = Register::new((v & 0x1F) as u8);
    let v = v >> 5;
    let rs2 = Register::new((v & 0x1F) as u8);
    let v = v >> 5;
    let bit5to10 = v & 0x3F;
    let v = v >> 6;
    let bit12 = v & 1;
    let imm = ((bit12 << 12) | (bit11 << 11) | (bit5to10 << 5) | (bit1to4 << 1)) as u16;
    Instruction::SB { imm, rs2, rs1, func3, opcode: *op }
}

fn decode_u(v: u32, op: &Opcode) -> (r: Instruction)
    requires
        op.wf(),
    ensures
        r == decoded_fixed(InstructionFmt::U, v, *op),
        r.wf(),
{
    proof {
        lemma_common_fields(v);
    }
    let rd = Register::new(((v & 0xF80) >> 7) as u8);
    let imm = v & 0xFFFFF000;
    Instruction::U { imm, rd, opcode: *op }
}

/// The immediate of the UJ format as the decoder assembles it, on bit vectors.
proof fn lemma_uj_imm(v: u32)
    by (bit_vector)
    ensures
        ((((((v >> 12) >> 8) >> 1) >> 10) & 1) << 20) | (((v >> 12) & 0xff) << 12) | ((((v >> 12)
            >> 8) & 1) << 11) | (((((v >> 12) >> 8) >> 1) & 0x3ff) << 1) == ((((v >> 31u32) & (
        0xffff_ffffu32 >> 31u32)) << 20) | (((v >> 12u32) & (0xffff_ffffu32 >> 24u32)) << 12) | (((v
            >> 20u32) & (0xffff_ffffu32 >> 31u32)) << 11) | (((v >> 21u32) & (0xffff_ffffu32
            >> 22u32)) << 1)),
        (((((((v >> 12) >> 8) >> 1) >> 10) & 1) << 20) | (((v >> 12) & 0xff) << 12) | ((((v >> 12)
            >> 8) & 1) << 11) | (((((v >> 12) >> 8) >> 1) & 0x3ff) << 1)) < 0x20_0000,
{
}

fn decode_uj(v: u32, op: &Opcode) -> (r: Instruction)
    requires
        op.wf(),
    ensures
        r == decoded_fixed(InstructionFmt::UJ, v, *op),
        r.wf(),
{
    proof {
        lemma_common_fields(v);
        lemma_uj_imm(v);
    }
    let rd = Register::new(((v & 0xF80) >> 7) as u8);
    let v = v >> 12;
    let bit12to19 = v & 0xFF;
    let v = v >> 8;
    let bit11 = v & 1;
    let v = v >> 1;
    let bit1to10 = v & 0x3FF;
    let v = v >> 10;
    let bit20 = v & 1;
    let imm = (bit20 << 20) | (bit12to19 << 12) | (bit11 << 11) | (bit1to10 << 1);
    Instruction::UJ { imm, rd, opcode: *op }
}

/// Decodes a 32-bit word in the format that its opcode calls for.
pub fn decode(fmt: &InstructionFmt, v: u32, op: &Opcode) -> (r: Instruction)
    requires
        op.wf(),
    ensures
        r == decoded_fixed(*fmt, v, *op),
        r.wf(),
{
    match fmt {
        InstructionFmt::R => decode_r(v, op),
        InstructionFmt::I => decode_i(v, op),
        InstructionFmt::S => decode_s(v, op),
        InstructionFmt::SB => decode_sb(v, op),
        InstructionFmt::U => decode_u(v, op),
        InstructionFmt::UJ => decode_uj(v, op),
    }
}

/// Branch and jump targets are even, and the immediate of the U format has
/// its low 12 bits clear.
pub proof fn lemma_immediates_aligned(v: u32)
    ensures
        sb_imm(v) & 1 == 0,
        uj_imm(v) & 1 == 0,
        u_imm(v) & 0xfff == 0,
{
    lemma_aligned(v);
    lemma_sb_fields(v);
}

proof fn lemma_aligned(v: u32)
    by (bit_vector)
    ensures
        (((((v >> 31u32) & (0xffff_ffffu32 >> 31u32)) << 12) | (((v >> 7u32) & (0xffff_ffffu32
            >> 31u32)) << 11) | (((v >> 25u32) & (0xffff_ffffu32 >> 26u32)) << 5) | (((v >> 8u32)
            & (0xffff_ffffu32 >> 28u32)) << 1)) as u16) & 1 == 0,
        ((((v >> 31u32) & (0xffff_ffffu32 >> 31u32)) << 20) | (((v >> 12u32) & (0xffff_ffffu32
            >> 24u32)) << 12) | (((v >> 20u32) & (0xffff_ffffu32 >> 31u32)) << 11) | (((v
            >> 21u32) & (0xffff_ffffu32 >> 22u32)) << 1)) & 1 == 0,
        (v & 0xffff_f000) & 0xfff == 0,
{
}

/// The number that an immediate of 12 bits stands for when its top bit is
/// read as the sign.
pub open spec fn signed12(imm: u16) -> int {
    if imm >= 2048 {
        imm - 4096
    } else {
        imm as int
    }
}

/// Reads an immediate of 12 bits as a signed number.
pub fn sign_extend12(imm: u16) -> (r: i16)
    requires
        imm < 4096,
    ensures
        r == signed12(imm),
        -2048 <= r < 2048,
{
    if imm >= 2048 {
        (imm as i16) - 4096
    } else {
        imm as i16
    }
}

} // verus!
