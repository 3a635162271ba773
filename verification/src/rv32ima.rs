//! The table of the 32-bit base instructions, with multiplication, atomics and control registers.
use vstd::prelude::*;
use crate::dsl::DslError;
use crate::isa::{
    lines_view, register_dict, register_show_dict, table_of, ISA, ISARV32IMA,
};
use crate::show::Show;
use crate::width::RV32Type;

verus! {

pub const ADDI: &'static str = "\"addi rd, rs1, imm\", imm[11:0], rs1[4:0], 000 ,rd[4:0], 0010011";
pub const ANDI: &'static str = "\"andi rd, rs1, imm\", imm[11:0], rs1[4:0], 111 ,rd[4:0], 0010011";
pub const SLTI: &'static str = "\"slti rd, rs1, imm\", imm[11:0], rs1[4:0], 010 ,rd[4:0], 0010011";
pub const SLTIU: &'static str = "\"sltiu rd, rs1, imm\", imm[11:0], rs1[4:0], 011 ,rd[4:0], 0010011";
pub const ORI: &'static str = "\"ori rd, rs1, imm\", imm[11:0], rs1[4:0], 110 ,rd[4:0], 0010011";
pub const XORI: &'static str = "\"xori rd, rs1, imm\", imm[11:0], rs1[4:0], 100 ,rd[4:0], 0010011";
pub const SLLI: &'static str = "\"slli rd, rs1, imm\", 0000000, imm[4:0], rs1[4:0], 001 ,rd[4:0], 0010011";
pub const SRLI: &'static str = "\"srli rd, rs1, imm\", 0000000, imm[4:0], rs1[4:0], 101 ,rd[4:0], 0010011";
pub const SRAI: &'static str = "\"srai rd, rs1, imm\", 0100000, imm[4:0], rs1[4:0], 101 ,rd[4:0], 0010011";
pub const LUI: &'static str = "\"lui rd, imm\", imm[31:12], rd[4:0], 0110111";
pub const AUIPC: &'static str = "\"auipc rd, imm\", imm[31:12], rd[4:0], 0010111";
pub const ADD: &'static str = "\"add rd, rs1, rs2\", 0000000, rs2[4:0], rs1[4:0], 000 ,rd[4:0], 0110011";
pub const SLT: &'static str = "\"slt rd, rs1, rs2\", 0000000, rs2[4:0], rs1[4:0], 010 ,rd[4:0], 0110011";
pub const SLTU: &'static str = "\"sltu rd, rs1, rs2\", 0000000, rs2[4:0], rs1[4:0], 011 ,rd[4:0], 0110011";
pub const AND: &'static str = "\"and rd, rs1, rs2\", 0000000, rs2[4:0], rs1[4:0], 111 ,rd[4:0], 0110011";
pub const OR: &'static str = "\"or rd, rs1, rs2\", 0000000, rs2[4:0], rs1[4:0], 110 ,rd[4:0], 0110011";
pub const XOR: &'static str = "\"xor rd, rs1, rs2\", 0000000, rs2[4:0], rs1[4:0], 100 ,rd[4:0], 0110011";
pub const SLL: &'static str = "\"sll rd, rs1, rs2\", 0000000, rs2[4:0], rs1[4:0], 001 ,rd[4:0], 0110011";
pub const SRL: &'static str = "\"srl rd, rs1, rs2\", 0000000, rs2[4:0], rs1[4:0], 101 ,rd[4:0], 0110011";
pub const SUB: &'static str = "\"sub rd, rs1, rs2\", 0100000, rs2[4:0], rs1[4:0], 000 ,rd[4:0], 0110011";
pub const SRA: &'static str = "\"sra rd, rs1, rs2\", 0100000, rs2[4:0], rs1[4:0], 101 ,rd[4:0], 0110011";
pub const NOP: &'static str = "\"nop\", 00000000000000000000000000010011";
pub const JAL: &'static str = "\"jal\", imm[10|10:1|11|19:12] ,rd[4:0], 1101111";
pub const JALR: &'static str = "\"jalr\", imm[11:0],rs1[4:0], 000, rd[4:0], 1100111";
pub const BEQ: &'static str = "\"beq rs1, rs2, imm\",imm[12|10:5],rs2[4:0],rs1[4:0],000,imm[11|4:1], 1100011";
pub const BNE: &'static str = "\"bne rs1, rs2, imm\",imm[12|10:5],rs2[4:0],rs1[4:0],001,imm[11|4:1], 1100011";
pub const BLT: &'static str = "\"blt rs1, rs2, imm\",imm[12|10:5],rs2[4:0],rs1[4:0],100,imm[11|4:1], 1100011";
pub const BLTU: &'static str = "\"bltu rs1, rs2, imm\",imm[12|10:5],rs2[4:0],rs1[4:0],110,imm[11|4:1], 1100011";
pub const BGE: &'static str = "\"bge rs1, rs2, imm\",imm[12|10:5],rs2[4:0],rs1[4:0],101,imm[11|4:1], 1100011";
pub const BGEU: &'static str = "\"bgeu rs1, rs2, imm\",imm[12|10:5],rs2[4:0],rs1[4:0],111,imm[11|4:1], 1100011";
pub const LB: &'static str = "\"lb rd, imm (rs1)\", imm[11:0],rs1[4:0], 000 ,rd[4:0], 0000011";
pub const LH: &'static str = "\"lh rd, imm (rs1)\", imm[11:0],rs1[4:0], 001 ,rd[4:0], 0000011";
pub const LW: &'static str = "\"lw rd, imm (rs1)\", imm[11:0],rs1[4:0], 010 ,rd[4:0], 0000011";
pub const LD: &'static str = "\"ld rd, imm (rs1)\", imm[11:0],rs1[4:0], 011 ,rd[4:0], 0000011";
pub const LBU: &'static str = "\"lbu rd, imm (rs1)\", imm[11:0],rs1[4:0], 100 ,rd[4:0], 0000011";
pub const LHU: &'static str = "\"lhu rd, imm (rs1)\", imm[11:0],rs1[4:0], 101 ,rd[4:0], 0000011";
pub const LWU: &'static str = "\"lwu rd, imm (rs1)\", imm[11:0],rs1[4:0], 110 ,rd[4:0], 0000011";
pub const SB: &'static str = "\"sb rs2, imm (rs1)\", imm[11:5],rs2[4:0],rs1[4:0],000,imm[4:0], 0100011";
pub const SH: &'static str = "\"sh rs2, imm (rs1)\", imm[11:5],rs2[4:0],rs1[4:0],001,imm[4:0], 0100011";
pub const SW: &'static str = "\"sw rs2, imm (rs1)\", imm[11:5],rs2[4:0],rs1[4:0],010,imm[4:0], 0100011";
pub const SD: &'static str = "\"sd rs2, imm (rs1)\", imm[11:5],rs2[4:0],rs1[4:0],011,imm[4:0], 0100011";
pub const FENCE_TSO: &'static str = "\"fence.tso\", 10000011001100000000000000001111";
pub const FENCE: &'static str = "\"fence imm\", imm[11:0],00000000000000001111";
pub const ECALL: &'static str = "\"ecall\", 00000000000000000000000001110011";
pub const EBREAK: &'static str = "\"ebreak\", 00000000000100000000000001110011";
pub const MUL: &'static str = "\"mul rd, rs1, rs2\", 0000001,rs2[4:0],rs1[4:0],000,rd[4:0], 0110011";
pub const MULH: &'static str = "\"mulh rd, rs1, rs2\", 0000001,rs2[4:0],rs1[4:0],001,rd[4:0], 0110011";
pub const MULHSU: &'static str = "\"mulhsu rd, rs1, rs2\", 0000001,rs2[4:0],rs1[4:0],010,rd[4:0], 0110011";
pub const MULHU: &'static str = "\"mulhu rd, rs1, rs2\", 0000001,rs2[4:0],rs1[4:0],011,rd[4:0], 0110011";
pub const DIV: &'static str = "\"div rd, rs1, rs2\", 0000001,rs2[4:0],rs1[4:0],100,rd[4:0], 0110011";
pub const DIVU: &'static str = "\"divu rd, rs1, rs2\", 0000001,rs2[4:0],rs1[4:0],101,rd[4:0], 0110011";
pub const REM: &'static str = "\"rem rd, rs1, rs2\", 0000001,rs2[4:0],rs1[4:0],110,rd[4:0], 0110011";
pub const REMU: &'static str = "\"remu rd, rs1, rs2\", 0000001,rs2[4:0],rs1[4:0],111,rd[4:0], 0110011";
pub const LR_W: &'static str = "\"lr.w rd, rs1\", 00010,00,00000,rs1[4:0],010,rd[4:0], 0101111";
pub const LR_W_AQ: &'static str = "\"lr.w.aq rd, rs1\", 00010,10,00000,rs1[4:0],010,rd[4:0], 0101111";
pub const LR_W_RL: &'static str = "\"lr.w.rl rd, rs1\", 00010,01,00000,rs1[4:0],010,rd[4:0], 0101111";
pub const LR_W_AQ_RL: &'static str = "\"lr.w.aq.rl rd, rs1\", 00010,11,00000,rs1[4:0],010,rd[4:0], 0101111";
pub const SC_W: &'static str = "\"sc.w rd, rs1 (rs2)\", 00011,00,rs2[4:0],rs1[4:0],010,rd[4:0], 0101111";
pub const SC_W_AQ: &'static str = "\"sc.w.aq rd, rs1 (rs2)\", 00011,10,rs2[4:0],rs1[4:0],010,rd[4:0], 0101111";
pub const SC_W_RL: &'static str = "\"sc.w.rl rd, rs1 (rs2)\", 00011,01,rs2[4:0],rs1[4:0],010,rd[4:0], 0101111";
pub const SC_W_AQ_RL: &'static str = "\"sc.w.aq.rl rd, rs1 (rs2)\", 00011,11,rs2[4:0],rs1[4:0],010,rd[4:0], 0101111";
pub const AMOSWAP_W: &'static str = "\"amoswap.w rd, rs1, rs2\", 00001,00,rs2[4:0],rs1[4:0],010,rd[4:0], 0101111";
pub const AMOSWAP_W_AQ: &'static str = "\"amoswap.w.aq rd, rs1, rs2\", 00001,10,rs2[4:0],rs1[4:0],010,rd[4:0], 0101111";
pub const AMOSWAP_W_RL: &'static str = "\"amoswap.w.rl rd, rs1, rs2\", 00001,01,rs2[4:0],rs1[4:0],010,rd[4:0], 0101111";
pub const AMOSWAP_W_AQ_RL: &'static str = "\"amoswap.w.aq.rl rd, rs1, rs2\", 00001,11,rs2[4:0],rs1[4:0],010,rd[4:0], 0101111";
pub const AMOADD_W: &'static str = "\"amoadd.w rd, rs1, rs2\", 00000,00,rs2[4:0],rs1[4:0],010,rd[4:0], 0101111";
pub const AMOADD_W_AQ: &'static str = "\"amoadd.w.aq rd, rs1, rs2\", 00000,10,rs2[4:0],rs1[4:0],010,rd[4:0], 0101111";
pub const AMOADD_W_RL: &'static str = "\"amoadd.w.rl rd, rs1, rs2\", 00000,01,rs2[4:0],rs1[4:0],010,rd[4:0], 0101111";
pub const AMOADD_W_AQ_RL: &'static str = "\"amoadd.w.aq.rl rd, rs1, rs2\", 00000,11,rs2[4:0],rs1[4:0],010,rd[4:0], 0101111";
pub const AMOAND_W: &'static str = "\"amoand.w rd, rs1, rs2\", 01100,00,rs2[4:0],rs1[4:0],010,rd[4:0], 0101111";
pub const AMOAND_W_AQ: &'static str = "\"amoand.w.aq rd, rs1, rs2\", 01100,10,rs2[4:0],rs1[4:0],010,rd[4:0], 0101111";
pub const AMOAND_W_RL: &'static str = "\"amoand.w.rl rd, rs1, rs2\", 01100,01,rs2[4:0],rs1[4:0],010,rd[4:0], 0101111";
pub const AMOAND_W_AQ_RL: &'static str = "\"amoand.w.aq.rl rd, rs1, rs2\", 01100,11,rs2[4:0],rs1[4:0],010,rd[4:0], 0101111";
pub const AMOOR_W: &'static str = "\"amoor.w rd, rs1, rs2\", 01000,00,rs2[4:0],rs1[4:0],010,rd[4:0], 0101111";
pub const AMOOR_W_AQ: &'static str = "\"amoor.w.aq rd, rs1, rs2\", 01000,10,rs2[4:0],rs1[4:0],010,rd[4:0], 0101111";
pub const AMOOR_W_RL: &'static str = "\"amoor.w.rl rd, rs1, rs2\", 01000,01,rs2[4:0],rs1[4:0],010,rd[4:0], 0101111";
pub const AMOOR_W_AQ_RL: &'static str = "\"amoor.w.aq.rl rd, rs1, rs2\", 01000,11,rs2[4:0],rs1[4:0],010,rd[4:0], 0101111";
pub const AMOXOR_W: &'static str = "\"amoxor.w rd, rs1, rs2\", 00100,00,rs2[4:0],rs1[4:0],010,rd[4:0], 0101111";
pub const AMOXOR_W_AQ: &'static str = "\"amoxor.w.aq rd, rs1, rs2\", 00100,10,rs2[4:0],rs1[4:0],010,rd[4:0], 0101111";
pub const AMOXOR_W_RL: &'static str = "\"amoxor.w.rl rd, rs1, rs2\", 00100,01,rs2[4:0],rs1[4:0],010,rd[4:0], 0101111";
pub const AMOXOR_W_AQ_RL: &'static str = "\"amoxor.w.aq.rl rd, rs1, rs2\", 00100,11,rs2[4:0],rs1[4:0],010,rd[4:0], 0101111";
pub const AMOMAX_W: &'static str = "\"amomax.w rd, rs1, rs2\", 10100,00,rs2[4:0],rs1[4:0],010,rd[4:0], 0101111";
pub const AMOMAX_W_AQ: &'static str = "\"amomax.w.aq rd, rs1, rs2\", 10100,10,rs2[4:0],rs1[4:0],010,rd[4:0], 0101111";
pub const AMOMAX_W_RL: &'static str = "\"amomax.w.rl rd, rs1, rs2\", 10100,01,rs2[4:0],rs1[4:0],010,rd[4:0], 0101111";
pub const AMOMAX_W_AQ_RL: &'static str = "\"amomax.w.aq.rl rd, rs1, rs2\", 10100,11,rs2[4:0],rs1[4:0],010,rd[4:0], 0101111";
pub const AMOMAXU_W: &'static str = "\"amomaxu.w rd, rs1, rs2\", 11100,00,rs2[4:0],rs1[4:0],010,rd[4:0], 0101111";
pub const AMOMAXU_W_AQ: &'static str = "\"amomaxu.w.aq rd, rs1, rs2\", 11100,10,rs2[4:0],rs1[4:0],010,rd[4:0], 0101111";
pub const AMOMAXU_W_RL: &'static str = "\"amomaxu.w.rl rd, rs1, rs2\", 11100,01,rs2[4:0],rs1[4:0],010,rd[4:0], 0101111";
pub const AMOMAXU_W_AQ_RL: &'static str = "\"amomaxu.w.aq.rl rd, rs1, rs2\", 11100,11,rs2[4:0],rs1[4:0],010,rd[4:0], 0101111";
pub const AMOMIN_W: &'static str = "\"amomin.w rd, rs1, rs2\", 10000,00,rs2[4:0],rs1[4:0],010,rd[4:0], 0101111";
pub const AMOMIN_W_AQ: &'static str = "\"amomin.w.aq rd, rs1, rs2\", 10000,10,rs2[4:0],rs1[4:0],010,rd[4:0], 0101111";
pub const AMOMIN_W_RL: &'static str = "\"amomin.w.rl rd, rs1, rs2\", 10000,01,rs2[4:0],rs1[4:0],010,rd[4:0], 0101111";
pub const AMOMIN_W_AQ_RL: &'static str = "\"amomin.w.aq.rl rd, rs1, rs2\", 10000,11,rs2[4:0],rs1[4:0],010,rd[4:0], 0101111";
pub const AMOMINU_W: &'static str = "\"amominu.w rd, rs1, rs2\", 11000,00,rs2[4:0],rs1[4:0],010,rd[4:0], 0101111";
pub const AMOMINU_W_AQ: &'static str = "\"amominu.w.aq rd, rs1, rs2\", 11000,10,rs2[4:0],rs1[4:0],010,rd[4:0], 0101111";
pub const AMOMINU_W_RL: &'static str = "\"amominu.w.rl rd, rs1, rs2\", 11000,01,rs2[4:0],rs1[4:0],010,rd[4:0], 0101111";
pub const AMOMINU_W_AQ_RL: &'static str = "\"amominu.w.aq.rl rd, rs1, rs2\", 11000,11,rs2[4:0],rs1[4:0],010,rd[4:0], 0101111";
pub const FENCE_I: &'static str = "\"fence.i\",00000000000000000000000000001111";
pub const CSRRW: &'static str = "\"csrrw rd, csr, rs1\",csr[11:0],rs1[4:0],001,rd[4:0],1110011";
pub const CSRRS: &'static str = "\"csrrs rd, csr, rs1\",csr[11:0],rs1[4:0],010,rd[4:0],1110011";
pub const CSRRC: &'static str = "\"csrrc rd, csr, rs1\",csr[11:0],rs1[4:0],011,rd[4:0],1110011";
pub const CSRRWI: &'static str = "\"csrrwi rd, csr, imm\",csr[11:0],imm[4:0],101,rd[4:0],1110011";
pub const CSRRSI: &'static str = "\"csrrsi rd, csr, imm\",csr[11:0],imm[4:0],110,rd[4:0],1110011";
pub const CSRRCI: &'static str = "\"csrrci rd, csr, imm\",csr[11:0],imm[4:0],111,rd[4:0],1110011";
pub const ILLEGAL_0: &'static str = "\"<illegal.0>\", 00000000000000000000000000000000";
pub const ILLEGAL_1: &'static str = "\"<illegal.1>\", 11111111111111111111111111111111";

/// Number of entries of the table.
pub const ENTRIES: usize = 106;

/// The text of entry `i`; the last entry stands for every index behind it.
pub open spec fn line_at(i: usize) -> Seq<char> {
    match i {
        0 => ADDI@,
        1 => ANDI@,
        2 => SLTI@,
        3 => SLTIU@,
        4 => ORI@,
        5 => XORI@,
        6 => SLLI@,
        7 => SRLI@,
        8 => SRAI@,
        9 => LUI@,
        10 => AUIPC@,
        11 => ADD@,
        12 => SLT@,
        13 => SLTU@,
        14 => AND@,
        15 => OR@,
        16 => XOR@,
        17 => SLL@,
        18 => SRL@,
        19 => SUB@,
        20 => SRA@,
        21 => NOP@,
        22 => JAL@,
        23 => JALR@,
        24 => BEQ@,
        25 => BNE@,
        26 => BLT@,
        27 => BLTU@,
        28 => BGE@,
        29 => BGEU@,
        30 => LB@,
        31 => LH@,
        32 => LW@,
        33 => LD@,
        34 => LBU@,
        35 => LHU@,
        36 => LWU@,
        37 => SB@,
        38 => SH@,
        39 => SW@,
        40 => SD@,
        41 => FENCE_TSO@,
        42 => FENCE@,
        43 => ECALL@,
        44 => EBREAK@,
        45 => MUL@,
        46 => MULH@,
        47 => MULHSU@,
        48 => MULHU@,
        49 => DIV@,
        50 => DIVU@,
        51 => REM@,
        52 => REMU@,
        53 => LR_W@,
        54 => LR_W_AQ@,
        55 => LR_W_RL@,
        56 => LR_W_AQ_RL@,
        57 => SC_W@,
        58 => SC_W_AQ@,
        59 => SC_W_RL@,
        60 => SC_W_AQ_RL@,
        61 => AMOSWAP_W@,
        62 => AMOSWAP_W_AQ@,
        63 => AMOSWAP_W_RL@,
        64 => AMOSWAP_W_AQ_RL@,
        65 => AMOADD_W@,
        66 => AMOADD_W_AQ@,
        67 => AMOADD_W_RL@,
        68 => AMOADD_W_AQ_RL@,
        69 => AMOAND_W@,
        70 => AMOAND_W_AQ@,
        71 => AMOAND_W_RL@,
        72 => AMOAND_W_AQ_RL@,
        73 => AMOOR_W@,
        74 => AMOOR_W_AQ@,
        75 => AMOOR_W_RL@,
        76 => AMOOR_W_AQ_RL@,
        77 => AMOXOR_W@,
        78 => AMOXOR_W_AQ@,
        79 => AMOXOR_W_RL@,
        80 => AMOXOR_W_AQ_RL@,
        81 => AMOMAX_W@,
        82 => AMOMAX_W_AQ@,
        83 => AMOMAX_W_RL@,
        84 => AMOMAX_W_AQ_RL@,
        85 => AMOMAXU_W@,
        86 => AMOMAXU_W_AQ@,
        87 => AMOMAXU_W_RL@,
        88 => AMOMAXU_W_AQ_RL@,
        89 => AMOMIN_W@,
        90 => AMOMIN_W_AQ@,
        91 => AMOMIN_W_RL@,
        92 => AMOMIN_W_AQ_RL@,
        93 => AMOMINU_W@,
        94 => AMOMINU_W_AQ@,
        95 => AMOMINU_W_RL@,
        96 => AMOMINU_W_AQ_RL@,
        97 => FENCE_I@,
        98 => CSRRW@,
        99 => CSRRS@,
        100 => CSRRC@,
        101 => CSRRWI@,
        102 => CSRRSI@,
        103 => CSRRCI@,
        104 => ILLEGAL_0@,
        _ => ILLEGAL_1@,
    }
}

/// The entries of the table, in order of priority.
pub open spec fn rv32ima_lines() -> Seq<Seq<char>> {
    Seq::new(ENTRIES as nat, |i: int| line_at(i as usize))
}

/// The text of entry `i`.
fn line(i: usize) -> (r: &'static str)
    ensures
        r@ == line_at(i),
{
    match i {
        0 => ADDI,
        1 => ANDI,
        2 => SLTI,
        3 => SLTIU,
        4 => ORI,
        5 => XORI,
        6 => SLLI,
        7 => SRLI,
        8 => SRAI,
        9 => LUI,
        10 => AUIPC,
        11 => ADD,
        12 => SLT,
        13 => SLTU,
        14 => AND,
        15 => OR,
        16 => XOR,
        17 => SLL,
        18 => SRL,
        19 => SUB,
        20 => SRA,
        21 => NOP,
        22 => JAL,
        23 => JALR,
        24 => BEQ,
        25 => BNE,
        26 => BLT,
        27 => BLTU,
        28 => BGE,
        29 => BGEU,
        30 => LB,
        31 => LH,
        32 => LW,
        33 => LD,
        34 => LBU,
        35 => LHU,
        36 => LWU,
        37 => SB,
        38 => SH,
        39 => SW,
        40 => SD,
        41 => FENCE_TSO,
        42 => FENCE,
        43 => ECALL,
        44 => EBREAK,
        45 => MUL,
        46 => MULH,
        47 => MULHSU,
        48 => MULHU,
        49 => DIV,
        50 => DIVU,
        51 => REM,
        52 => REMU,
        53 => LR_W,
        54 => LR_W_AQ,
        55 => LR_W_RL,
        56 => LR_W_AQ_RL,
        57 => SC_W,
        58 => SC_W_AQ,
        59 => SC_W_RL,
        60 => SC_W_AQ_RL,
        61 => AMOSWAP_W,
        62 => AMOSWAP_W_AQ,
        63 => AMOSWAP_W_RL,
        64 => AMOSWAP_W_AQ_RL,
        65 => AMOADD_W,
        66 => AMOADD_W_AQ,
        67 => AMOADD_W_RL,
        68 => AMOADD_W_AQ_RL,
        69 => AMOAND_W,
        70 => AMOAND_W_AQ,
        71 => AMOAND_W_RL,
        72 => AMOAND_W_AQ_RL,
        73 => AMOOR_W,
        74 => AMOOR_W_AQ,
        75 => AMOOR_W_RL,
        76 => AMOOR_W_AQ_RL,
        77 => AMOXOR_W,
        78 => AMOXOR_W_AQ,
        79 => AMOXOR_W_RL,
        80 => AMOXOR_W_AQ_RL,
        81 => AMOMAX_W,
        82 => AMOMAX_W_AQ,
        83 => AMOMAX_W_RL,
        84 => AMOMAX_W_AQ_RL,
        85 => AMOMAXU_W,
        86 => AMOMAXU_W_AQ,
        87 => AMOMAXU_W_RL,
        88 => AMOMAXU_W_AQ_RL,
        89 => AMOMIN_W,
        90 => AMOMIN_W_AQ,
        91 => AMOMIN_W_RL,
        92 => AMOMIN_W_AQ_RL,
        93 => AMOMINU_W,
        94 => AMOMINU_W_AQ,
        95 => AMOMINU_W_RL,
        96 => AMOMINU_W_AQ_RL,
        97 => FENCE_I,
        98 => CSRRW,
        99 => CSRRS,
        100 => CSRRC,
        101 => CSRRWI,
        102 => CSRRSI,
        103 => CSRRCI,
        104 => ILLEGAL_0,
        _ => ILLEGAL_1,
    }
}

/// The entries of the table, in order of priority.
fn table_lines() -> (lines: Vec<&'static str>)
    ensures
        lines_view(lines@) == rv32ima_lines(),
{
    let mut lines: Vec<&'static str> = Vec::new();
    let mut i: usize = 0;
    while i < ENTRIES
        invariant
            i <= ENTRIES,
            lines@.len() == i,
            forall|k: int| 0 <= k < i ==> (#[trigger] lines@[k])@ == line_at(k as usize),
        decreases ENTRIES - i,
    {
        lines.push(line(i));
        i = i + 1;
    }
    proof {
        assert(lines_view(lines@) =~= rv32ima_lines());
    }
    lines
}

impl ISA<RV32Type, Show> {
    /// Builds the table of the 32-bit instructions, with registers shown by index.
    pub fn new() -> (r: Result<ISARV32IMA, (usize, DslError)>)
        ensures
            table_of(r, rv32ima_lines(), register_dict()),
    {
        let lines = table_lines();
        ISA::from_lines(&lines, register_show_dict())
    }
}

} // verus!
