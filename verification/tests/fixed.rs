use riscv_dis::compact::{Func2, Func4, Func6, InstructionC, InstructionCFmt, OpcodeC, Register3};
use riscv_dis::fixed::{
    decode, sign_extend12, Func3, Func7, ImmFunc, Instruction, InstructionFmt, Opcode, Register,
};
use riscv_dis::fixed32::{Instruction32, Instruction32Fmt};
use riscv_dis::mnemonic::{
    find_format, mnemonic_key, opcode_of, render, render_word, Mnemonic, MnemonicKey,
};
use riscv_dis::stream::{idata_size, next_idata, split_stream, IData};

#[test]
fn format_r() {
    // add x3, x1, x2
    let op = opcode_of(0x002081B3);
    assert_eq!(op, Opcode::new(0x33));
    let i = decode(&InstructionFmt::R, 0x002081B3, &op);
    assert!(
        i == Instruction::R {
            func7: Func7::new(0),
            rs2: Register::new(2),
            rs1: Register::new(1),
            func3: Func3::new(0),
            rd: Register::new(3),
            opcode: op,
        }
    );
    // sub keeps bit 30 and every other bit of funct7
    let i = decode(&InstructionFmt::R, 0xFE00_0033, &op);
    match i {
        Instruction::R { func7, .. } => assert_eq!(func7.v, 0x7F),
        _ => panic!(),
    }
    let i = decode(&InstructionFmt::R, 0x4000_0033, &op);
    match i {
        Instruction::R { func7, .. } => assert_eq!(func7.v, 0x20),
        _ => panic!(),
    }
}

#[test]
fn format_i() {
    // addi x5, x6, -1
    let v = 0xFFF30293;
    let i = decode(&InstructionFmt::I, v, &opcode_of(v));
    assert!(
        i == Instruction::I {
            immfunc: ImmFunc::from_imm(0xFFF),
            rs1: Register::new(6),
            func3: Func3::new(0),
            rd: Register::new(5),
            opcode: Opcode::new(0x13),
        }
    );
}

#[test]
fn format_s() {
    // sw x2, 0x7A5(x1): imm[11:5] = 0x3D, imm[4:0] = 0x05
    let v = (0x3D << 25) | (2 << 20) | (1 << 15) | (2 << 12) | (0x05 << 7) | 0x23;
    let i = decode(&InstructionFmt::S, v, &opcode_of(v));
    assert!(
        i == Instruction::S {
            imm: 0x7A5,
            rs2: Register::new(2),
            rs1: Register::new(1),
            func3: Func3::new(2),
            opcode: Opcode::new(0x23),
        }
    );
    // the top bit of the immediate is kept
    let v = 0xFE00_0FA3;
    match decode(&InstructionFmt::S, v, &opcode_of(v)) {
        Instruction::S { imm, .. } => assert_eq!(imm, 0xFFF),
        _ => panic!(),
    }
}

#[test]
fn format_sb() {
    // every immediate bit set: bits 31, 30:25, 11:8, 7
    let v = 0xFE00_0FE3;
    match decode(&InstructionFmt::SB, v, &opcode_of(v)) {
        Instruction::SB { imm, rs1, rs2, func3, .. } => {
            assert_eq!(imm, 0x1FFE);
            assert_eq!((rs1.v, rs2.v, func3.v), (0, 0, 0));
        },
        _ => panic!(),
    }
    for (bit, place) in [(31u32, 12u32), (7, 11), (30, 10), (25, 5), (11, 4), (8, 1)] {
        let v = (1u32 << bit) | 0x63;
        match decode(&InstructionFmt::SB, v, &opcode_of(v)) {
            Instruction::SB { imm, .. } => assert_eq!(imm, 1 << place),
            _ => panic!(),
        }
    }
    // beq x1, x2, +8
    let v = (2 << 20) | (1 << 15) | (0x4 << 8) | 0x63;
    match decode(&InstructionFmt::SB, v, &opcode_of(v)) {
        Instruction::SB { imm, rs1, rs2, .. } => {
            assert_eq!(imm, 8);
            assert_eq!((rs1.v, rs2.v), (1, 2));
        },
        _ => panic!(),
    }
}

#[test]
fn format_u() {
    // lui x7, 0xABCDE
    let v = 0xABCDE3B7;
    assert!(
        decode(&InstructionFmt::U, v, &opcode_of(v)) == Instruction::U {
            imm: 0xABCDE000,
            rd: Register::new(7),
            opcode: Opcode::new(0x37),
        }
    );
}

#[test]
fn format_uj() {
    for (bit, place) in [(31u32, 20u32), (19, 19), (12, 12), (20, 11), (30, 10), (21, 1)] {
        let v = (1u32 << bit) | 0x6F;
        match decode(&InstructionFmt::UJ, v, &opcode_of(v)) {
            Instruction::UJ { imm, .. } => assert_eq!(imm, 1 << place),
            _ => panic!(),
        }
    }
    let v = 0xFFFF_F0EF;
    match decode(&InstructionFmt::UJ, v, &opcode_of(v)) {
        Instruction::UJ { imm, rd, .. } => {
            assert_eq!(imm, 0x1FFFFE);
            assert_eq!(rd.v, 1);
        },
        _ => panic!(),
    }
}

#[test]
fn fields_as_text_agree_with_the_narrow_integers() {
    for v in 0..128u8 {
        assert_eq!(Opcode::new(v).to_string(), format!("{:#04X}", ux::u7::new(v)));
        assert_eq!(Func7::new(v).to_string(), format!("{:#04X}", ux::u7::new(v)));
    }
    for v in 0..8u8 {
        assert_eq!(Func3::new(v).to_string(), format!("{:#X}", ux::u3::new(v)));
        assert_eq!(Register3::new(v).to_string(), format!("x{}", ux::u3::new(v)));
    }
    for v in 0..32u8 {
        assert_eq!(Register::new(v).to_string(), format!("x{}", ux::u5::new(v)));
    }
    for v in 0..4u8 {
        assert_eq!(OpcodeC::new(v).to_string(), format!("{}", ux::u2::new(v)));
        assert_eq!(Func2::new(v).to_string(), format!("{:#X}", ux::u2::new(v)));
    }
    for v in 0..16u8 {
        assert_eq!(Func4::new(v).to_string(), format!("{:#X}", ux::u4::new(v)));
    }
    for v in 0..64u8 {
        assert_eq!(Func6::new(v).to_string(), format!("{:#X}", ux::u6::new(v)));
    }
    assert_eq!(Opcode::new(0x13).to_string(), "0x13");
    assert_eq!(Opcode::new(3).to_string(), "0x03");
    assert_eq!(Register::new(31).to_string(), "x31");
}

#[test]
fn immediates_as_text() {
    assert_eq!(ImmFunc::from_imm(4095).to_string(), format!("imm: {}", ux::u12::new(4095)));
    assert_eq!(ImmFunc::from_const(7).to_string(), format!("cst: {}", ux::u12::new(7)));
    assert_eq!(
        ImmFunc::from_func_imm(Func7::new(0x20), 3).to_string(),
        format!("func7: {:#04X}, imm: {:#04X}", ux::u7::new(0x20), ux::u5::new(3))
    );
    assert_eq!(ImmFunc::from_func_imm(Func7::new(0x20), 3).to_string(), "func7: 0x20, imm: 0x03");
    assert_eq!(ImmFunc::from_const(7).cst12(), Some(7));
    assert_eq!(ImmFunc::from_imm(7).cst12(), None);
    assert_eq!(ImmFunc::from_func_imm(Func7::new(1), 3).func7(), Some(Func7::new(1)));
    assert_eq!(ImmFunc::from_imm(7).func7(), None);
}

#[test]
fn records_as_text() {
    let op = Opcode::new(0x33);
    let r = decode(&InstructionFmt::R, 0x002081B3, &op);
    assert_eq!(r.to_string(), "fmt: R, func7: 0x00, rs2: x2, rs1: x1, func3: 0x0, rd: x3");
    assert_eq!(
        r.to_debug_string(),
        "op: 0x33, fmt: R, func7: 0x00, rs2: x2, rs1: x1, func3: 0x0, rd: x3"
    );
    let v = 0xFFF30293;
    let i = decode(&InstructionFmt::I, v, &opcode_of(v));
    assert_eq!(i.to_string(), "fmt: I, imm: 4095, rs1 : x6, func3 : 0x0, rd : x5");
    let v = 0xFE00_0FA3;
    let s = decode(&InstructionFmt::S, v, &opcode_of(v));
    assert_eq!(s.to_string(), "fmt: S, imm: 0x0FFF, rs2: x0, rs1: x0, func3: 0x0");
    let v = 0xFE00_0FE3;
    let sb = decode(&InstructionFmt::SB, v, &opcode_of(v));
    assert_eq!(sb.to_string(), "fmt: S, imm: 0x1FFE, rs2: x0, rs1: x0, func3: 0x0");
    let v = 0xABCDE3B7;
    let u = decode(&InstructionFmt::U, v, &opcode_of(v));
    assert_eq!(u.to_string(), "fmt: U, imm: 0xABCDE000, rd : x7");
    assert_eq!(u.to_debug_string(), "op: 0x37, fmt: U, imm: 0xABCDE000, rd : x7");
    let v = 0x0000_10EF;
    let uj = decode(&InstructionFmt::UJ, v, &opcode_of(v));
    assert_eq!(uj.to_string(), "fmt: U, imm: 0x00001000, rd : x1");
    assert_eq!(uj.get_opcode(), Opcode::new(0x6F));
}

#[test]
fn split_records_as_text() {
    let op = Opcode::new(0x13);
    let rs1 = Register::new(6);
    let rd = Register::new(5);
    let func3 = Func3::new(1);
    let i = Instruction32::I { imm: 12, rs1, func3, rd, opcode: op };
    assert_eq!(i.to_string(), "fmt: I, imm : 12, rs1 : x6, func3 : 0x1, rd : x5");
    assert_eq!(i.to_debug_string(), "op: 0x13, fmt: I, imm : 12, rs1 : x6, func3 : 0x1, rd : x5");
    let ic = Instruction32::IC { cst: 1, rs1, func3, rd, opcode: op };
    assert_eq!(ic.to_string(), "fmt: Ic, cst : 1, rs1 : x6, func3 : 0x1, rd : x5");
    assert_eq!(ic.to_debug_string(), "op: 0x13, fmt: I, cst : 1, rs1 : x6, func3 : 0x1, rd : x5");
    let f = Instruction32::IF { func7: Func7::new(0x20), imm: 31, rs1, func3, rd, opcode: op };
    assert_eq!(f.to_string(), "fmt: If, func7 : 0x20, imm : 31, rs1 : x6, func3 : 0x1, rd : x5");
    assert_eq!(
        f.to_debug_string(),
        "op: 0x13, fmt: I, func7 : 0x20, imm : 31, rs1 : x6, func3 : 0x1, rd : x5"
    );
    let r = Instruction32::R { func7: Func7::new(1), rs2: rd, rs1, func3, rd, opcode: op };
    assert_eq!(r.to_string(), "fmt: R, func7: 0x01, rs2: x5, rs1: x6, func3: 0x1, rd: x5");
    let s = Instruction32::S { imm: 0xABC, rs2: rd, rs1, func3, opcode: op };
    assert_eq!(s.to_string(), "fmt: S, imm: 0x0ABC, rs2: x5, rs1: x6, func3: 0x1");
    let sb = Instruction32::SB { imm: 0x1ABC, rs2: rd, rs1, func3, opcode: op };
    assert_eq!(sb.to_string(), "fmt: S, imm: 0x1ABC, rs2: x5, rs1: x6, func3: 0x1");
    let u = Instruction32::U { imm: 0x1000, rd, opcode: op };
    assert_eq!(u.to_string(), "fmt: U, imm: 0x00001000, rd : x5");
    let uj = Instruction32::UJ { imm: 0x1FFFFE, rd, opcode: op };
    assert_eq!(uj.to_debug_string(), "op: 0x13, fmt: U, imm: 0x001FFFFE, rd : x5");
    assert_eq!(uj.get_opcode(), op);
    assert_ne!(Instruction32Fmt::IC, Instruction32Fmt::IF);
}

#[test]
fn compact_records() {
    let i = InstructionC::CJ { func3: Func3::new(1), target: 0x7FF, opcode: OpcodeC::new(1) };
    assert_eq!(i.get_format(), InstructionCFmt::CJ);
    let i = InstructionC::CA {
        func6: Func6::new(0x23),
        rdrs1prime: Register3::new(1),
        func2: Func2::new(0),
        rs2prime: Register3::new(2),
        opcode: OpcodeC::new(1),
    };
    assert_eq!(i.get_format(), InstructionCFmt::CA);
    let i = InstructionC::CR {
        func4: Func4::new(8),
        rdrs1: Register::new(10),
        rs2: Register::new(3),
        opcode: OpcodeC::new(2),
    };
    assert_eq!(i.get_format(), InstructionCFmt::CR);
    let op = riscv_dis::compact_ops::InstructionC::MV { rd: Register::new(10), rs2: Register::new(3) };
    assert_ne!(op, riscv_dis::compact_ops::InstructionC::NOP);
}

#[test]
fn mnemonics() {
    let names = vec![
        Mnemonic {
            key: MnemonicKey { opcode: 0x33, func3: Some(0), selector: Some(0x20) },
            name: String::from("sub"),
        },
        Mnemonic {
            key: MnemonicKey { opcode: 0x33, func3: Some(0), selector: Some(0) },
            name: String::from("add"),
        },
        Mnemonic {
            key: MnemonicKey { opcode: 0x37, func3: None, selector: None },
            name: String::from("lui"),
        },
        Mnemonic {
            key: MnemonicKey { opcode: 0x33, func3: Some(0), selector: Some(0) },
            name: String::from("later"),
        },
    ];
    let v = 0x002081B3;
    let add = decode(&InstructionFmt::R, v, &opcode_of(v));
    assert_eq!(
        mnemonic_key(&add),
        MnemonicKey { opcode: 0x33, func3: Some(0), selector: Some(0) }
    );
    assert_eq!(
        render(&add, &names),
        "add, fmt: R, func7: 0x00, rs2: x2, rs1: x1, func3: 0x0, rd: x3"
    );
    let v = 0x402081B3;
    let sub = decode(&InstructionFmt::R, v, &opcode_of(v));
    assert_eq!(
        render(&sub, &names),
        "sub, fmt: R, func7: 0x20, rs2: x2, rs1: x1, func3: 0x0, rd: x3"
    );
    let v = 0xABCDE3B7;
    let lui = decode(&InstructionFmt::U, v, &opcode_of(v));
    assert_eq!(render(&lui, &names), "lui, fmt: U, imm: 0xABCDE000, rd : x7");
    // an opcode that the table does not know is shown by its value
    let v = 0x0000_007F;
    let unknown = decode(&InstructionFmt::U, v, &opcode_of(v));
    assert_eq!(render(&unknown, &names), "op: 0x7F, fmt: U, imm: 0x00000000, rd : x0");
    let v = 0xFFF30293;
    let addi = decode(&InstructionFmt::I, v, &opcode_of(v));
    assert_eq!(mnemonic_key(&addi), MnemonicKey { opcode: 0x13, func3: Some(0), selector: None });
    assert_eq!(
        render(&addi, &names),
        "op: 0x13, fmt: I, imm: 4095, rs1 : x6, func3 : 0x0, rd : x5"
    );
}

#[test]
fn words_of_a_stream() {
    assert_eq!(idata_size(0x13), 4);
    assert_eq!(idata_size(0xFF), 4);
    assert_eq!(idata_size(0x01), 2);
    assert_eq!(idata_size(0x02), 2);
    assert_eq!(idata_size(0x00), 2);
    let bytes: Vec<u8> = vec![0x01, 0x00, 0xB3, 0x81, 0x20, 0x00, 0x6D, 0x34, 0x13];
    assert_eq!(next_idata(&bytes, 0), Some((IData::Half(0x0001), 2)));
    assert_eq!(next_idata(&bytes, 2), Some((IData::Word(0x002081B3), 6)));
    assert_eq!(next_idata(&bytes, 6), Some((IData::Half(0x346D), 8)));
    assert_eq!(next_idata(&bytes, 8), None);
    assert_eq!(next_idata(&bytes, 9), None);
    assert_eq!(next_idata(&bytes, 100), None);
    assert_eq!(
        split_stream(&bytes),
        vec![IData::Half(0x0001), IData::Word(0x002081B3), IData::Half(0x346D)]
    );
    assert_eq!(split_stream(&vec![]), vec![]);
    assert_eq!(split_stream(&vec![0x01]), vec![]);
    assert_eq!(split_stream(&vec![0x03, 0, 0]), vec![]);
    assert_eq!(split_stream(&vec![0x78, 0x56, 0x34, 0x12]), vec![IData::Half(0x5678), IData::Half(0x1234)]);
    assert_eq!(split_stream(&vec![0x7B, 0x56, 0x34, 0x12]), vec![IData::Word(0x1234567B)]);
}

#[test]
fn words_as_text() {
    let formats = vec![
        (Opcode::new(0x33), InstructionFmt::R),
        (Opcode::new(0x13), InstructionFmt::I),
        (Opcode::new(0x23), InstructionFmt::S),
        (Opcode::new(0x63), InstructionFmt::SB),
        (Opcode::new(0x37), InstructionFmt::U),
        (Opcode::new(0x6F), InstructionFmt::UJ),
        (Opcode::new(0x33), InstructionFmt::U),
    ];
    let names = vec![Mnemonic {
        key: MnemonicKey { opcode: 0x33, func3: Some(0), selector: Some(0) },
        name: String::from("add"),
    }];
    assert_eq!(find_format(&formats, Opcode::new(0x33)), Some(InstructionFmt::R));
    assert_eq!(find_format(&formats, Opcode::new(0x6F)), Some(InstructionFmt::UJ));
    assert_eq!(find_format(&formats, Opcode::new(0x7F)), None);
    assert_eq!(
        render_word(0x002081B3, &formats, &names),
        "add, fmt: R, func7: 0x00, rs2: x2, rs1: x1, func3: 0x0, rd: x3"
    );
    assert_eq!(
        render_word(0xABCDE3B7, &formats, &names),
        "op: 0x37, fmt: U, imm: 0xABCDE000, rd : x7"
    );
    assert_eq!(render_word(0xFFFF_FFFF, &formats, &names), "op: 0x7F");
    assert_eq!(render_word(0x0000_0000, &formats, &names), "op: 0x00");
}

#[test]
fn signed_immediates() {
    assert_eq!(sign_extend12(0), 0);
    assert_eq!(sign_extend12(1), 1);
    assert_eq!(sign_extend12(0x7FF), 2047);
    assert_eq!(sign_extend12(0x800), -2048);
    assert_eq!(sign_extend12(0xFFF), -1);
}
