use riscv_dis::decode::{decode, decode16};
use riscv_dis::dsl::{entry_from_text, instruction16, instruction32};
use riscv_dis::lexer::tokenize;
use riscv_dis::isa::{ISARV32C, ISARV32IMA};
use riscv_dis::layout::{BinaryInstruction, Item};
use riscv_dis::template::{TextInstruction, TextInstructionPart};
use riscv_dis::width::{CompactType, RV32Type};

#[test]
#[allow(non_snake_case)]
fn isa32C_ok() {
    let r = entry_from_text::<CompactType>(
        "\"c.addi4spn rd imm\", 000, imm[5:4|9:6|2|3], rd[2:0], 00",
    );
    println!("{:?}", r);
    assert!(true);
    assert!(r.is_ok());
}

#[test]
fn isa32_c_ok() {
    let isa = ISARV32C::new();
    println!("{:?}", isa);
    assert!(true);
    assert!(isa.is_ok());
    assert_eq!(isa.unwrap().list.len(), 28);
}

#[test]
fn isa32_c_i1() {
    let tokens = tokenize("\"c.nop\", 000, imm[5], 00000, imm[4:0], 01").unwrap();
    let i1 = instruction16(&tokens).unwrap();
    let list = vec![
        Item::Bits { len: 3, val: 0 },
        Item::Ident { name: String::from("imm"), bitspec: vec![5] },
        Item::Bits { len: 5, val: 0 },
        Item::Ident { name: String::from("imm"), bitspec: vec![4, 3, 2, 1, 0] },
        Item::Bits { len: 2, val: 1 },
    ];
    let bin = BinaryInstruction { list };
    let text = TextInstruction { list: vec![TextInstructionPart::Text(String::from("c.nop"))] };
    assert_eq!(*i1.text(), text);
    assert_eq!(*i1.bin(), bin);
}

#[test]
fn isa32_i_ok() {
    let isa = ISARV32IMA::new();
    println!("{:?}", isa);
    assert!(true);
    assert!(isa.is_ok());
    assert_eq!(isa.unwrap().list.len(), 106);
}

#[test]
fn isa32_i_i1() {
    let tokens = tokenize("\"nop\", 00000000000000000000000000010011").unwrap();
    let i1 = instruction32(&tokens).unwrap();

    let list = vec![Item::Bits { len: 32, val: 0x13 }];
    let bin = BinaryInstruction { list };
    let text = TextInstruction { list: vec![TextInstructionPart::Text(String::from("nop"))] };
    assert_eq!(*i1.text(), text);
    assert_eq!(*i1.bin(), bin);
}

#[test]
fn compact_table_decodes_known_words() {
    let isa = ISARV32C::new().unwrap();
    assert_eq!(decode16(0b0000000000000001, &isa), "c.nop");
    assert_eq!(decode16(0b0011010001101101, &isa), "c.jal 0xAAA");
    // c.mv: 1000 rd=01010 rs2=00011 10
    assert_eq!(decode16(0b1000_01010_00011_10, &isa), "c.mv r10, r3");
    // the first entry that matches wins: c.addi4spn stands before <illegal>
    assert_eq!(decode16(0, &isa), "c.addi4spn r0, 0x0");
    assert_eq!(decode::<CompactType, _>(0, &isa), "c.addi4spn r0, 0x0");
}

#[test]
fn compact_table_reports_unknown_words() {
    let isa = ISARV32C::new().unwrap();
    // 32-bit words end in 11 and match no compact entry
    assert_eq!(decode16(0xFFFF, &isa), "c. Not Found!");
    assert_eq!(decode::<CompactType, _>(0xFFFF, &isa), "CompactType. Not found!");
}

#[test]
fn base_table_decodes_known_words() {
    let isa = ISARV32IMA::new().unwrap();
    // add x3, x1, x2
    assert_eq!(decode::<RV32Type, _>(0x002081B3, &isa), "add r3, r1, r2");
    // the first entry that matches wins: addi stands before nop
    assert_eq!(decode::<RV32Type, _>(0x00000013, &isa), "addi r0, r0, 0x0");
    // addi x5, x6, 0x7FF
    assert_eq!(decode::<RV32Type, _>(0x7FF30293, &isa), "addi r5, r6, 0x7FF");
    assert_eq!(decode::<RV32Type, _>(0x00000000, &isa), "<illegal.0>");
    assert_eq!(decode::<RV32Type, _>(0xFFFFFFFF, &isa), "<illegal.1>");
    assert_eq!(decode::<RV32Type, _>(0x00000073, &isa), "ecall");
}

#[test]
fn base_table_reports_unknown_words() {
    let isa = ISARV32IMA::new().unwrap();
    assert_eq!(decode::<RV32Type, _>(0x0000007F, &isa), "RV32Type. Not found!");
}

/// The mask and pattern of a layout, accumulated by rotating the word.
fn rotated16(bin: &BinaryInstruction<CompactType>) -> (u16, u16) {
    let mut mask = 0u16;
    let mut pattern = 0u16;
    for item in &bin.list {
        match item {
            Item::Bits { len, val } => {
                for _ in 0..*len {
                    mask = mask << 1;
                    mask = mask | 1;
                }
                pattern = pattern.rotate_left(*len as u32);
                pattern = pattern | *val;
            }
            Item::Ident { name: _, bitspec } => {
                let l = bitspec.len();
                mask = mask.rotate_left(l as u32);
                pattern = pattern.rotate_left(l as u32);
            }
        }
    }
    (mask, pattern)
}

/// The mask and pattern of a layout, accumulated by rotating the word.
fn rotated32(bin: &BinaryInstruction<RV32Type>) -> (u32, u32) {
    let mut mask = 0u32;
    let mut pattern = 0u32;
    for item in &bin.list {
        match item {
            Item::Bits { len, val } => {
                for _ in 0..*len {
                    mask = mask << 1;
                    mask = mask | 1;
                }
                pattern = pattern.rotate_left(*len as u32);
                pattern = pattern | *val;
            }
            Item::Ident { name: _, bitspec } => {
                let l = bitspec.len();
                mask = mask.rotate_left(l as u32);
                pattern = pattern.rotate_left(l as u32);
            }
        }
    }
    (mask, pattern)
}

#[test]
fn shifting_and_rotating_give_the_same_masks() {
    let isa = ISARV32C::new().unwrap();
    for entry in &isa.list {
        assert_eq!((entry.mask(), entry.pattern()), rotated16(entry.bin()));
        assert_eq!(entry.pattern() & !entry.mask(), 0);
    }
    let isa = ISARV32IMA::new().unwrap();
    for entry in &isa.list {
        assert_eq!((entry.mask(), entry.pattern()), rotated32(entry.bin()));
        assert_eq!(entry.pattern() & !entry.mask(), 0);
    }
}

#[test]
fn table_entries_show_their_layout() {
    let isa = ISARV32C::new().unwrap();
    let written: Vec<String> = isa.list[3].bin().list.iter().map(|i| i.to_string()).collect();
    assert_eq!(written, vec!["000", "imm[5]", "00000", "imm[4, 3, 2, 1, 0]", "01"]);
}
