use riscv_dis::extract::extract_idents;
use riscv_dis::layout::{BinaryInstruction, Item};
use riscv_dis::template::{TextInstruction, TextInstructionPart};
use riscv_dis::width::CompactType;

fn jal_layout() -> BinaryInstruction<CompactType> {
    let list = vec![
        Item::<CompactType>::Bits { len: 3, val: 1 },
        Item::<CompactType>::Ident {
            name: String::from("imm"),
            bitspec: vec![11, 4, 9, 8, 10, 6, 7, 3, 2, 1, 5],
        },
        Item::<CompactType>::Bits { len: 2, val: 1 },
    ];
    BinaryInstruction::<CompactType> { list }
}

#[test]
fn decode_extract_id_1() {
    //c.jal
    let jal_bin = jal_layout();
    let instr = 0b0011010001101101_u16;
    let r = extract_idents(instr, &jal_bin);
    assert_eq!(r.len(), 1);
    let (name, v, start) = &r[0];
    assert_eq!(name, "imm");
    assert_eq!(*v, 0xAAA); //Note: value not shifted by start bit
    assert_eq!(*start, 1);
}

#[test]
fn decode16_extract_id_1() {
    //c.jal
    let jal_bin = jal_layout();
    let instr = 0b0011010001101101_u16;
    let r = extract_idents(instr, &jal_bin);
    assert_eq!(r.len(), 1);
    let (name, v, start) = &r[0];
    assert_eq!(name, "imm");
    assert_eq!(*v, 0xAAA); //Note: value not shifted by start bit
    assert_eq!(*start, 1);
}

#[test]
fn instruction_ti1() {
    assert_eq!(
        TextInstruction::from("c.nop"),
        TextInstruction { list: vec![TextInstructionPart::text("c.nop")] }
    );
}

#[test]
fn instruction_ti2() {
    assert_eq!(
        TextInstruction::from("mv rd, rs1"),
        TextInstruction {
            list: vec![
                TextInstructionPart::text_ident("mv ", "rd"),
                TextInstructionPart::text_ident(", ", "rs1"),
            ]
        }
    );
}

#[test]
fn instruction_ti3() {
    assert_eq!(
        TextInstruction::from("c.sw rs1, imm (rs2)"),
        TextInstruction {
            list: vec![
                TextInstructionPart::text_ident("c.sw ", "rs1"),
                TextInstructionPart::text_ident(", ", "imm"),
                TextInstructionPart::text_ident(" (", "rs2"),
                TextInstructionPart::text(")"),
            ]
        }
    );
}

#[test]
fn primitives_ti1() {
    assert_eq!(
        TextInstruction::from("c.nop"),
        TextInstruction { list: vec![TextInstructionPart::text("c.nop")] }
    );
}

#[test]
fn primitives_ti2() {
    assert_eq!(
        TextInstruction::from("mv rd, rs1"),
        TextInstruction {
            list: vec![
                TextInstructionPart::text_ident("mv ", "rd"),
                TextInstructionPart::text_ident(", ", "rs1"),
            ]
        }
    );
}

#[test]
fn primitives_ti3() {
    assert_eq!(
        TextInstruction::from("c.sw rs1, imm (rs2)"),
        TextInstruction {
            list: vec![
                TextInstructionPart::text_ident("c.sw ", "rs1"),
                TextInstructionPart::text_ident(", ", "imm"),
                TextInstructionPart::text_ident(" (", "rs2"),
                TextInstructionPart::text(")"),
            ]
        }
    );
}

use riscv_dis::decode::{decode, render, try_instruction};
use riscv_dis::entry::Instruction;
use riscv_dis::extract::find_field;
use riscv_dis::isa::ISA;
use riscv_dis::layout::{bits_len, check_layout, LayoutError};
use riscv_dis::pattern::{check, mask_pattern};
use riscv_dis::show::{Show, ShowDict, ShowFun};
use riscv_dis::width::{Num, RV32Type};

fn nop_layout() -> BinaryInstruction<CompactType> {
    BinaryInstruction {
        list: vec![
            Item::Bits { len: 3, val: 0b000 },
            Item::Ident { name: String::from("imm"), bitspec: vec![5] },
            Item::Bits { len: 5, val: 0b00000 },
            Item::Ident { name: String::from("imm"), bitspec: vec![4, 3, 2, 1, 0] },
            Item::Bits { len: 2, val: 0b01 },
        ],
    }
}

#[test]
fn nop_word_matches_and_renders_verbatim() {
    let entry = Instruction::new(nop_layout(), TextInstruction::from("c.nop")).unwrap();
    assert_eq!(entry.mask(), 0b1110_1111_1000_0011);
    assert_eq!(entry.pattern(), 0b0000_0000_0000_0001);
    let dict: ShowDict<Show> = ShowDict::new();
    let word = 0b0000000000000001_u16;
    assert_eq!(word & entry.mask(), entry.pattern());
    assert_eq!(try_instruction(word, &entry, &dict), Some(String::from("c.nop")));
    let fields = extract_idents(word, entry.bin());
    assert_eq!(fields, vec![(String::from("imm"), 0, 0)]);
}

#[test]
fn nop_fields_merge_into_one_entry() {
    // imm[5] is word bit 12, imm[4:0] are word bits 6 to 2
    let word = 0b0001_0000_0101_0101_u16;
    let fields = extract_idents(word, &nop_layout());
    assert_eq!(fields.len(), 1);
    assert_eq!(fields[0], (String::from("imm"), 0b110101, 0));
}

#[test]
fn merged_value_is_or_of_the_segments() {
    let word = 0b0001_0000_0101_0101_u16;
    let high = BinaryInstruction::<CompactType> {
        list: vec![
            Item::Bits { len: 3, val: 0 },
            Item::Ident { name: String::from("imm"), bitspec: vec![5] },
            Item::Bits { len: 12, val: 0 },
        ],
    };
    let low = BinaryInstruction::<CompactType> {
        list: vec![
            Item::Bits { len: 9, val: 0 },
            Item::Ident { name: String::from("imm"), bitspec: vec![4, 3, 2, 1, 0] },
            Item::Bits { len: 2, val: 0 },
        ],
    };
    let a = extract_idents(word, &high)[0].1;
    let b = extract_idents(word, &low)[0].1;
    assert_eq!(a, 0b100000);
    assert_eq!(b, 0b010101);
    assert_eq!(extract_idents(word, &nop_layout())[0].1, a | b);
}

#[test]
fn scattered_immediate_round_trips() {
    // c.jal scatters an immediate of 12 bits whose bit 0 has no place
    let dests = [11u32, 4, 9, 8, 10, 6, 7, 3, 2, 1, 5];
    for imm in [0u32, 0xAAA, 0x554, 0xFFE, 0x802, 0x020] {
        let mut word: u16 = 0b001_00000000000_01;
        for (j, d) in dests.iter().enumerate() {
            let bit = ((imm >> d) & 1) as u16;
            word |= bit << (12 - j);
        }
        let fields = extract_idents(word, &jal_layout());
        assert_eq!(fields[0].1, imm);
    }
}

#[test]
fn fields_keep_the_order_of_first_occurrence() {
    let bin = BinaryInstruction::<CompactType> {
        list: vec![
            Item::Ident { name: String::from("b"), bitspec: vec![1] },
            Item::Ident { name: String::from("a"), bitspec: vec![7, 6] },
            Item::Ident { name: String::from("b"), bitspec: vec![0] },
            Item::Bits { len: 12, val: 0 },
        ],
    };
    let fields = extract_idents(0b1_01_1_000000000000, &bin);
    assert_eq!(
        fields,
        vec![(String::from("b"), 0b11, 0), (String::from("a"), 0b01000000, 6)]
    );
    assert_eq!(find_field(&fields, &String::from("a")), Some(1));
    assert_eq!(find_field(&fields, &String::from("c")), None);
}

#[test]
fn mask_and_pattern_of_jal() {
    let (mask, pattern) = mask_pattern(&jal_layout());
    assert_eq!(mask, 0b1110_0000_0000_0011);
    assert_eq!(pattern, 0b0010_0000_0000_0001);
    assert_eq!(mask | !mask, 0xFFFF);
    assert_eq!(pattern & !mask, 0);
    assert!(check(0b0011010001101101_u16, &jal_layout()));
    assert!(!check(0b0111010001101101_u16, &jal_layout()));
    assert!(!check(0b0011010001101110_u16, &jal_layout()));
}

#[test]
fn mask_of_a_full_literal() {
    let bin = BinaryInstruction::<RV32Type> { list: vec![Item::Bits { len: 32, val: 0x13 }] };
    let (mask, pattern) = mask_pattern(&bin);
    assert_eq!(mask, 0xFFFF_FFFF);
    assert_eq!(pattern, 0x13);
    assert_eq!(bits_len(&bin.list), 32);
}

#[test]
fn match_test_is_the_mask_test_for_every_compact_word() {
    let entry = Instruction::new(jal_layout(), TextInstruction::from("c.jal imm")).unwrap();
    let dict: ShowDict<Show> = ShowDict::new();
    for w in 0..=u16::MAX {
        let matched = try_instruction(w, &entry, &dict).is_some();
        assert_eq!(matched, w & entry.mask() == entry.pattern());
        assert_eq!(matched, (w >> 13) == 1 && (w & 3) == 1);
    }
}

#[test]
fn layout_check_names_the_first_defect() {
    let empty = BinaryInstruction::<CompactType> {
        list: vec![
            Item::Bits { len: 16, val: 0 },
            Item::Ident { name: String::from("imm"), bitspec: vec![] },
        ],
    };
    assert_eq!(check_layout(&empty), Err(LayoutError::EmptyBitspec));
    assert!(matches!(
        Instruction::new(empty, TextInstruction::from("x")),
        Err(LayoutError::EmptyBitspec)
    ));

    let far = BinaryInstruction::<CompactType> {
        list: vec![
            Item::Bits { len: 15, val: 0 },
            Item::Ident { name: String::from("imm"), bitspec: vec![32] },
        ],
    };
    assert_eq!(check_layout(&far), Err(LayoutError::BitOutOfRange));

    let wide = BinaryInstruction::<CompactType> {
        list: vec![Item::Bits { len: 3, val: 8 }, Item::Bits { len: 13, val: 0 }],
    };
    assert_eq!(check_layout(&wide), Err(LayoutError::LiteralOverflow));

    let short = BinaryInstruction::<CompactType> { list: vec![Item::Bits { len: 15, val: 0 }] };
    assert_eq!(check_layout(&short), Err(LayoutError::WidthMismatch));

    let long = BinaryInstruction::<CompactType> {
        list: vec![Item::Bits { len: 16, val: 0 }, Item::Bits { len: 1, val: 0 }],
    };
    assert_eq!(check_layout(&long), Err(LayoutError::WidthMismatch));

    // the scan stops at the first defect: the overflow stands before the empty field
    let two = BinaryInstruction::<CompactType> {
        list: vec![
            Item::Bits { len: 1, val: 2 },
            Item::Ident { name: String::from("imm"), bitspec: vec![] },
        ],
    };
    assert_eq!(check_layout(&two), Err(LayoutError::LiteralOverflow));

    assert_eq!(check_layout(&jal_layout()), Ok(()));
    assert_eq!(check_layout(&nop_layout()), Ok(()));
    let empty_list = BinaryInstruction::<CompactType> { list: vec![] };
    assert_eq!(check_layout(&empty_list), Err(LayoutError::WidthMismatch));
}

#[test]
fn a_compact_layout_is_not_a_base_layout() {
    let list = vec![Item::<RV32Type>::Bits { len: 16, val: 0 }];
    assert_eq!(
        check_layout(&BinaryInstruction::<RV32Type> { list }),
        Err(LayoutError::WidthMismatch)
    );
}

#[test]
fn illegal_sentinel_table() {
    let bin = BinaryInstruction::<RV32Type> { list: vec![Item::Bits { len: 32, val: 0 }] };
    let entry = Instruction::new(bin, TextInstruction::from("<illegal>")).unwrap();
    let isa: ISA<RV32Type, Show> = ISA { list: vec![entry], show_dict: ShowDict::new() };
    assert_eq!(decode(0x00000000_u32, &isa), "<illegal>");
    assert_eq!(decode(0x00000001_u32, &isa), "RV32Type. Not found!");
    assert_eq!(decode(0x80000000_u32, &isa), "RV32Type. Not found!");
    assert_eq!(decode(0xFFFFFFFF_u32, &isa), "RV32Type. Not found!");
}

#[test]
fn decoding_twice_gives_the_same_text() {
    let entry = Instruction::new(jal_layout(), TextInstruction::from("c.jal imm")).unwrap();
    let isa: ISA<CompactType, Show> = ISA { list: vec![entry], show_dict: ShowDict::new() };
    for w in [0b0011010001101101_u16, 0, 0xFFFF, 0x2001] {
        assert_eq!(decode(w, &isa), decode(w, &isa));
    }
}

#[test]
fn first_matching_entry_wins() {
    let any = BinaryInstruction::<CompactType> {
        list: vec![Item::Ident {
            name: String::from("w"),
            bitspec: vec![15, 14, 13, 12, 11, 10, 9, 8, 7, 6, 5, 4, 3, 2, 1, 0],
        }],
    };
    let specific = Instruction::new(jal_layout(), TextInstruction::from("c.jal imm")).unwrap();
    let general = Instruction::new(any, TextInstruction::from("word w")).unwrap();
    let isa: ISA<CompactType, Show> =
        ISA { list: vec![specific, general], show_dict: ShowDict::new() };
    assert_eq!(decode(0b0011010001101101_u16, &isa), "c.jal 0xAAA");
    assert_eq!(decode(0x1234_u16, &isa), "word 0x1234");
}

#[test]
fn render_uses_formatter_hex_and_marker() {
    let text = TextInstruction::from("op rd, imm, other");
    let vars = vec![(String::from("rd"), 5, 0), (String::from("imm"), 0x2A, 0)];
    let mut dict: ShowDict<Show> = ShowDict::new();
    dict.insert(String::from("rd"), Show::Register);
    assert_eq!(render(&text, &vars, &dict), "op r5, 0x2A, ****");
    let none: ShowDict<Show> = ShowDict::new();
    assert_eq!(render(&text, &vars, &none), "op 0x5, 0x2A, ****");
}

#[test]
fn show_dict_keeps_one_formatter_for_a_name() {
    let mut dict: ShowDict<Show> = ShowDict::new();
    assert!(dict.get(&String::from("rd")).is_none());
    dict.insert(String::from("rd"), Show::Hex);
    dict.insert(String::from("rs"), Show::Decimal);
    dict.insert(String::from("rd"), Show::Register);
    assert_eq!(dict.get(&String::from("rd")), Some(&Show::Register));
    assert_eq!(dict.get(&String::from("rs")), Some(&Show::Decimal));
    assert_eq!(dict.get(&String::from("rd")).unwrap().show(30), "r30");
    assert_eq!(dict.get(&String::from("rs")).unwrap().show(30), "30");
    assert!(dict.get(&String::from("imm")).is_none());
    assert_eq!(Show::Hex.show(30), "0x1E");
}

#[test]
fn width_policies() {
    assert_eq!(CompactType::i_max_bit(), 15);
    assert_eq!(RV32Type::i_max_bit(), 31);
    assert_eq!(CompactType::i_zero(), 0);
    assert_eq!(CompactType::i_one(), 1);
    assert_eq!(RV32Type::i_zero(), 0);
    assert_eq!(RV32Type::i_one(), 1);
    assert_eq!(CompactType::d_zero(), 0);
    assert_eq!(RV32Type::d_zero(), 0);
    assert_eq!(CompactType::get_bit(0x8000, 15), 1);
    assert_eq!(CompactType::get_bit(0x8000, 14), 0);
    assert_eq!(RV32Type::get_bit(0x8000_0000, 31), 1);
    assert_eq!(RV32Type::get_bit(0x0000_0004, 2), 1);
    assert_eq!(CompactType::kind_name(), "CompactType");
    assert_eq!(RV32Type::kind_name(), "RV32Type");
    assert_eq!(CompactType::to_word(0xFFFF), 0xFFFF);
    assert_eq!(CompactType::from_word(0x1234), 0x1234);
    assert_eq!(RV32Type::to_word(0xDEADBEEF), 0xDEADBEEF);
    assert_eq!(RV32Type::from_word(0xDEADBEEF), 0xDEADBEEF);
    assert_eq!(CompactType::from_str_radix("0101", 2).unwrap(), 5);
    assert!(CompactType::from_str_radix("10000000000000000", 2).is_err());
    assert_eq!(RV32Type::from_str_radix("10000000000000000", 2).unwrap(), 0x10000);
    assert!(RV32Type::from_str_radix("012", 2).is_err());
}

#[test]
fn segments_as_they_are_written() {
    for (len, val) in [(3usize, 1u16), (0, 5), (16, 0), (2, 3), (5, 0b10010), (1, 0)] {
        assert_eq!(
            Item::<CompactType>::Bits { len, val }.to_string(),
            format!("{:0width$b}", val, width = len)
        );
    }
    assert_eq!(Item::<CompactType>::Bits { len: 3, val: 1 }.to_string(), "001");
    assert_eq!(Item::<RV32Type>::Bits { len: 32, val: 0x13 }.to_string().len(), 32);
    for bitspec in [vec![], vec![5], vec![11, 4, 9, 8], vec![0, 31]] {
        assert_eq!(
            Item::<CompactType>::Ident { name: String::from("imm"), bitspec: bitspec.clone() }
                .to_string(),
            format!("{}{:?}", "imm", bitspec)
        );
    }
    assert_eq!(
        Item::<CompactType>::Ident { name: String::from("rd"), bitspec: vec![2, 1, 0] }
            .to_string(),
        "rd[2, 1, 0]"
    );
}
