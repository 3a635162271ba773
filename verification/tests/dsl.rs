use riscv_dis::dsl::{
    entry_from_text, instruction16, parse_bitspec, parse_token_string, DslError,
};
use riscv_dis::lexer::tokenize;
use riscv_dis::token::{Delimiter, Token};
use riscv_dis::layout::{BinaryInstruction, Item, LayoutError};
use riscv_dis::width::{CompactType, RV32Type};

fn lit(s: &str) -> Token {
    Token::Literal(String::from(s))
}

fn name(s: &str) -> Token {
    Token::Ident(String::from(s))
}

fn bits(text: &str) -> Result<Vec<u32>, DslError> {
    match tokenize(&format!("[{}]", text)) {
        Ok(mut tokens) => match tokens.pop() {
            Some(Token::Group(_, inner)) => parse_bitspec(&inner),
            _ => unreachable!(),
        },
        Err(e) => Err(e),
    }
}

#[test]
fn bit_lists_and_ranges() {
    assert_eq!(bits("5"), Ok(vec![5]));
    assert_eq!(bits("4:0"), Ok(vec![4, 3, 2, 1, 0]));
    assert_eq!(bits("3:3"), Ok(vec![3]));
    assert_eq!(bits("5:4|9:6|2|3"), Ok(vec![5, 4, 9, 8, 7, 6, 2, 3]));
    assert_eq!(bits("11|4|9:8|10|6|7|3:1|5"), Ok(vec![11, 4, 9, 8, 10, 6, 7, 3, 2, 1, 5]));
    assert_eq!(bits("31:12").unwrap().len(), 20);
    assert_eq!(bits(""), Ok(vec![]));
}

#[test]
fn bit_lists_follow_the_state_of_the_reading() {
    // a second number without a separator is passed over
    assert_eq!(bits("5 6"), Ok(vec![5]));
    assert_eq!(bits("5:3 9"), Ok(vec![5, 4, 3]));
    // a closing separator and an open range add nothing
    assert_eq!(bits("5|"), Ok(vec![5]));
    assert_eq!(bits("5|7:"), Ok(vec![5]));
}

#[test]
fn bit_list_errors() {
    assert_eq!(bits("|5"), Err(DslError::MisplacedPipe));
    assert_eq!(bits("5||6"), Err(DslError::MisplacedPipe));
    assert_eq!(bits("5:|6"), Err(DslError::MisplacedPipe));
    assert_eq!(bits(":5"), Err(DslError::MisplacedColon));
    assert_eq!(bits("5:4:3"), Err(DslError::MisplacedColon));
    assert_eq!(bits("5,6"), Err(DslError::BadBitSeparator));
    assert_eq!(bits("0:4|1"), Err(DslError::AscendingRange));
    assert_eq!(bits("0:4"), Err(DslError::AscendingRange));
    assert_eq!(bits("4294967296"), Err(DslError::BadBitIndex));
    assert_eq!(bits("\"5\""), Err(DslError::BadBitIndex));
    assert_eq!(bits("rd"), Err(DslError::IdentInGroup));
    assert_eq!(
        parse_bitspec(&vec![Token::Group(Delimiter::Bracket, vec![])]),
        Err(DslError::GroupInGroup)
    );
}

#[test]
fn tokens_of_an_entry() {
    assert_eq!(
        tokenize("\"c.nop\", 000, imm[5], 01"),
        Ok(vec![
            lit("\"c.nop\""),
            Token::Punct(','),
            lit("000"),
            Token::Punct(','),
            name("imm"),
            Token::Group(Delimiter::Bracket, vec![lit("5")]),
            Token::Punct(','),
            lit("01"),
        ])
    );
    assert_eq!(
        tokenize(" rd [ 4 : 0 | 7 ]\t;\n"),
        Ok(vec![
            name("rd"),
            Token::Group(
                Delimiter::Bracket,
                vec![lit("4"), Token::Punct(':'), lit("0"), Token::Punct('|'), lit("7")]
            ),
            Token::Punct(';'),
        ])
    );
    assert_eq!(tokenize("a1_b 12ab"), Ok(vec![name("a1_b"), lit("12"), name("ab")]));
    assert_eq!(tokenize(""), Ok(vec![]));
    assert_eq!(tokenize("   "), Ok(vec![]));
}

#[test]
fn token_errors() {
    assert_eq!(tokenize("\"c.nop, 000"), Err(DslError::UnclosedQuote));
    assert_eq!(tokenize("imm[5, 01"), Err(DslError::UnclosedBracket));
    assert_eq!(tokenize("imm[\"5]"), Err(DslError::UnclosedQuote));
    assert_eq!(tokenize("imm 5], 01"), Err(DslError::UnopenedBracket));
    assert_eq!(tokenize("imm[5[4]]"), Err(DslError::GroupInGroup));
}

fn entry_error(text: &str) -> DslError {
    match entry_from_text::<CompactType>(text) {
        Ok(_) => panic!("{:?} was read", text),
        Err(e) => e,
    }
}

#[test]
fn entry_errors() {
    assert_eq!(entry_error(""), DslError::Empty);
    assert_eq!(entry_error("00, 01"), DslError::NoQuotes);
    assert_eq!(entry_error("\"\", 0000000000000000"), DslError::NoQuotes);
    assert_eq!(entry_error("imm[5], 01"), DslError::NoDescription);
    assert_eq!(entry_error(", \"c.nop\""), DslError::NoDescription);
    assert_eq!(entry_error("\"c.nop\", [5]"), DslError::MisplacedBitspec);
    assert_eq!(entry_error("\"c.nop\", imm rd[5]"), DslError::MisplacedIdent);
    assert_eq!(entry_error("\"c.nop\"; 000"), DslError::BadSeparator);
    assert_eq!(entry_error("\"c.nop\", 002"), DslError::BadLiteral);
    assert_eq!(entry_error("\"c.nop\", 11111111111111111"), DslError::BadLiteral);
    assert_eq!(entry_error("\"c.nop\", \"000\""), DslError::BadLiteral);
    assert_eq!(entry_error("\"c.nop\", imm[5|], 0"), DslError::Layout(LayoutError::WidthMismatch));
    assert_eq!(entry_error("\"c.nop\", imm[|5]"), DslError::MisplacedPipe);
    assert_eq!(entry_error("\"c.nop\", imm[5"), DslError::UnclosedBracket);
    assert_eq!(
        entry_error("\"c.nop\", 000, imm[5], 00000, imm[4:0], 0"),
        DslError::Layout(LayoutError::WidthMismatch)
    );
    assert_eq!(
        entry_error("\"c.nop\", 000, imm[5], 00000, imm[4:0], 011"),
        DslError::Layout(LayoutError::WidthMismatch)
    );
    assert_eq!(
        entry_error("\"c.nop\", 0000000000000000, imm[]"),
        DslError::Layout(LayoutError::EmptyBitspec)
    );
    assert_eq!(
        entry_error("\"c.nop\", 000000000000000, imm[32]"),
        DslError::Layout(LayoutError::BitOutOfRange)
    );
    let tokens = vec![
        lit("\"c.nop\""),
        name("imm"),
        Token::Group(Delimiter::Parenthesis, vec![lit("5")]),
    ];
    assert!(matches!(parse_token_string::<CompactType>(&tokens), Err(DslError::BadDelimiter)));
    assert!(matches!(instruction16(&tokens), Err(DslError::BadDelimiter)));
}

#[test]
fn entry_of_a_scattered_field() {
    let entry =
        entry_from_text::<CompactType>("\"c.jal imm\", 001, imm[11|4|9:8|10|6|7|3:1|5], 01")
            .unwrap();
    let expected = BinaryInstruction::<CompactType> {
        list: vec![
            Item::Bits { len: 3, val: 1 },
            Item::Ident {
                name: String::from("imm"),
                bitspec: vec![11, 4, 9, 8, 10, 6, 7, 3, 2, 1, 5],
            },
            Item::Bits { len: 2, val: 1 },
        ],
    };
    assert_eq!(*entry.bin(), expected);
    assert_eq!(entry.mask(), 0xE003);
    assert_eq!(entry.pattern(), 0x2001);
}

#[test]
fn entry_of_a_base_instruction() {
    let entry = entry_from_text::<RV32Type>(
        "\"add rd, rs1, rs2\", 0000000, rs2[4:0], rs1[4:0], 000 ,rd[4:0], 0110011",
    )
    .unwrap();
    assert_eq!(entry.mask(), 0xFE00_707F);
    assert_eq!(entry.pattern(), 0x0000_0033);
    assert!(entry_from_text::<CompactType>(
        "\"add rd, rs1, rs2\", 0000000, rs2[4:0], rs1[4:0], 000 ,rd[4:0], 0110011"
    )
    .is_err());
}
