use riscv_dis::radix::parse_hex;
use riscv_dis::show::{
    push_decimal_digits, push_hex_digits, show_decimal, show_hex, show_hex_padded, show_register,
    Show, ShowFun,
};
use riscv_dis::template::{find_tokens, is_alpha_char, is_word_char, TextInstruction, TextInstructionPart};

fn sample_texts() -> Vec<&'static str> {
    vec![
        "",
        "c.nop",
        "mv rd, rs1",
        "c.sw rs1, imm (rs2)",
        "<illegal>",
        "<illegal.0>",
        "123",
        "1abc",
        "a1.b2 c3",
        "lr.w.aq.rl rd, rs1",
        "  lead and trail  ",
        "a",
        ".a.",
        "x_y",
        "r\u{e9}sum\u{e9} caf\u{e9}",
        "\u{3b1}\u{3b2} ab",
        "A.B..C 9z Z9",
        "fence.tso",
        "a,b;c:d",
    ]
}

#[test]
fn tokens_are_what_the_pattern_finds() {
    let re = regex::Regex::new(r"[[:alpha:]]([[:alnum:]]|\.)*").unwrap();
    for text in sample_texts() {
        let chars: Vec<char> = text.chars().collect();
        let found: Vec<String> = find_tokens(text)
            .iter()
            .map(|(a, b)| chars[*a..*b].iter().collect::<String>())
            .collect();
        let expected: Vec<String> = re.find_iter(text).map(|m| m.as_str().to_string()).collect();
        assert_eq!(found, expected, "in {:?}", text);
        let starts: Vec<usize> = find_tokens(text)
            .iter()
            .map(|(a, _)| chars[..*a].iter().map(|c| c.len_utf8()).sum())
            .collect();
        let expected_starts: Vec<usize> = re.find_iter(text).map(|m| m.start()).collect();
        assert_eq!(starts, expected_starts, "in {:?}", text);
    }
}

#[test]
fn character_classes() {
    for c in ['a', 'z', 'A', 'Z', 'm'] {
        assert!(is_alpha_char(c) && is_word_char(c));
    }
    for c in ['0', '9', '.'] {
        assert!(!is_alpha_char(c) && is_word_char(c));
    }
    for c in [' ', '_', ',', '<', '(', '\u{e9}', '`', '{', '@', '[', '/', ':'] {
        assert!(!is_alpha_char(c) && !is_word_char(c));
    }
}

#[test]
fn template_keeps_the_text_around_the_names() {
    assert_eq!(TextInstruction::from(""), TextInstruction { list: vec![] });
    assert_eq!(
        TextInstruction::from("<illegal>"),
        TextInstruction { list: vec![TextInstructionPart::text("<illegal>")] }
    );
    assert_eq!(
        TextInstruction::from("123"),
        TextInstruction { list: vec![TextInstructionPart::text("123")] }
    );
    assert_eq!(
        TextInstruction::from("(op) a"),
        TextInstruction { list: vec![TextInstructionPart::text_ident("(op) ", "a")] }
    );
    assert_eq!(
        TextInstruction::from("lr.w.aq rd, rs1"),
        TextInstruction {
            list: vec![
                TextInstructionPart::text_ident("lr.w.aq ", "rd"),
                TextInstructionPart::text_ident(", ", "rs1"),
            ]
        }
    );
    assert_eq!(
        TextInstruction::from("op \u{e9}rd!"),
        TextInstruction {
            list: vec![
                TextInstructionPart::text_ident("op \u{e9}", "rd"),
                TextInstructionPart::text("!"),
            ]
        }
    );
}

#[test]
fn values_in_hexadecimal() {
    for v in [0u32, 1, 9, 10, 15, 16, 0xAAA, 0xFFFF, 0x12345678, u32::MAX] {
        assert_eq!(show_hex(v), format!("{:#X}", v));
        assert_eq!(show_hex_padded(v, 4), format!("{:#04X}", v));
        assert_eq!(show_hex_padded(v, 6), format!("{:#06X}", v));
        assert_eq!(show_hex_padded(v, 10), format!("{:#010X}", v));
        assert_eq!(show_hex_padded(v, 0), format!("{:#X}", v));
    }
    assert_eq!(show_hex(0xAAA), "0xAAA");
    assert_eq!(show_hex_padded(5, 4), "0x05");
    assert_eq!(show_hex_padded(0xABCDE, 4), "0xABCDE");
}

#[test]
fn values_in_decimal() {
    for v in [0u32, 1, 9, 10, 99, 100, 4095, 65536, u32::MAX] {
        assert_eq!(show_decimal(v), format!("{}", v));
        assert_eq!(show_register(v), format!("r{}", v));
        assert_eq!(Show::Register.show(v), format!("r{}", v));
    }
    assert_eq!(show_register(31), "r31");
}

#[test]
fn digits_are_appended() {
    let mut out = String::from("v=");
    push_hex_digits(&mut out, 0x1F);
    out.push(' ');
    push_decimal_digits(&mut out, 1024);
    assert_eq!(out, "v=1F 1024");
}

#[test]
fn hexadecimal_numbers_are_read() {
    assert_eq!(parse_hex("0"), Ok(0));
    assert_eq!(parse_hex("ff"), Ok(255));
    assert_eq!(parse_hex("FF"), Ok(255));
    assert_eq!(parse_hex("+10"), Ok(16));
    assert_eq!(parse_hex("0010"), Ok(16));
    assert_eq!(parse_hex("FFFFFFFF"), Ok(u32::MAX));
    assert_eq!(parse_hex("80001000"), Ok(0x8000_1000));
    assert!(parse_hex("100000000").is_err());
    assert!(parse_hex("").is_err());
    assert!(parse_hex("+").is_err());
    assert!(parse_hex("-1").is_err());
    assert!(parse_hex("0x10").is_err());
    assert!(parse_hex("1_0").is_err());
    assert!(parse_hex(" 10").is_err());
    assert!(parse_hex("g").is_err());
}

/// A fixed sequence of numbers that looks random.
fn next_number(state: &mut u64) -> u64 {
    *state = state.wrapping_mul(6364136223846793005).wrapping_add(1442695040888963407);
    *state >> 33
}

#[test]
fn tokens_are_what_the_pattern_finds_in_many_texts() {
    let re = regex::Regex::new(r"[[:alpha:]]([[:alnum:]]|\.)*").unwrap();
    let alphabet: Vec<char> =
        "abzAZ019.. ,_()<>[]-\u{e9}\u{3b1}\u{1F600}\t".chars().collect();
    let mut state = 7u64;
    for _ in 0..3000 {
        let len = (next_number(&mut state) % 12) as usize;
        let text: String = (0..len)
            .map(|_| alphabet[(next_number(&mut state) % alphabet.len() as u64) as usize])
            .collect();
        let chars: Vec<char> = text.chars().collect();
        let found: Vec<String> = find_tokens(&text)
            .iter()
            .map(|(a, b)| chars[*a..*b].iter().collect::<String>())
            .collect();
        let expected: Vec<String> = re.find_iter(&text).map(|m| m.as_str().to_string()).collect();
        assert_eq!(found, expected, "in {:?}", text);
        let ends: Vec<usize> = find_tokens(&text)
            .iter()
            .map(|(_, b)| chars[..*b].iter().map(|c| c.len_utf8()).sum())
            .collect();
        let expected_ends: Vec<usize> = re.find_iter(&text).map(|m| m.end()).collect();
        assert_eq!(ends, expected_ends, "in {:?}", text);
    }
}
