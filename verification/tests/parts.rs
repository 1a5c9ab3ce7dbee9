use icmc_cc::target::{Target, REGS_N};
use icmc_cc::text::{epilogue_label_name, local_label_name, push_decimal};
use icmc_cc::{CharacterType, Ctype, Scope, TokenType, Type, Var};

fn numeral(n: u128) -> String {
    let mut s = String::new();
    push_decimal(&mut s, n);
    s
}

#[test]
fn decimal_numerals() {
    assert_eq!(numeral(0), "0");
    assert_eq!(numeral(7), "7");
    assert_eq!(numeral(9), "9");
    assert_eq!(numeral(10), "10");
    assert_eq!(numeral(109), "109");
    assert_eq!(numeral(65535), "65535");
    assert_eq!(numeral(1234567890), "1234567890");
    assert_eq!(numeral(u128::MAX), u128::MAX.to_string());
}

#[test]
fn decimal_appends() {
    let mut s = String::from("#");
    push_decimal(&mut s, 42);
    push_decimal(&mut s, 0);
    assert_eq!(s, "#420");
}

#[test]
fn label_names() {
    assert_eq!(local_label_name(0), "L0");
    assert_eq!(local_label_name(17), "L17");
    assert_eq!(epilogue_label_name(0), "Lend0");
    assert_eq!(epilogue_label_name(205), "Lend205");
    assert_ne!(epilogue_label_name(1), epilogue_label_name(10));
    assert_ne!(epilogue_label_name(1), local_label_name(1));
}

#[test]
fn register_file() {
    assert_eq!(REGS_N, 7);
    let names: Vec<&str> = (0..REGS_N).map(|i| Target::Icmc.reg_name(i)).collect();
    assert_eq!(names, vec!["r1", "r2", "r3", "r4", "r5", "r6", "r7"]);
    let names: Vec<&str> = (0..REGS_N).map(|i| Target::X86.reg_name(i)).collect();
    assert_eq!(names, vec!["r1", "r2", "r3", "r4", "r5", "r6", "r7"]);
}

#[test]
fn target_facts() {
    assert_eq!(Target::Icmc.scratch_name(), "r7");
    assert_eq!(Target::Icmc.return_reg_name(), "r7");
    assert_eq!(Target::Icmc.frame_base_name(), "r0");
    assert!(Target::Icmc.puts_imm_in_next_reg());
    assert_eq!(Target::X86.scratch_name(), "r0");
    assert_eq!(Target::X86.return_reg_name(), "r0");
    assert_eq!(Target::X86.frame_base_name(), "rbp");
    assert_eq!(Target::Icmc.stack_pointer_name(), "sp");
    assert_eq!(Target::X86.stack_pointer_name(), "sp");
    assert_eq!(Target::Icmc.flags_name(), "fr");
    assert_eq!(Target::X86.flags_name(), "fr");
    assert!(!Target::X86.puts_imm_in_next_reg());
}

#[test]
fn target_operands() {
    assert_eq!(Target::Icmc.word_operand(65536 + 9), "#9");
    assert_eq!(Target::X86.word_operand(65536 + 9), "#65545");
    assert_eq!(Target::X86.word_operand(0xffff_fffe), "#-2");
    assert_eq!(Target::Icmc.shift_amount_operand(3), "#3");
    assert_eq!(Target::X86.shift_amount_operand(3), "3");
    assert_eq!(Target::X86.frame_slot_operand(12), "[rbp-12]");
    assert_eq!(Target::Icmc.frame_slot_operand(0), "[r0-0]");
}

#[test]
fn single_letter_tokens() {
    let table = [
        ('+', TokenType::Plus),
        ('-', TokenType::Minus),
        ('*', TokenType::Mul),
        ('/', TokenType::Div),
        ('&', TokenType::And),
        (';', TokenType::Semicolon),
        ('=', TokenType::Equal),
        ('(', TokenType::LeftParen),
        (')', TokenType::RightParen),
        ('[', TokenType::LeftBracket),
        (']', TokenType::RightBracket),
        ('{', TokenType::LeftBrace),
        ('}', TokenType::RightBrace),
        ('<', TokenType::LeftAngleBracket),
        ('>', TokenType::RightAngleBracket),
        (',', TokenType::Comma),
        ('.', TokenType::Dot),
        ('!', TokenType::Exclamation),
        ('?', TokenType::Question),
        ('|', TokenType::VerticalBar),
        ('^', TokenType::Hat),
        ('%', TokenType::Mod),
        (':', TokenType::Colon),
        ('#', TokenType::HashMark),
    ];
    for (c, token) in table {
        assert_eq!(TokenType::new_single_letter(c), Some(token));
    }
}

#[test]
fn other_characters_are_no_single_letter_token() {
    for c in ['a', 'Z', '0', ' ', '\n', '"', '\'', '~', '@', '$', '\\', '`', '_', 'é'] {
        assert_eq!(TokenType::new_single_letter(c), None);
    }
}

#[test]
fn character_types_compare() {
    assert_eq!(CharacterType::NonAlphabetic('+'), CharacterType::NonAlphabetic('+'));
    assert_ne!(CharacterType::Unknown('+'), CharacterType::NonAlphabetic('+'));
    assert_ne!(CharacterType::Whitespace, CharacterType::NewLine);
}

#[test]
fn default_type_is_a_one_word_int() {
    let t = Type::default();
    assert!(matches!(t.ty, Ctype::Int));
    assert_eq!(t.size, 1);
    assert_eq!(t.align, 1);
    assert!(matches!(Ctype::default(), Ctype::Int));
}

#[test]
fn variables_keep_what_they_are_made_of() {
    let v = Var::new(
        Box::new(Type {
            ty: Ctype::Ptr(Box::new(Type::default())),
            size: 1,
            align: 1,
        }),
        "p".to_string(),
        Scope::Local(3),
    );
    assert_eq!(v.name, "p");
    assert!(matches!(v.scope, Scope::Local(3)));
    assert!(matches!(v.ty.ty, Ctype::Ptr(_)));
    let g = Var::new_global(
        Box::new(Type::default()),
        "g".to_string(),
        "abc".to_string(),
        4,
        true,
    );
    assert_eq!(g.name, "g");
    match g.scope {
        Scope::Global(data, len, is_extern) => {
            assert_eq!(data, "abc");
            assert_eq!(len, 4);
            assert!(is_extern);
        }
        Scope::Local(_) => panic!("a global was asked for"),
    }
}
