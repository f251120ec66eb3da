use c2cls::text::{decimal, i64_radix_text, parse_u64, replace_all, retain_numeric, shrink_spec, starts_with};
use c2cls::leaves::{eval_imm_captures, eval_imm_expr, transpile_constant, transpile_enum, transpile_string_literal};
use c2cls::ast::{Constant, EnumType, IntegerBase};

#[test]
fn shrink_spec_folds_long_keyword_runs_first() {
    assert_eq!(shrink_spec("\\unsigned \\long \\long \\int ".to_string()), "u64 ");
    assert_eq!(shrink_spec("\\signed \\long \\long ".to_string()), "i64 ");
    assert_eq!(shrink_spec("\\long \\unsigned \\int ".to_string()), "u32 ");
    assert_eq!(shrink_spec("\\long \\long ".to_string()), "i64 ");
    assert_eq!(shrink_spec("\\long \\double ".to_string()), "f64 ");
}

#[test]
fn shrink_spec_folds_single_keywords() {
    assert_eq!(shrink_spec("\\unsigned \\char ".to_string()), "u8 ");
    assert_eq!(shrink_spec("\\char ".to_string()), "i8 ");
    assert_eq!(shrink_spec("\\void ".to_string()), "v0 ");
    assert_eq!(shrink_spec("\\bool ".to_string()), "i8 ");
    assert_eq!(shrink_spec("\\float ".to_string()), "f32 ");
    assert_eq!(shrink_spec("\\short \\int ".to_string()), "i16 ");
    assert_eq!(shrink_spec("\\unsigned ".to_string()), "u32 ");
}

#[test]
fn shrink_spec_leaves_names_alone() {
    assert_eq!(shrink_spec("$T_point ".to_string()), "$T_point ");
    assert_eq!(shrink_spec(String::new()), "");
}

#[test]
fn replace_all_does_not_overlap() {
    assert_eq!(replace_all("aaaa", "aa", "b"), "bb");
    assert_eq!(replace_all("aaa", "aa", "b"), "ba");
    assert_eq!(replace_all("abc", "", "x"), "abc");
    assert_eq!(replace_all("xyz", "q", "r"), "xyz");
}

#[test]
fn decimal_formats_numbers() {
    assert_eq!(decimal(0), "0");
    assert_eq!(decimal(7), "7");
    assert_eq!(decimal(1234567890), "1234567890");
    assert_eq!(decimal(u64::MAX), "18446744073709551615");
}

#[test]
fn decimal_reads_back() {
    for n in [0u64, 9, 10, 99, 100, 4096, u64::MAX] {
        assert_eq!(parse_u64(decimal(n).as_str()), Some(n));
    }
}

#[test]
fn parse_u64_follows_from_str() {
    assert_eq!(parse_u64("42"), Some(42));
    assert_eq!(parse_u64("+7"), Some(7));
    assert_eq!(parse_u64(""), None);
    assert_eq!(parse_u64("+"), None);
    assert_eq!(parse_u64("-1"), None);
    assert_eq!(parse_u64("1a"), None);
    assert_eq!(parse_u64("18446744073709551615"), Some(u64::MAX));
    assert_eq!(parse_u64("18446744073709551616"), None);
    for s in ["0", "12", "+3", "-4", "x", "99999999999999999999"] {
        assert_eq!(parse_u64(s), s.parse::<u64>().ok());
    }
}

#[test]
fn radix_text_follows_from_str_radix() {
    assert_eq!(i64_radix_text("ff", 16), Some("255".to_string()));
    assert_eq!(i64_radix_text("FF", 16), Some("255".to_string()));
    assert_eq!(i64_radix_text("777", 8), Some("511".to_string()));
    assert_eq!(i64_radix_text("101", 2), Some("5".to_string()));
    assert_eq!(i64_radix_text("7fffffffffffffff", 16), Some("9223372036854775807".to_string()));
    assert_eq!(i64_radix_text("8000000000000000", 16), None);
    assert_eq!(i64_radix_text("-8000000000000000", 16), Some("-9223372036854775808".to_string()));
    assert_eq!(i64_radix_text("-0", 10), Some("0".to_string()));
    assert_eq!(i64_radix_text("8", 8), None);
    assert_eq!(i64_radix_text("", 8), None);
    for (s, radix) in [("1f", 16u32), ("-1f", 16), ("19", 8), ("+11", 2), ("zz", 36)] {
        let expected = i64::from_str_radix(s, radix).ok().map(|v| v.to_string());
        assert_eq!(i64_radix_text(s, radix as u64), expected);
    }
}

#[test]
fn retain_numeric_keeps_digits() {
    assert_eq!(retain_numeric("12uL"), "12");
    assert_eq!(retain_numeric("-128"), "128");
    assert_eq!(retain_numeric("007"), "007");
}

#[test]
fn starts_with_matches_prefix() {
    assert!(starts_with("class $T_a {}", "class"));
    assert!(!starts_with("clas", "class"));
    assert!(!starts_with("i32 x;", "class"));
}

#[test]
fn integer_constants_become_decimal() {
    let c = |base, n: &str| transpile_constant(&Constant::Integer(base, n.to_string()));
    assert_eq!(c(IntegerBase::Decimal, "42"), Some("42".to_string()));
    assert_eq!(c(IntegerBase::Hexadecimal, "ff"), Some("255".to_string()));
    assert_eq!(c(IntegerBase::Octal, "17"), Some("15".to_string()));
    assert_eq!(c(IntegerBase::Binary, "1010"), Some("10".to_string()));
    assert_eq!(c(IntegerBase::Hexadecimal, "ffffffffffffffff"), None);
}

#[test]
fn float_and_character_constants() {
    assert_eq!(transpile_constant(&Constant::Float("1.5e3".to_string())), Some("1.5e3".to_string()));
    assert_eq!(transpile_constant(&Constant::Float("2.0f".to_string())), Some("2.0".to_string()));
    assert_eq!(transpile_constant(&Constant::Float("0x1.8p-3".to_string())), Some("0x1.8p-3".to_string()));
    assert_eq!(transpile_constant(&Constant::Float(".5".to_string())), Some(".5".to_string()));
    assert_eq!(transpile_constant(&Constant::Character("'a'".to_string())), Some("'a'".to_string()));
}

#[test]
fn string_literal_pieces_are_joined() {
    let pieces = vec!["\"ab\"".to_string(), "\"cd\"".to_string()];
    assert_eq!(transpile_string_literal(&pieces), Some("\"abcd\"".to_string()));
    let single = vec!["\"\u{e9}t\u{e9}\"".to_string()];
    assert_eq!(transpile_string_literal(&single), Some("\"\u{e9}t\u{e9}\"".to_string()));
    assert_eq!(transpile_string_literal(&Vec::new()), Some("\"\"".to_string()));
}

#[test]
fn string_literal_pieces_that_cannot_be_cut() {
    assert_eq!(transpile_string_literal(&vec!["\"".to_string()]), None);
    assert_eq!(transpile_string_literal(&vec!["\u{e9}\"".to_string()]), None);
    assert_eq!(transpile_string_literal(&vec!["\"ok\"".to_string(), String::new()]), None);
}

#[test]
fn enum_becomes_numbered_constants() {
    let e = EnumType { enumerators: vec!["RED".to_string(), "GREEN".to_string(), "BLUE".to_string()] };
    assert_eq!(transpile_enum(&e), "i32 $I_RED = 0;\ni32 $I_GREEN = 1;\ni32 $I_BLUE = 2");
    assert_eq!(transpile_enum(&EnumType { enumerators: Vec::new() }), "i32");
}

#[test]
fn array_sizes_are_evaluated() {
    assert_eq!(eval_imm_expr("(1)<<(3)"), Some("8".to_string()));
    assert_eq!(eval_imm_expr("(3)<<(0)"), Some("3".to_string()));
    assert_eq!(eval_imm_expr("(1)<<(63)"), Some("9223372036854775808".to_string()));
    assert_eq!(eval_imm_expr("16"), Some("16".to_string()));
    assert_eq!(eval_imm_expr("$I_N"), Some("0".to_string()));
    assert_eq!(eval_imm_expr("(2)+(3)"), Some("0".to_string()));
}

#[test]
fn array_sizes_that_cannot_be_evaluated() {
    assert_eq!(eval_imm_expr("(1)<<(64)"), None);
    assert_eq!(eval_imm_expr("(99999999999999999999)<<(1)"), None);
}

#[test]
fn array_size_from_given_captures() {
    let groups = Some(vec![Some("(5)<<(2)".to_string()), Some("5".to_string()), Some("2".to_string())]);
    assert_eq!(eval_imm_captures("(5)<<(2)", &groups, false), Some("20".to_string()));
    let missing = Some(vec![Some("x".to_string()), None, Some("2".to_string())]);
    assert_eq!(eval_imm_captures("x", &missing, false), None);
    assert_eq!(eval_imm_captures("12", &None, true), Some("12".to_string()));
    assert_eq!(eval_imm_captures("n", &None, false), Some("0".to_string()));
}

#[test]
fn shrink_spec_twice_is_once() {
    let inputs = [
        "\\unsigned \\long \\long \\int ",
        "\\long \\long \\long ",
        "\\\\int ",
        "\\long \\long \\int \\long ",
        "\\unsigned\\int ",
        "\\signed \\long \\double ",
        "$T_point \\char ",
    ];
    for s in inputs {
        let once = shrink_spec(s.to_string());
        assert_eq!(shrink_spec(once.clone()), once);
    }
    assert_eq!(shrink_spec("\\long \\long \\long ".to_string()), "i64 i32 ");
    assert_eq!(shrink_spec("\\\\int ".to_string()), "\\i32 ");
}
