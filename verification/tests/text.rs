use hyperion::text::{join, parse_byte, push_int, push_repeated, same_text, trim};

#[test]
fn numbers_are_written_in_decimal() {
    for i in [0i128, 7, 10, -1, 16_384, -2_147_483_648, 18_446_744_073_709_551_616] {
        let mut out = "n=".to_string();
        push_int(&mut out, i);
        assert_eq!(out, format!("n={i}"));
    }
}

#[test]
fn every_white_space_character_is_trimmed() {
    for c in '\0'..=char::MAX {
        let s = format!("{c}x{c}");
        assert_eq!(trim(&s), s.trim());
    }
    assert_eq!(trim(" \t two words \n"), "two words");
    assert_eq!(trim(""), "");
    assert_eq!(trim("   "), "");
}

#[test]
fn words_are_joined() {
    let words = vec!["build".to_string(), "a".to_string(), "tower".to_string()];
    assert_eq!(join(&words, " "), "build a tower");
    assert_eq!(join(&vec![], " "), "");
    assert_eq!(join(&vec!["one".to_string()], ", "), "one");
}

#[test]
fn small_numbers_are_parsed_as_std_does() {
    for s in [
        "0", "7", "12", "255", "256", "-1", "+5", "", "+", "a", "1a", " 1", "007", "000256", "99999999999",
    ] {
        assert_eq!(parse_byte(s), s.parse::<u8>().ok(), "{s}");
    }
}

#[test]
fn texts_are_compared_and_repeated() {
    assert!(same_text("on", "on"));
    assert!(!same_text("on", "On"));
    let mut out = String::new();
    push_repeated(&mut out, "▰", 3);
    push_repeated(&mut out, "▱", 0);
    assert_eq!(out, "▰▰▰");
}
