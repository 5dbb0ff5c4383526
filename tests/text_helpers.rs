use meow::text::{eq_ignore_case, parse_int_in, push_decimal, push_signed, same_text};

#[test]
fn ignore_case_matches_ascii_letters_only() {
    assert!(eq_ignore_case("MEOW_Port", "meow_port"));
    assert!(!eq_ignore_case("MEOW_PORTS", "meow_port"));
    assert!(!eq_ignore_case("meow-port", "meow_port"));
}

#[test]
fn same_text_compares_characters() {
    assert!(same_text("happy mode", "happy mode"));
    assert!(!same_text("happy mode", "happy  mode"));
}

#[test]
fn integers_parse_within_bounds() {
    assert_eq!(parse_int_in("42", 0, 100), Some(42));
    assert_eq!(parse_int_in("-7", -10, 10), Some(-7));
    assert_eq!(parse_int_in("TRUE", 0, 1), Some(1));
    assert_eq!(parse_int_in("No", 0, 1), Some(0));
    assert_eq!(parse_int_in("101", 0, 100), None);
    assert_eq!(parse_int_in("4x", 0, 100), None);
    assert_eq!(parse_int_in(" 4", 0, 100), None);
    assert_eq!(parse_int_in("+", 0, 100), None);
}

#[test]
fn numbers_format_in_decimal() {
    let mut s = String::from("n=");
    push_decimal(&mut s, 1204);
    assert_eq!(s, "n=1204");
    let mut s = String::new();
    push_signed(&mut s, i64::MIN);
    assert_eq!(s, i64::MIN.to_string());
    let mut s = String::new();
    push_signed(&mut s, 0);
    assert_eq!(s, "0");
}
