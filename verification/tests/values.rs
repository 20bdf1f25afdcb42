use nconf2nix::value::{Tristate, Value};

#[test]
fn tristate_keywords() {
    assert_eq!(Tristate::No.to_nix(), "no");
    assert_eq!(Tristate::Module.to_nix(), "module");
    assert_eq!(Tristate::Yes.to_nix(), "yes");
}

#[test]
fn tristate_from_bool() {
    assert_eq!(Tristate::from(true), Tristate::Yes);
    assert_eq!(Tristate::from(false), Tristate::No);
}

#[test]
fn tristate_value_renders_as_keyword() {
    assert_eq!(Value::Tristate(Tristate::Module).to_nix(), "module");
}

#[test]
fn hex_is_rendered_as_written() {
    assert_eq!(Value::Hex("0x1F".to_string()).to_nix(), "freeform \"0x1F\"");
}

#[test]
fn int_is_rendered_as_written() {
    assert_eq!(Value::Int("-0042".to_string()).to_nix(), "freeform \"-0042\"");
}

#[test]
fn string_is_rendered_escaped() {
    let value = Value::String("he said \"hi\"".to_string());
    assert_eq!(value.to_nix(), "freeform \"he said \\\"hi\\\"\"");
}

#[test]
fn escape_protects_quote_backslash_and_dollar() {
    assert_eq!(Value::escape_string_to_nix("a\"b\\c$d"), "a\\\"b\\\\c\\$d");
}

#[test]
fn escape_leaves_other_characters_alone() {
    assert_eq!(Value::escape_string_to_nix("tab\there 'x' é ${"), "tab\there 'x' é \\${");
    assert_eq!(Value::escape_string_to_nix(""), "");
}

#[test]
fn freeform_wraps_the_escaped_text() {
    assert_eq!(Value::to_nix_freeform_string("a$b"), "freeform \"a\\$b\"");
    assert_eq!(Value::to_nix_freeform_string(""), "freeform \"\"");
}

#[test]
fn validate_int_accepts_optional_sign_and_digits() {
    assert!(Value::validate_int("0"));
    assert!(Value::validate_int("1234567890"));
    assert!(Value::validate_int("-17"));
    assert!(Value::validate_int(""));
    assert!(Value::validate_int("-"));
}

#[test]
fn validate_int_rejects_anything_else() {
    assert!(!Value::validate_int("+1"));
    assert!(!Value::validate_int("1-2"));
    assert!(!Value::validate_int("--1"));
    assert!(!Value::validate_int("12a"));
    assert!(!Value::validate_int("0x10"));
    assert!(!Value::validate_int(" 1"));
    assert!(!Value::validate_int("١٢"));
}

#[test]
fn validate_hex_accepts_prefix_and_hex_digits() {
    assert!(Value::validate_hex("0x1F"));
    assert!(Value::validate_hex("0XdeadBEEF"));
    assert!(Value::validate_hex("0x"));
    assert!(Value::validate_hex("0x0123456789abcdefABCDEF"));
}

#[test]
fn validate_hex_rejects_anything_else() {
    assert!(!Value::validate_hex(""));
    assert!(!Value::validate_hex("0"));
    assert!(!Value::validate_hex("1x10"));
    assert!(!Value::validate_hex("x10"));
    assert!(!Value::validate_hex("0x1G"));
    assert!(!Value::validate_hex("0x 1"));
    assert!(!Value::validate_hex("-0x1"));
}
