use nconf2nix::diagnostic::{ParseError, ParseErrorKind};
use nconf2nix::infer::infer_value;
use nconf2nix::value::{Tristate, Value};

fn failure(kind: ParseErrorKind, text: &str) -> ParseError {
    ParseError { kind, text: text.to_string() }
}

#[test]
fn single_letters_are_tristates() {
    assert_eq!(infer_value("y"), Ok((Value::Tristate(Tristate::Yes), "")));
    assert_eq!(infer_value("m"), Ok((Value::Tristate(Tristate::Module), "")));
    assert_eq!(infer_value("n"), Ok((Value::Tristate(Tristate::No), "")));
}

#[test]
fn upper_case_letters_are_no_tristates() {
    assert_eq!(infer_value("Y"), Err(failure(ParseErrorKind::Unrecognized, "Y")));
    assert_eq!(infer_value("M"), Err(failure(ParseErrorKind::Unrecognized, "M")));
    assert_eq!(infer_value("N"), Err(failure(ParseErrorKind::Unrecognized, "N")));
}

#[test]
fn a_leading_letter_wins_over_what_follows() {
    assert_eq!(infer_value("yes"), Ok((Value::Tristate(Tristate::Yes), "es")));
    assert_eq!(infer_value("n5"), Ok((Value::Tristate(Tristate::No), "5")));
    assert_eq!(infer_value("m # note"), Ok((Value::Tristate(Tristate::Module), " # note")));
}

#[test]
fn quoted_string_is_unescaped() {
    assert_eq!(
        infer_value("\"he said \\\"hi\\\"\""),
        Ok((Value::String("he said \"hi\"".to_string()), ""))
    );
}

#[test]
fn backslash_copies_the_next_character_verbatim() {
    assert_eq!(infer_value("\"a\\nb\""), Ok((Value::String("anb".to_string()), "")));
    assert_eq!(infer_value("\"a\\\\b\""), Ok((Value::String("a\\b".to_string()), "")));
    assert_eq!(infer_value("\"\\é\""), Ok((Value::String("é".to_string()), "")));
}

#[test]
fn quoted_string_hands_back_its_tail() {
    assert_eq!(infer_value("\"\" # empty"), Ok((Value::String(String::new()), " # empty")));
    assert_eq!(infer_value("\"a\"b\"c"), Ok((Value::String("a".to_string()), "b\"c")));
    assert_eq!(infer_value("\"né\"ü"), Ok((Value::String("né".to_string()), "ü")));
}

#[test]
fn unterminated_string_is_a_hard_failure() {
    assert_eq!(
        infer_value("\"unterminated"),
        Err(failure(ParseErrorKind::InvalidDelimiter, "\"unterminated"))
    );
    assert_eq!(infer_value("\""), Err(failure(ParseErrorKind::InvalidDelimiter, "\"")));
    assert_eq!(
        infer_value("\"a\\\""),
        Err(failure(ParseErrorKind::InvalidDelimiter, "\"a\\\""))
    );
}

#[test]
fn dangling_escape_is_a_hard_failure() {
    assert_eq!(infer_value("\"abc\\"), Err(failure(ParseErrorKind::InvalidEscape, "\"abc\\")));
}

#[test]
fn decimal_literal_keeps_its_text() {
    assert_eq!(infer_value("42"), Ok((Value::Int("42".to_string()), "")));
    assert_eq!(infer_value("-0007"), Ok((Value::Int("-0007".to_string()), "")));
    assert_eq!(
        infer_value("340282366920938463463374607431768211456"),
        Ok((Value::Int("340282366920938463463374607431768211456".to_string()), ""))
    );
}

#[test]
fn empty_text_is_a_decimal_literal_without_digits() {
    assert_eq!(infer_value(""), Ok((Value::Int(String::new()), "")));
    assert_eq!(infer_value("-"), Ok((Value::Int("-".to_string()), "")));
}

#[test]
fn hexadecimal_literal_keeps_its_text() {
    assert_eq!(infer_value("0x1F"), Ok((Value::Hex("0x1F".to_string()), "")));
    assert_eq!(infer_value("0Xff"), Ok((Value::Hex("0Xff".to_string()), "")));
}

#[test]
fn numbers_take_no_tail() {
    assert_eq!(infer_value("42 "), Err(failure(ParseErrorKind::Unrecognized, "42 ")));
    assert_eq!(infer_value("0x1F # x"), Err(failure(ParseErrorKind::Unrecognized, "0x1F # x")));
}

#[test]
fn other_text_is_a_hard_failure() {
    assert_eq!(infer_value("hello"), Err(failure(ParseErrorKind::Unrecognized, "hello")));
    assert_eq!(infer_value(" y"), Err(failure(ParseErrorKind::Unrecognized, " y")));
}

#[test]
fn failure_messages_name_the_text() {
    assert_eq!(
        failure(ParseErrorKind::InvalidEscape, "\"a\\").message(),
        "found invalid string escape sequence in value \"a\\"
    );
    assert_eq!(
        failure(ParseErrorKind::InvalidDelimiter, "\"a").message(),
        "found invalid string delimiter in value \"a"
    );
    assert_eq!(
        failure(ParseErrorKind::Unrecognized, "Y").message(),
        "failed to parse value Y"
    );
}

#[test]
fn escaped_payload_reads_back() {
    for payload in ["", "plain", "he said \"hi\"", "a\\b", "$HOME", "\\\"$", "é\"ü"] {
        let quoted = format!("\"{}\"", Value::escape_string_to_nix(payload));
        assert_eq!(infer_value(&quoted), Ok((Value::String(payload.to_string()), "")));
    }
}

#[test]
fn reescaped_text_means_the_same() {
    let written = "\"\\a\\$b\\\"c\" # tail";
    let (value, tail) = infer_value(written).unwrap();
    assert_eq!(value, Value::String("a$b\"c".to_string()));
    let again = format!("\"{}\"{}", Value::escape_string_to_nix("a$b\"c"), tail);
    assert_ne!(again, written);
    assert_eq!(infer_value(&again), Ok((value, tail)));
}
