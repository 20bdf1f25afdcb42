use nconf2nix::classify::{classify_line, Line};
use nconf2nix::context::RunContext;
use nconf2nix::diagnostic::{Diagnostic, DiagnosticKind, ParseError, ParseErrorKind, Severity};
use nconf2nix::document::Symbol;
use nconf2nix::options::RunOptions;
use nconf2nix::value::{Tristate, Value};

fn strict(not_set_as_no: bool) -> RunContext {
    RunContext::new(RunOptions { not_set_as_no, relaxed: false })
}

fn relaxed(not_set_as_no: bool) -> RunContext {
    RunContext::new(RunOptions { not_set_as_no, relaxed: true })
}

fn symbol(name: &str, value: Value) -> Symbol {
    Symbol { name: name.to_string(), value }
}

fn diagnostic(severity: Severity, kind: DiagnosticKind, text: &str) -> Diagnostic {
    Diagnostic { severity, kind, text: text.to_string() }
}

#[test]
fn assignment_is_split_at_the_first_equals_sign() {
    assert_eq!(
        classify_line("CONFIG_FOO=a=b", false),
        Line::Assignment { name: "FOO", text: "a=b" }
    );
    assert_eq!(classify_line("CONFIG_=", true), Line::Assignment { name: "", text: "" });
}

#[test]
fn assignment_needs_prefix_and_equals_sign() {
    assert_eq!(classify_line("CONFIG_FOO", false), Line::Other);
    assert_eq!(classify_line("FOO=y", false), Line::Other);
    assert_eq!(classify_line(" CONFIG_FOO=y", false), Line::Other);
    assert_eq!(classify_line("", false), Line::Other);
}

#[test]
fn marker_is_read_on_request_only() {
    let line = "# CONFIG_FOO is not set";
    assert_eq!(classify_line(line, true), Line::Marker { name: "FOO", tail: "" });
    assert_eq!(classify_line(line, false), Line::Other);
}

#[test]
fn marker_needs_space_and_phrase() {
    assert_eq!(classify_line("# CONFIG_FOO", true), Line::Other);
    assert_eq!(classify_line("# CONFIG_FOO is set", true), Line::Other);
    assert_eq!(classify_line("# CONFIG_FOO  is not set", true), Line::Other);
    assert_eq!(classify_line("# CONFIG_FOO=y is not set", true), Line::Marker {
        name: "FOO=y",
        tail: ""
    });
    assert_eq!(classify_line("#CONFIG_FOO is not set", true), Line::Other);
}

#[test]
fn marker_hands_back_its_tail() {
    assert_eq!(
        classify_line("# CONFIG_FOO is not set # why", true),
        Line::Marker { name: "FOO", tail: " # why" }
    );
}

#[test]
fn new_context_has_seen_nothing() {
    let context = strict(true);
    assert_eq!(context.options, RunOptions { not_set_as_no: true, relaxed: false });
    assert!(!context.error_reported);
    assert!(context.diagnostics.is_empty());
    assert_eq!(context.exit_code(), 0);
}

#[test]
fn marker_defines_symbol_as_no() {
    let mut context = strict(true);
    let mut symbols = Vec::new();
    assert_eq!(context.process_line("# CONFIG_FOO is not set", &mut symbols), Ok(true));
    assert_eq!(symbols, vec![symbol("FOO", Value::Tristate(Tristate::No))]);
    assert!(context.diagnostics.is_empty());
    assert!(!context.error_reported);
}

#[test]
fn marker_without_request_is_not_handled() {
    let mut context = strict(false);
    let mut symbols = Vec::new();
    assert_eq!(context.process_line("# CONFIG_FOO is not set", &mut symbols), Ok(false));
    assert!(symbols.is_empty());
    context.ignore_line("# CONFIG_FOO is not set");
    assert!(context.diagnostics.is_empty());
}

#[test]
fn marker_tail_is_validated() {
    let mut context = strict(true);
    let mut symbols = Vec::new();
    assert_eq!(context.process_line("# CONFIG_FOO is not set at all", &mut symbols), Ok(true));
    assert_eq!(symbols, vec![symbol("FOO", Value::Tristate(Tristate::No))]);
    assert_eq!(
        context.diagnostics,
        vec![diagnostic(Severity::Error, DiagnosticKind::TrailingContent, " at all")]
    );
    assert!(context.error_reported);
}

#[test]
fn quoted_assignment_renders_escaped() {
    let mut context = strict(false);
    let mut symbols = Vec::new();
    let line = "CONFIG_BAR=\"he said \\\"hi\\\"\"";
    assert_eq!(context.process_line(line, &mut symbols), Ok(true));
    assert_eq!(symbols, vec![symbol("BAR", Value::String("he said \"hi\"".to_string()))]);
    assert_eq!(symbols[0].value.to_nix(), "freeform \"he said \\\"hi\\\"\"");
}

#[test]
fn hex_assignment_is_not_evaluated() {
    let mut context = strict(false);
    let mut symbols = Vec::new();
    assert_eq!(context.process_line("CONFIG_BAZ=0x1F", &mut symbols), Ok(true));
    assert_eq!(symbols, vec![symbol("BAZ", Value::Hex("0x1F".to_string()))]);
    assert_eq!(symbols[0].value.to_nix(), "freeform \"0x1F\"");
}

#[test]
fn symbols_are_appended_in_order_and_kept_twice() {
    let mut context = strict(false);
    let mut symbols = vec![symbol("OLD", Value::Int("1".to_string()))];
    assert_eq!(context.process_line("CONFIG_A=y", &mut symbols), Ok(true));
    assert_eq!(context.process_line("CONFIG_A=m", &mut symbols), Ok(true));
    assert_eq!(
        symbols,
        vec![
            symbol("OLD", Value::Int("1".to_string())),
            symbol("A", Value::Tristate(Tristate::Yes)),
            symbol("A", Value::Tristate(Tristate::Module)),
        ]
    );
}

#[test]
fn hard_failure_leaves_everything_as_it_was() {
    let mut context = strict(false);
    let mut symbols = vec![symbol("OLD", Value::Int("1".to_string()))];
    assert_eq!(
        context.process_line("CONFIG_S=\"unterminated", &mut symbols),
        Err(ParseError { kind: ParseErrorKind::InvalidDelimiter, text: "\"unterminated".to_string() })
    );
    assert_eq!(symbols, vec![symbol("OLD", Value::Int("1".to_string()))]);
    assert!(context.diagnostics.is_empty());
    assert!(!context.error_reported);
}

#[test]
fn parse_value_validates_the_tail() {
    let mut context = strict(false);
    assert_eq!(context.parse_value("y # built in"), Ok(Value::Tristate(Tristate::Yes)));
    assert!(context.diagnostics.is_empty());
    assert_eq!(context.parse_value("yes"), Ok(Value::Tristate(Tristate::Yes)));
    assert_eq!(
        context.diagnostics,
        vec![diagnostic(Severity::Error, DiagnosticKind::TrailingContent, "es")]
    );
    assert!(context.error_reported);
}

#[test]
fn parse_value_fails_hard_without_recording() {
    let mut context = strict(false);
    assert_eq!(
        context.parse_value("Y"),
        Err(ParseError { kind: ParseErrorKind::Unrecognized, text: "Y".to_string() })
    );
    assert!(context.diagnostics.is_empty());
    assert!(!context.error_reported);
}

#[test]
fn ignore_remain_passes_over_blank_and_comment() {
    let mut context = strict(false);
    context.ignore_remain("");
    context.ignore_remain("   ");
    context.ignore_remain(" # note");
    assert!(context.diagnostics.is_empty());
    assert!(!context.error_reported);
}

#[test]
fn ignore_remain_reports_in_strict_mode() {
    let mut context = strict(false);
    context.ignore_remain(" extra ");
    assert_eq!(
        context.diagnostics,
        vec![diagnostic(Severity::Error, DiagnosticKind::TrailingContent, " extra ")]
    );
    assert!(context.error_reported);
    assert_eq!(context.exit_code(), 1);
    assert_eq!(context.diagnostics[0].message(), "unprocessed tailing content: ' extra '");
}

#[test]
fn ignore_remain_warns_in_relaxed_mode() {
    let mut context = relaxed(false);
    context.ignore_remain(" extra ");
    assert_eq!(
        context.diagnostics,
        vec![diagnostic(Severity::Warning, DiagnosticKind::TrailingContent, " extra ")]
    );
    assert!(!context.error_reported);
    assert_eq!(context.exit_code(), 0);
    assert_eq!(context.diagnostics[0].message(), "ignore tailing content: ' extra '");
}

#[test]
fn ignore_line_passes_over_blank_and_comment() {
    let mut context = strict(false);
    context.ignore_line("");
    context.ignore_line("  \t");
    context.ignore_line("# Automatically generated file; DO NOT EDIT.");
    context.ignore_line("   #");
    assert!(context.diagnostics.is_empty());
    assert!(!context.error_reported);
}

#[test]
fn ignore_line_reports_in_strict_mode() {
    let mut context = strict(false);
    context.ignore_line("garbage text");
    assert_eq!(
        context.diagnostics,
        vec![diagnostic(Severity::Error, DiagnosticKind::IllFormedLine, "garbage text")]
    );
    assert!(context.error_reported);
    assert_eq!(context.diagnostics[0].message(), "ill-formed line: 'garbage text'");
}

#[test]
fn ignore_line_warns_in_relaxed_mode() {
    let mut context = relaxed(false);
    context.ignore_line("garbage text");
    assert_eq!(
        context.diagnostics,
        vec![diagnostic(Severity::Warning, DiagnosticKind::IllFormedLine, "garbage text")]
    );
    assert!(!context.error_reported);
    assert_eq!(context.diagnostics[0].message(), "ignored ill-formed line: 'garbage text'");
}

#[test]
fn exit_code_needs_flag_and_strict_mode() {
    let mut context = relaxed(false);
    context.error_reported = true;
    assert_eq!(context.exit_code(), 0);
    context.options.relaxed = false;
    assert_eq!(context.exit_code(), 1);
    context.error_reported = false;
    assert_eq!(context.exit_code(), 0);
}

#[test]
fn consume_line_applies_the_policy_to_unhandled_lines() {
    let mut context = strict(false);
    let mut symbols = Vec::new();
    assert_eq!(context.consume_line("# comment", &mut symbols), Ok(()));
    assert_eq!(context.consume_line("CONFIG_A=1", &mut symbols), Ok(()));
    assert_eq!(context.consume_line("CONFIG_B", &mut symbols), Ok(()));
    assert_eq!(symbols, vec![symbol("A", Value::Int("1".to_string()))]);
    assert_eq!(
        context.diagnostics,
        vec![diagnostic(Severity::Error, DiagnosticKind::IllFormedLine, "CONFIG_B")]
    );
}

#[test]
fn line_put_together_from_parts_is_taken_apart_again() {
    for (name, text) in [("FOO", "y"), ("", ""), ("A B", "\"=\" # x"), ("né", "0x=1")] {
        let line = format!("CONFIG_{name}={text}");
        assert_eq!(classify_line(&line, false), Line::Assignment { name, text });
        assert_eq!(classify_line(&line, true), Line::Assignment { name, text });
    }
    for (name, tail) in [("FOO", ""), ("", " # x"), ("A=B", " is not set")] {
        let line = format!("# CONFIG_{name} is not set{tail}");
        assert_eq!(classify_line(&line, true), Line::Marker { name, tail });
        assert_eq!(classify_line(&line, false), Line::Other);
    }
}
