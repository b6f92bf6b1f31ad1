use kpn_codegen::abstrast::{expr_path, spawn};
use kpn_codegen::literal::literal_value;
use kpn_codegen::render::expr_to_string;

fn value(s: &str) -> Option<String> {
    literal_value(s)
}

#[test]
fn literal_plain_text() {
    assert_eq!(value("mul"), Some("mul".to_string()));
    assert_eq!(value(""), Some("".to_string()));
    assert_eq!(value("é ü"), Some("é ü".to_string()));
}

#[test]
fn literal_simple_escapes() {
    assert_eq!(value("a\\nb"), Some("a\nb".to_string()));
    assert_eq!(value("\\r\\t\\\\\\'\\\"\\0"), Some("\r\t\\'\"\0".to_string()));
}

#[test]
fn literal_numeric_escapes() {
    assert_eq!(value("\\x41"), Some("A".to_string()));
    assert_eq!(value("\\x7f"), Some("\x7f".to_string()));
    assert_eq!(value("\\x80"), None);
    assert_eq!(value("\\x4"), None);
    assert_eq!(value("\\xg1"), None);
    assert_eq!(value("\\u{48}i"), Some("Hi".to_string()));
    assert_eq!(value("\\u{1F600}"), Some("\u{1F600}".to_string()));
    assert_eq!(value("\\u{10FFFF}"), Some("\u{10FFFF}".to_string()));
    assert_eq!(value("\\u{110000}"), None);
    assert_eq!(value("\\u{D800}"), None);
    assert_eq!(value("\\u{}"), None);
    assert_eq!(value("\\u{1234567}"), None);
    assert_eq!(value("\\u{12"), None);
    assert_eq!(value("\\u48"), None);
}

#[test]
fn literal_line_continuation() {
    assert_eq!(value("a\\\n   \t b"), Some("ab".to_string()));
    assert_eq!(value("a\\\r\n  b"), Some("ab".to_string()));
    assert_eq!(value("a\\\n"), Some("a".to_string()));
    assert_eq!(value("a\\\n\u{2028}b"), None);
}

#[test]
fn literal_carriage_returns() {
    assert_eq!(value("a\r\nb"), Some("a\nb".to_string()));
    assert_eq!(value("a\rb"), None);
    assert_eq!(value("a\\\rb"), None);
}

#[test]
fn literal_rejected_text() {
    assert_eq!(value("a\"b"), None);
    assert_eq!(value("\\"), None);
    assert_eq!(value("\\q"), None);
    assert_eq!(value("a\\"), None);
}

#[test]
fn spawn_names_the_task_with_the_literal_value() {
    let e = spawn("a\\x42", vec![expr_path("x")]);
    assert_eq!(
        expr_to_string(&e),
        "task::TaskBuilder::named(\"aB\").spawn(proc() {\n{\na\\x42(x)\n}\n})"
    );
}
