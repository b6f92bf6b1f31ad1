use kpn_codegen::abstrast::{expr_char, expr_str};
use kpn_codegen::render::expr_to_string;
use kpn_codegen::stage2::{default_args_expr, getDefaultArgs};
use syntex_syntax::ast::{ExprKind, LitKind};
use syntex_syntax::codemap::FilePathMapping;
use syntex_syntax::parse::{self, ParseSess};
use syntex_syntax::print::pprust;

/// The expression that the Rust parser reads from `s`: its text in the
/// source and as the printer writes it.
fn parse_and_print(s: &str) -> (String, String) {
    let sess = ParseSess::new(FilePathMapping::empty());
    let e = parse::parse_expr_from_source_str("file".to_string(), s.to_string(), &sess)
        .unwrap_or_else(|mut d| {
            d.cancel();
            panic!("parse error")
        });
    let text = sess.codemap().span_to_snippet(e.span).unwrap();
    (text, pprust::expr_to_string(&e))
}

#[test]
fn default_args_trees_are_what_the_parser_reads() {
    for name in ["*", "+", "Z", "/*", ",*", ",+", ",,*", ",/Z", "/,+"] {
        let d = getDefaultArgs(name.to_string());
        assert!(!d.is_empty());
        let (text, printed) = parse_and_print(&d);
        assert_eq!(text, d);
        let tree = default_args_expr(name.to_string()).unwrap();
        assert_eq!(expr_to_string(&tree), printed);
    }
}

#[test]
fn default_args_tree_of_a_vector_process() {
    let tree = default_args_expr(",*".to_string()).unwrap();
    assert_eq!(expr_to_string(&tree), "range(0, 512).map(|_| num::one()).collect()");
    assert!(default_args_expr("%".to_string()).is_none());
    assert!(default_args_expr(",x".to_string()).is_none());
}

#[test]
fn spawn_head_parses_as_a_field_access() {
    let s = "task::TaskBuilder::named(\"mul\").spawn";
    let (text, printed) = parse_and_print(s);
    assert_eq!(text, s);
    assert_eq!(printed, s);
}

/// The string value of the task-name literal that the parser reads from the
/// head of a spawn.
fn parsed_task_name(name: &str) -> String {
    let src = format!("task::TaskBuilder::named(\"{}\").spawn", name);
    let sess = ParseSess::new(FilePathMapping::empty());
    let e = parse::parse_expr_from_source_str("file".to_string(), src, &sess)
        .unwrap_or_else(|mut d| {
            d.cancel();
            panic!("parse error")
        });
    let call = match e.node {
        ExprKind::Field(ref call, _) => call.clone(),
        _ => panic!("not a field"),
    };
    let arg = match call.node {
        ExprKind::Call(_, ref args) => args[0].clone(),
        _ => panic!("not a call"),
    };
    let value = match arg.node {
        ExprKind::Lit(ref lit) => match lit.node {
            LitKind::Str(sym, _) => sym.as_str().to_string(),
            _ => panic!("not a string"),
        },
        _ => panic!("not a literal"),
    };
    value
}

#[test]
fn task_name_literal_is_what_the_parser_reads() {
    for name in [
        "mul",
        "a\\nb",
        "\\r\\t\\\\\\'\\\"\\0",
        "\\x41",
        "\\u{48}i",
        "\\u{1F600}",
        "a\\\n   \t b",
        "a\\\r\n  b",
        "a\r\nb",
        "é ü",
    ] {
        assert_eq!(
            kpn_codegen::literal::literal_value(name),
            Some(parsed_task_name(name)),
            "name {:?}",
            name
        );
    }
}

#[test]
fn string_and_char_literals_print_as_the_printer_writes_them() {
    for src in ["\"it's\"", "\"\\u{e9} \\u{1f600}\"", "\"\\0\\t\\r\\n\\\\\\\"\"", "\"\\u{7f}~\""] {
        let (_, printed) = parse_and_print(src);
        let value = kpn_codegen::literal::literal_value(&src[1..src.len() - 1]).unwrap();
        assert_eq!(expr_to_string(&expr_str(&value)), printed, "source {:?}", src);
    }
    for (c, src) in [('\'', "'\\''"), ('"', "'\"'"), ('\u{e9}', "'\u{e9}'"), ('\n', "'\\n'")] {
        let (_, printed) = parse_and_print(src);
        assert_eq!(expr_to_string(&expr_char(c)), printed, "char {:?}", c);
    }
}
