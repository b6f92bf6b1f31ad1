use kpn_codegen::abstrast::{
    arg, block, expr, expr_call, expr_char, expr_lit, expr_owned_vec, expr_path, expr_str,
    expr_tuple, expr_vec, fn_item, pat, pat_name, pat_tuple, pat_wild, pat_wild_multi, path,
    spawn, stmt_let, stmt_semi, ty_infer, ty_nil, ty_path,
};
use kpn_codegen::ast::{ExprKind, LitKind, PatKind, TyKind};
use kpn_codegen::literal::literal_value;
use kpn_codegen::render::{expr_to_string, item_to_string};

#[test]
fn render_literals() {
    assert_eq!(expr_to_string(&expr_lit(LitKind::Int(-42))), "-42");
    assert_eq!(expr_to_string(&expr_lit(LitKind::Int(0))), "0");
    assert_eq!(expr_to_string(&expr_lit(LitKind::Int(i64::MIN))), "-9223372036854775808");
    assert_eq!(expr_to_string(&expr_lit(LitKind::Int(i64::MAX))), "9223372036854775807");
    assert_eq!(expr_to_string(&expr_lit(LitKind::Float("1.5".to_string()))), "1.5");
    assert_eq!(expr_to_string(&expr_lit(LitKind::Bool(false))), "false");
    assert_eq!(expr_to_string(&expr_str("a\"b\\c\n")), "\"a\\\"b\\\\c\\n\"");
    assert_eq!(expr_to_string(&expr_char('\'')), "'\\''");
    assert_eq!(expr_to_string(&expr_char('x')), "'x'");
}

#[test]
fn render_escapes_what_is_not_printable_ascii() {
    assert_eq!(expr_to_string(&expr_str("it's")), "\"it\\'s\"");
    assert_eq!(expr_to_string(&expr_str("\t\r")), "\"\\t\\r\"");
    assert_eq!(expr_to_string(&expr_str("é")), "\"\\u{e9}\"");
    assert_eq!(expr_to_string(&expr_str("\u{1F600}~ ")), "\"\\u{1f600}~ \"");
    assert_eq!(expr_to_string(&expr_str("\0\x7f")), "\"\\u{0}\\u{7f}\"");
    assert_eq!(expr_to_string(&expr_char('"')), "'\\\"'");
    assert_eq!(expr_to_string(&expr_char('\u{10FFFF}')), "'\\u{10ffff}'");
}

#[test]
fn rendered_string_literal_reads_back() {
    for s in ["", "plain", "it's \"q\"", "tab\there\r\n", "é ü \u{1F600}", "\0\x01\x7f\\"] {
        let text = expr_to_string(&expr_str(s));
        assert!(text.starts_with('"') && text.ends_with('"') && text.len() >= 2);
        let inner = &text[1..text.len() - 1];
        assert_eq!(literal_value(inner), Some(s.to_string()), "text {:?}", text);
    }
}

#[test]
fn render_compound_expressions() {
    let call = expr_call(expr_path("f"), vec![expr_path("a"), expr_lit(LitKind::Int(1))]);
    assert_eq!(expr_to_string(&call), "f(a, 1)");
    assert_eq!(expr_to_string(&expr_vec(vec![expr_path("a"), expr_path("b")])), "[a, b]");
    assert_eq!(expr_to_string(&expr_owned_vec(vec![])), "[]");
    assert_eq!(expr_to_string(&expr_tuple(vec![expr_path("a")])), "(a,)");
    assert_eq!(expr_to_string(&expr_tuple(vec![expr_path("a"), expr_path("b")])), "(a, b)");
    assert_eq!(
        expr_to_string(&expr(ExprKind::Vstore(Box::new(expr_vec(vec![expr_path("a")]))))),
        "box [a]"
    );
    assert_eq!(expr_to_string(&expr(ExprKind::Verbatim("num::one()".to_string()))), "num::one()");
}

#[test]
fn render_typed_path() {
    let p = path("Receiver", Some(TyKind::Path(path("T", None))));
    assert_eq!(expr_to_string(&expr(ExprKind::Path(p))), "Receiver<T>");
}

#[test]
fn render_spawn() {
    let e = spawn("mul", vec![expr_path("rx01"), expr_path("tx12")]);
    assert_eq!(
        expr_to_string(&e),
        "task::TaskBuilder::named(\"mul\").spawn(proc() {\n{\nmul(rx01, tx12)\n}\n})"
    );
}

#[test]
fn render_item_with_statements() {
    let s1 = stmt_let(
        pat_tuple(vec![pat_name("tx12"), pat_name("rx12")]),
        expr_call(expr_path("channel"), vec![]),
    );
    let s2 = stmt_semi(expr_call(expr_path("go"), vec![]));
    let it = fn_item("main", vec![], ty_nil(), block(vec![s1, s2], None));
    assert_eq!(
        item_to_string(&it),
        "pub fn main() {\nlet (tx12, rx12) = channel();\ngo();\n}\n"
    );
}

#[test]
fn render_generic_item() {
    let it = fn_item(
        "net",
        vec![arg("rx", "Receiver<T>"), arg("k", "T")],
        ty_path("T"),
        block(vec![], Some(expr_path("k"))),
    );
    assert_eq!(
        item_to_string(&it),
        "pub fn net<T: core::num::Float + core::kinds::Send>(rx: Receiver<T>, k: T) -> T {\nk\n}\n"
    );
}

#[test]
fn render_patterns_and_types() {
    let e = expr(ExprKind::Proc(
        kpn_codegen::ast::FnDecl {
            inputs: vec![
                kpn_codegen::ast::Arg { ty: ty_infer(), pat: pat_wild() },
                kpn_codegen::ast::Arg { ty: ty_nil(), pat: pat_wild_multi() },
                kpn_codegen::ast::Arg {
                    ty: ty_infer(),
                    pat: pat(PatKind::Tup(vec![pat_name("a")])),
                },
            ],
            output: ty_infer(),
        },
        Box::new(block(vec![], None)),
    ));
    assert_eq!(expr_to_string(&e), "proc(_: _, ..: (), (a,): _) {\n}");
}
