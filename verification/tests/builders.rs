use kpn_codegen::abstrast::{
    arg, block, expr, expr_path, fn_item, pat, pat_name, path, spawn, stmt_semi,
    ty_nil, ty_path,
};
use kpn_codegen::ast::{
    Arg, Block, Expr, ExprKind, FnDecl, LitKind, Pat, PatKind, Path, PathSegment, Ty, TyKind,
};

#[test]
fn path_holds_one_segment() {
    let p = path("core::num::Float", None);
    assert_eq!(
        p,
        Path {
            segments: vec![PathSegment { identifier: "core::num::Float".to_string(), types: vec![] }]
        }
    );
    let q = path("Vec", Some(TyKind::Nil));
    assert_eq!(q.segments[0].types, vec![Ty { node: TyKind::Nil }]);
}

#[test]
fn arg_is_a_name_and_a_type() {
    assert_eq!(
        arg("x", "T"),
        Arg { ty: ty_path("T"), pat: Pat { node: PatKind::Ident("x".to_string()) } }
    );
    assert_eq!(pat_name("y"), pat(PatKind::Ident("y".to_string())));
}

#[test]
fn fn_item_is_generic_only_with_inputs() {
    let plain = fn_item("main", vec![], ty_nil(), block(vec![], None));
    assert!(plain.generics.ty_params.is_empty());
    assert_eq!(plain.ident, "main");
    assert_eq!(plain.decl, FnDecl { inputs: vec![], output: ty_nil() });
    let generic = fn_item("f", vec![arg("x", "T")], ty_nil(), block(vec![], None));
    assert_eq!(generic.generics.ty_params.len(), 1);
    let t = &generic.generics.ty_params[0];
    assert_eq!(t.ident, "T");
    assert_eq!(t.bounds, vec![path("core::num::Float", None), path("core::kinds::Send", None)]);
}

#[test]
fn block_keeps_statements_and_expression() {
    let s = stmt_semi(expr_path("a"));
    let b = block(vec![s], Some(expr_path("b")));
    assert_eq!(b.stmts.len(), 1);
    assert_eq!(b.expr, Some(Box::new(expr_path("b"))));
    assert_eq!(block(vec![], None), Block { stmts: vec![], expr: None });
}

#[test]
fn spawn_wraps_the_call_in_a_named_task() {
    let e = spawn("f", vec![expr(ExprKind::Lit(LitKind::Int(1)))]);
    match e.node {
        ExprKind::Call(head, args) => {
            assert_eq!(args.len(), 1);
            match head.node {
                ExprKind::Field(inner, name) => {
                    assert_eq!(name, "spawn");
                    match inner.node {
                        ExprKind::Call(f, lit) => {
                            assert_eq!(lit, vec![Expr { node: ExprKind::Lit(LitKind::Str("f".to_string())) }]);
                            match f.node {
                                ExprKind::Path(p) => {
                                    let names: Vec<&str> =
                                        p.segments.iter().map(|s| s.identifier.as_str()).collect();
                                    assert_eq!(names, vec!["task", "TaskBuilder", "named"]);
                                }
                                _ => panic!("not a path"),
                            }
                        }
                        _ => panic!("not a call"),
                    }
                }
                _ => panic!("not a field"),
            }
        }
        _ => panic!("not a call"),
    }
}
