use kpn_codegen::abstrast::{expr, expr_lit, expr_path, expr_vec, path, Json, JSONtoAST};
use kpn_codegen::ast::{ExprKind, LitKind};

#[test]
fn json_numbers_are_literals() {
    assert_eq!(JSONtoAST(Json::Int(3)), Some(ExprKind::Lit(LitKind::Int(3))));
    assert_eq!(
        JSONtoAST(Json::Float("2.5".to_string())),
        Some(ExprKind::Lit(LitKind::Float("2.5".to_string())))
    );
}

#[test]
fn json_booleans_are_literals() {
    assert_eq!(JSONtoAST(Json::Bool(true)), Some(ExprKind::Lit(LitKind::Bool(true))));
}

#[test]
fn json_strings_are_paths() {
    assert_eq!(JSONtoAST(Json::Str("x".to_string())), Some(ExprKind::Path(path("x", None))));
}

#[test]
fn json_null_and_object_stand_for_nothing() {
    assert_eq!(JSONtoAST(Json::Null), None);
    assert_eq!(JSONtoAST(Json::Object), None);
}

#[test]
fn json_list_drops_nulls() {
    let j = Json::List(vec![Json::Int(1), Json::Null, Json::Bool(true), Json::Object]);
    assert_eq!(
        JSONtoAST(j),
        Some(ExprKind::Vec(vec![
            expr_lit(LitKind::Int(1)),
            expr_lit(LitKind::Bool(true)),
        ]))
    );
}

#[test]
fn json_list_of_one_list_is_boxed() {
    let j = Json::List(vec![Json::List(vec![Json::Int(1), Json::Str("y".to_string())])]);
    assert_eq!(
        JSONtoAST(j),
        Some(ExprKind::Vstore(Box::new(expr_vec(vec![
            expr_lit(LitKind::Int(1)),
            expr_path("y"),
        ]))))
    );
}

#[test]
fn json_nested_lists() {
    let j = Json::List(vec![Json::List(vec![Json::Int(1)]), Json::Int(2)]);
    assert_eq!(
        JSONtoAST(j),
        Some(ExprKind::Vec(vec![
            expr(ExprKind::Vec(vec![expr_lit(LitKind::Int(1))])),
            expr_lit(LitKind::Int(2)),
        ]))
    );
}

#[test]
fn json_empty_list() {
    assert_eq!(JSONtoAST(Json::List(vec![])), Some(ExprKind::Vec(vec![])));
}
