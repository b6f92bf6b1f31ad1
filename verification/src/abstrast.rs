//! Constructors for the syntax tree, each with the exact tree it builds.
use crate::ast::{
    args_view, exprs_view, pat_view, pats_view, segment_view, segments_view, stmts_view, ty_param_view, ty_view,
    tys_view, Arg, Block, Expr, ExprKind, FnDecl, Generics, Item, LitKind, Pat, PatKind, Path,
    PathSegment, SArg, SBlock, SDecl, SExpr, SItem, SLit, SPat, SPath, SSegment, SStmt, STy,
    STyParam, Stmt, StmtKind, Ty, TyKind, TyParam,
};
use crate::literal::{literal_value, unescape};
use vstd::prelude::*;
use vstd::string::*;

verus! {

broadcast use vstd::std_specs::vec::group_vec_axioms, vstd::seq::group_seq_axioms;

// ---------------------------------------------------------------------------
// The trees, as spec functions
// ---------------------------------------------------------------------------
/// A path segment without type parameters.
pub open spec fn seg(name: Seq<char>) -> SSegment {
    SSegment { ident: name, types: seq![] }
}

/// A path of one segment that holds the whole name.
pub open spec fn spath(name: Seq<char>) -> SPath {
    SPath { segments: seq![seg(name)] }
}

/// `name: Type` where `Type` is a one-segment path.
pub open spec fn sarg(name: Seq<char>, ty: Seq<char>) -> SArg {
    SArg { pat: SPat::Ident(name), ty: STy::Path(spath(ty)) }
}

/// The one type parameter of a generated function that takes arguments:
/// `T: core::num::Float + core::kinds::Send`.
pub open spec fn float_send_param() -> STyParam {
    STyParam {
        ident: "T"@,
        bounds: seq![spath("core::num::Float"@), spath("core::kinds::Send"@)],
    }
}

/// The function item `pub fn name<..>(inputs) -> output body`; it is generic
/// exactly when it has inputs.
pub open spec fn sfn_item(name: Seq<char>, inputs: Seq<SArg>, output: STy, body: SBlock) -> SItem {
    SItem {
        ident: name,
        ty_params: if inputs.len() == 0 {
            seq![]
        } else {
            seq![float_send_param()]
        },
        decl: SDecl { inputs, output },
        body,
    }
}

pub open spec fn sblock(stmts: Seq<SStmt>, e: Option<SExpr>) -> SBlock {
    SBlock {
        stmts,
        expr: match e {
            Some(x) => Some(Box::new(x)),
            None => None,
        },
    }
}

pub open spec fn scall(f: SExpr, args: Seq<SExpr>) -> SExpr {
    SExpr::Call(Box::new(f), args)
}

/// The string that a process name stands for between the quotes of the
/// task-name literal.
pub open spec fn task_name(fname: Seq<char>) -> Seq<char> {
    match unescape(fname) {
        Some(v) => v,
        None => seq![],
    }
}

/// `task::TaskBuilder::named("fname").spawn`, the literal holding the
/// string that `fname` stands for between quotes.
pub open spec fn spawn_head(fname: Seq<char>) -> SExpr {
    SExpr::Field(
        Box::new(
            scall(
                SExpr::Path(SPath { segments: seq![seg("task"@), seg("TaskBuilder"@), seg("named"@)] }),
                seq![SExpr::Lit(SLit::Str(task_name(fname)))],
            ),
        ),
        "spawn"@,
    )
}

/// `task::TaskBuilder::named("fname").spawn(proc() { { fname(args) } })`:
/// the task is named by the string the name stands for between quotes, and
/// the call is to the name itself.
pub open spec fn sspawn(fname: Seq<char>, args: Seq<SExpr>) -> SExpr {
    let inner = scall(SExpr::Path(spath(fname)), args);
    let body = sblock(seq![], Some(SExpr::Block(Box::new(sblock(seq![], Some(inner))))));
    scall(
        spawn_head(fname),
        seq![SExpr::Proc(SDecl { inputs: seq![], output: STy::Infer }, Box::new(body))],
    )
}

/// `let (a, b) = init;`
pub open spec fn slet_pair(a: Seq<char>, b: Seq<char>, init: SExpr) -> SStmt {
    SStmt::Let(SPat::Tup(seq![SPat::Ident(a), SPat::Ident(b)]), init)
}

/// `channel()`
pub open spec fn channel_init() -> SExpr {
    scall(SExpr::Path(spath("channel"@)), seq![])
}

// ---------------------------------------------------------------------------
// Constructors
// ---------------------------------------------------------------------------
pub fn path(name: &str, ty: Option<TyKind>) -> (r: Path)
    ensures
        r@ == (SPath {
            segments: seq![
                SSegment {
                    ident: name@,
                    types: match ty {
                        Some(n) => seq![ty_view(Ty { node: n })],
                        None => seq![],
                    },
                },
            ],
        }),
{
    let ghost tyv = ty;
    let mut types: Vec<Ty> = Vec::new();
    match ty {
        Some(n) => {
            types.push(Ty { node: n });
        },
        None => {},
    }
    let mut segments: Vec<PathSegment> = Vec::new();
    segments.push(PathSegment { identifier: String::from_str(name), types });
    let r = Path { segments };
    proof {
        let want = SSegment {
            ident: name@,
            types: match tyv {
                Some(n) => seq![ty_view(Ty { node: n })],
                None => seq![],
            },
        };
        assert(tys_view(r.segments@[0].types@) =~= want.types);
        assert(segments_view(r.segments@) =~= seq![want]);
    }
    r
}

pub fn arg(e: &str, n: &str) -> (r: Arg)
    ensures
        r@ == sarg(e@, n@),
{
    Arg { ty: ty_path(n), pat: pat_name(e) }
}

pub fn fn_item(name: &str, inputs: Vec<Arg>, output: Ty, block: Block) -> (r: Item)
    ensures
        r@ == sfn_item(name@, args_view(inputs@), output@, block@),
{
    let mut ty_params: Vec<TyParam> = Vec::new();
    if inputs.len() != 0 {
        let mut bounds: Vec<Path> = Vec::new();
        bounds.push(path("core::num::Float", None));
        bounds.push(path("core::kinds::Send", None));
        ty_params.push(TyParam { ident: String::from_str("T"), bounds });
        proof {
            assert(ty_param_view(ty_params@[0]) == float_send_param());
        }
    }
    let ghost inv = inputs@;
    let r = Item {
        ident: String::from_str(name),
        generics: Generics { ty_params },
        decl: FnDecl { inputs, output },
        body: block,
    };
    assert(r@.ty_params =~= sfn_item(name@, args_view(inv), output@, block@).ty_params);
    r
}

fn plain_segment(name: &str) -> (r: PathSegment)
    ensures
        segment_view(r) == seg(name@),
{
    let r = PathSegment { identifier: String::from_str(name), types: Vec::new() };
    assert(tys_view(r.types@) =~= seq![]);
    r
}

/// The path `a::b`.
pub(crate) fn two_segment_path(a: &str, b: &str) -> (r: Path)
    ensures
        r@ == (SPath { segments: seq![seg(a@), seg(b@)] }),
{
    let mut segments: Vec<PathSegment> = Vec::new();
    segments.push(plain_segment(a));
    segments.push(plain_segment(b));
    let r = Path { segments };
    assert(segments_view(r.segments@) =~= seq![seg(a@), seg(b@)]);
    r
}

/// A task named `fname` that calls `fname` with `args`; the name must be a
/// valid string-literal text, as it is written between the quotes of the
/// task's name.
pub fn spawn(fname: &str, args: Vec<Expr>) -> (r: Expr)
    requires
        unescape(fname@) is Some,
    ensures
        r@ == sspawn(fname@, exprs_view(args@)),
{
    let ghost av = args@;
    let exp: Expr = expr_call(expr_path(fname), args);
    let decl = FnDecl { inputs: Vec::new(), output: ty_infer() };
    let inner = block(Vec::new(), Some(expr(ExprKind::Block(Box::new(block(Vec::new(), Some(exp)))))));
    let mut named: Vec<PathSegment> = Vec::new();
    named.push(plain_segment("task"));
    named.push(plain_segment("TaskBuilder"));
    named.push(plain_segment("named"));
    let named_path = Path { segments: named };
    let name = match literal_value(fname) {
        Some(v) => v,
        None => {
            assert(false);
            String::new()
        },
    };
    let mut lit: Vec<Expr> = Vec::new();
    lit.push(expr_lit(LitKind::Str(name)));
    let head = expr(
        ExprKind::Field(Box::new(expr_call(expr(ExprKind::Path(named_path)), lit)), String::from_str("spawn")),
    );
    let mut pargs: Vec<Expr> = Vec::new();
    let ghost hv = head@;
    let ghost iv = inner@;
    pargs.push(expr(ExprKind::Proc(decl, Box::new(inner))));
    let r = expr_call(head, pargs);
    proof {

        assert(segments_view(named_path.segments@) =~= seq![
            seg("task"@),
            seg("TaskBuilder"@),
            seg("named"@),
        ]);
        assert(args_view(decl.inputs@) =~= seq![]);
        assert(exprs_view(lit@) =~= seq![SExpr::Lit(SLit::Str(task_name(fname@)))]);
        assert(hv == spawn_head(fname@));
        assert(stmts_view(Seq::<Stmt>::empty()) =~= seq![]);
        let inner_call = scall(SExpr::Path(spath(fname@)), exprs_view(av));
        assert(iv == sblock(
            seq![],
            Some(SExpr::Block(Box::new(sblock(seq![], Some(inner_call))))),
        ));
        assert(exprs_view(pargs@) =~= seq![
            SExpr::Proc(SDecl { inputs: seq![], output: STy::Infer }, Box::new(iv)),
        ]);
    }
    r
}

pub fn block(stmts: Vec<Stmt>, expr: Option<Expr>) -> (r: Block)
    ensures
        r@ == sblock(
            stmts_view(stmts@),
            match expr {
                Some(e) => Some(e@),
                None => None,
            },
        ),
{
    let e = match expr {
        Some(x) => Some(Box::new(x)),
        None => None,
    };
    Block { stmts, expr: e }
}

pub fn expr(node: ExprKind) -> (r: Expr)
    ensures
        r@ == node@,
{
    Expr { node }
}

pub fn expr_lit(lit: LitKind) -> (r: Expr)
    ensures
        r@ == SExpr::Lit(lit@),
{
    expr(ExprKind::Lit(lit))
}

pub fn expr_str(s: &str) -> (r: Expr)
    ensures
        r@ == SExpr::Lit(SLit::Str(s@)),
{
    expr_lit(LitKind::Str(String::from_str(s)))
}

pub fn expr_owned_vec(l: Vec<Expr>) -> (r: Expr)
    ensures
        r@ == SExpr::Vec(exprs_view(l@)),
{
    expr(ExprKind::Vec(l))
}

pub fn expr_char(c: char) -> (r: Expr)
    ensures
        r@ == SExpr::Lit(SLit::Char(c)),
{
    expr_lit(LitKind::Char(c))
}

pub fn expr_path(p: &str) -> (r: Expr)
    ensures
        r@ == SExpr::Path(spath(p@)),
{
    expr(ExprKind::Path(path(p, None)))
}

pub fn expr_tuple(l: Vec<Expr>) -> (r: Expr)
    ensures
        r@ == SExpr::Tup(exprs_view(l@)),
{
    expr(ExprKind::Tup(l))
}

pub fn expr_vec(l: Vec<Expr>) -> (r: Expr)
    ensures
        r@ == SExpr::Vec(exprs_view(l@)),
{
    expr(ExprKind::Vec(l))
}

pub fn expr_call(f: Expr, args: Vec<Expr>) -> (r: Expr)
    ensures
        r@ == scall(f@, exprs_view(args@)),
{
    expr(ExprKind::Call(Box::new(f), args))
}

pub fn pat(p: PatKind) -> (r: Pat)
    ensures
        r@ == pat_view(Pat { node: p }),
{
    Pat { node: p }
}

pub fn pat_name(name: &str) -> (r: Pat)
    ensures
        r@ == SPat::Ident(name@),
{
    pat(PatKind::Ident(String::from_str(name)))
}

pub fn pat_tuple(items: Vec<Pat>) -> (r: Pat)
    ensures
        r@ == SPat::Tup(pats_view(items@)),
{
    pat(PatKind::Tup(items))
}

pub fn pat_wild() -> (r: Pat)
    ensures
        r@ == SPat::Wild,
{
    pat(PatKind::Wild)
}

pub fn pat_wild_multi() -> (r: Pat)
    ensures
        r@ == SPat::WildMulti,
{
    pat(PatKind::WildMulti)
}

pub fn ty_infer() -> (r: Ty)
    ensures
        r@ == STy::Infer,
{
    Ty { node: TyKind::Infer }
}

pub fn ty_nil() -> (r: Ty)
    ensures
        r@ == STy::Nil,
{
    Ty { node: TyKind::Nil }
}

pub fn ty_path(e: &str) -> (r: Ty)
    ensures
        r@ == STy::Path(spath(e@)),
{
    Ty { node: TyKind::Path(path(e, None)) }
}

/// `let (a, b) = channel();`
pub(crate) fn let_channel(a: &str, b: &str) -> (r: Stmt)
    ensures
        r@ == slet_pair(a@, b@, channel_init()),
{
    let mut pats: Vec<Pat> = Vec::new();
    pats.push(pat_name(a));
    pats.push(pat_name(b));
    let ghost pv = pats@;
    let init = expr_call(expr_path("channel"), Vec::new());
    let r = stmt_let(pat_tuple(pats), init);
    assert(pats_view(pv) =~= seq![SPat::Ident(a@), SPat::Ident(b@)]);
    assert(exprs_view(Seq::<Expr>::empty()) =~= seq![]);
    r
}

pub fn stmt_let(pat: Pat, expr: Expr) -> (r: Stmt)
    ensures
        r@ == SStmt::Let(pat@, expr@),
{
    Stmt { node: StmtKind::Let(pat, expr) }
}

pub fn stmt_semi(expr: Expr) -> (r: Stmt)
    ensures
        r@ == SStmt::Semi(expr@),
{
    Stmt { node: StmtKind::Semi(expr) }
}

// ---------------------------------------------------------------------------
// JSON values as node arguments
// ---------------------------------------------------------------------------
/// A JSON value as the generator reads it. A number is kept as an integer
/// when it has no fractional part and as its decimal text otherwise; the
/// members of an object are never read.
#[derive(Debug, PartialEq)]
pub enum Json {
    Int(i64),
    Float(String),
    Str(String),
    List(Vec<Json>),
    Bool(bool),
    Null,
    Object,
}

#[verifier::ext_equal]
pub enum SJson {
    Int(i64),
    Float(Seq<char>),
    Str(Seq<char>),
    List(Seq<SJson>),
    Bool(bool),
    Null,
    Object,
}

pub open spec fn json_view(j: Json) -> SJson
    decreases j,
{
    match j {
        Json::Int(v) => SJson::Int(v),
        Json::Float(t) => SJson::Float(t@),
        Json::Str(s) => SJson::Str(s@),
        Json::List(l) => SJson::List(jsons_view(l@)),
        Json::Bool(b) => SJson::Bool(b),
        Json::Null => SJson::Null,
        Json::Object => SJson::Object,
    }
}

pub open spec fn jsons_view(l: Seq<Json>) -> Seq<SJson>
    decreases l,
{
    Seq::new(l.len(), |i: int| if 0 <= i < l.len() { json_view(l[i]) } else { SJson::Null })
}

impl View for Json {
    type V = SJson;

    open spec fn view(&self) -> SJson {
        json_view(*self)
    }
}

/// The expression a JSON value stands for: numbers and booleans are
/// literals, a string is a path, a list is a vector of what its elements
/// stand for (those that stand for nothing are left out), and a list whose
/// only element is a list is the boxed vector of that inner list's elements.
/// `null` and objects stand for nothing.
pub open spec fn json_to_ast(j: SJson) -> Option<SExpr>
    decreases j,
{
    match j {
        SJson::Int(v) => Some(SExpr::Lit(SLit::Int(v))),
        SJson::Float(t) => Some(SExpr::Lit(SLit::Float(t))),
        SJson::Str(s) => Some(SExpr::Path(spath(s))),
        SJson::List(l) => {
            if l.len() == 1 && l[0] is List {
                Some(SExpr::Vstore(Box::new(SExpr::Vec(json_items(l[0]->List_0)))))
            } else {
                Some(SExpr::Vec(json_items(l)))
            }
        },
        SJson::Bool(b) => Some(SExpr::Lit(SLit::Bool(b))),
        SJson::Null => None,
        SJson::Object => None,
    }
}

/// The expressions that the elements of a list stand for, in order, leaving
/// out the elements that stand for nothing.
pub open spec fn json_items(l: Seq<SJson>) -> Seq<SExpr>
    decreases l,
{
    if l.len() == 0 {
        seq![]
    } else {
        let prefix = json_items(l.drop_last());
        match json_to_ast(l.last()) {
            Some(e) => prefix.push(e),
            None => prefix,
        }
    }
}

pub open spec fn opt_node_view(o: Option<ExprKind>) -> Option<SExpr> {
    match o {
        Some(k) => Some(k@),
        None => None,
    }
}

fn clone_string(s: &String) -> (r: String)
    ensures
        r@ == s@,
{
    s.clone()
}

fn json_items_exec(l: &Vec<Json>) -> (r: Vec<Expr>)
    ensures
        exprs_view(r@) == json_items(jsons_view(l@)),
    decreases l@,
{
    let mut out: Vec<Expr> = Vec::new();
    let mut i: usize = 0;
    while i < l.len()
        invariant
            i <= l@.len(),
            exprs_view(out@) == json_items(jsons_view(l@).take(i as int)),
        decreases l@.len() - i,
    {
        proof {
            assert(decreases_to!(l@ => l@[i as int]));
        }
        let item = json_node(&l[i]);
        match item {
            Some(k) => {
                out.push(expr(k));
            },
            None => {},
        }
        proof {
            let lv = jsons_view(l@);
            assert(lv.take(i + 1).drop_last() =~= lv.take(i as int));
            assert(lv.take(i + 1).last() == json_view(l@[i as int]));
            assert(exprs_view(out@) =~= json_items(lv.take(i + 1)));
        }
        i = i + 1;
    }
    assert(jsons_view(l@).take(l@.len() as int) =~= jsons_view(l@));
    out
}

pub(crate) fn json_node(j: &Json) -> (r: Option<ExprKind>)
    ensures
        opt_node_view(r) == json_to_ast(j@),
    decreases j,
{
    match j {
        Json::Int(v) => Some(ExprKind::Lit(LitKind::Int(*v))),
        Json::Float(t) => Some(ExprKind::Lit(LitKind::Float(clone_string(t)))),
        Json::Str(s) => Some(ExprKind::Path(path(s.as_str(), None))),
        Json::List(l) => {
            if l.len() == 1 {
                match &l[0] {
                    Json::List(inner) => {
                        proof {
                            assert(decreases_to!(l@ => l@[0]));
                        }
                        let items = json_items_exec(inner);
                        assert(jsons_view(l@)[0] == json_view(l@[0]));
                        return Some(ExprKind::Vstore(Box::new(expr_vec(items))));
                    },
                    _ => {},
                }
            }
            let items = json_items_exec(l);
            Some(ExprKind::Vec(items))
        },
        Json::Bool(b) => Some(ExprKind::Lit(LitKind::Bool(*b))),
        Json::Null => None,
        Json::Object => None,
    }
}

/// The expression node that a JSON node argument stands for, if any.
pub fn JSONtoAST(jsonobj: Json) -> (r: Option<ExprKind>)
    ensures
        opt_node_view(r) == json_to_ast(jsonobj@),
{
    json_node(&jsonobj)
}

} // verus!
