//! The syntax tree that the generator builds, and its mathematical model.
//!
//! Every executable node type has a view into a spec datatype of the same
//! shape whose strings are `Seq<char>` and whose lists are `Seq`s; all
//! contracts of the crate speak of these views.
use vstd::prelude::*;

verus! {

broadcast use vstd::std_specs::vec::group_vec_axioms, vstd::seq::group_seq_axioms;

// ---------------------------------------------------------------------------
// Executable syntax tree
// ---------------------------------------------------------------------------
/// A path such as `task::TaskBuilder::named`, one segment per `::` part.
#[derive(Debug, PartialEq, Eq)]
pub struct Path {
    pub segments: Vec<PathSegment>,
}

/// One segment of a path, with the type parameters written after it.
#[derive(Debug, PartialEq, Eq)]
pub struct PathSegment {
    pub identifier: String,
    pub types: Vec<Ty>,
}

#[derive(Debug, PartialEq, Eq)]
pub enum TyKind {
    Infer,
    Nil,
    Path(Path),
}

#[derive(Debug, PartialEq, Eq)]
pub struct Ty {
    pub node: TyKind,
}

#[derive(Debug, PartialEq, Eq)]
pub enum PatKind {
    Ident(String),
    Tup(Vec<Pat>),
    Wild,
    WildMulti,
}

#[derive(Debug, PartialEq, Eq)]
pub struct Pat {
    pub node: PatKind,
}

/// Literals; a float literal keeps the decimal text it is written with.
#[derive(Debug, PartialEq, Eq)]
pub enum LitKind {
    Str(String),
    Char(char),
    Int(i64),
    Float(String),
    Bool(bool),
}

#[derive(Debug, PartialEq, Eq)]
pub enum ExprKind {
    Lit(LitKind),
    Path(Path),
    Vec(Vec<Expr>),
    Tup(Vec<Expr>),
    Call(Box<Expr>, Vec<Expr>),
    Field(Box<Expr>, String),
    /// `receiver.name(args)`
    MethodCall(Box<Expr>, String, Vec<Expr>),
    /// `|params| body`
    Closure(Vec<Pat>, Box<Expr>),
    Proc(FnDecl, Box<Block>),
    Block(Box<Block>),
    /// An owned (boxed) vector: `box [..]`.
    Vstore(Box<Expr>),
    /// Source text that stands for an expression as it is written.
    Verbatim(String),
}

#[derive(Debug, PartialEq, Eq)]
pub struct Expr {
    pub node: ExprKind,
}

#[derive(Debug, PartialEq, Eq)]
pub enum StmtKind {
    /// `let pat = init;`
    Let(Pat, Expr),
    /// `expr;`
    Semi(Expr),
    /// Source text that stands for a statement as it is written.
    Verbatim(String),
}

#[derive(Debug, PartialEq, Eq)]
pub struct Stmt {
    pub node: StmtKind,
}

#[derive(Debug, PartialEq, Eq)]
pub struct Block {
    pub stmts: Vec<Stmt>,
    pub expr: Option<Box<Expr>>,
}

#[derive(Debug, PartialEq, Eq)]
pub struct Arg {
    pub ty: Ty,
    pub pat: Pat,
}

#[derive(Debug, PartialEq, Eq)]
pub struct FnDecl {
    pub inputs: Vec<Arg>,
    pub output: Ty,
}

#[derive(Debug, PartialEq, Eq)]
pub struct TyParam {
    pub ident: String,
    pub bounds: Vec<Path>,
}

#[derive(Debug, PartialEq, Eq)]
pub struct Generics {
    pub ty_params: Vec<TyParam>,
}

/// A public function item.
#[derive(Debug, PartialEq, Eq)]
pub struct Item {
    pub ident: String,
    pub generics: Generics,
    pub decl: FnDecl,
    pub body: Block,
}

// ---------------------------------------------------------------------------
// Mathematical model
// ---------------------------------------------------------------------------
#[verifier::ext_equal]
pub struct SPath {
    pub segments: Seq<SSegment>,
}

#[verifier::ext_equal]
pub struct SSegment {
    pub ident: Seq<char>,
    pub types: Seq<STy>,
}

#[verifier::ext_equal]
pub enum STy {
    Infer,
    Nil,
    Path(SPath),
}

#[verifier::ext_equal]
pub enum SPat {
    Ident(Seq<char>),
    Tup(Seq<SPat>),
    Wild,
    WildMulti,
}

#[verifier::ext_equal]
pub enum SLit {
    Str(Seq<char>),
    Char(char),
    Int(i64),
    Float(Seq<char>),
    Bool(bool),
}

#[verifier::ext_equal]
pub enum SExpr {
    Lit(SLit),
    Path(SPath),
    Vec(Seq<SExpr>),
    Tup(Seq<SExpr>),
    Call(Box<SExpr>, Seq<SExpr>),
    Field(Box<SExpr>, Seq<char>),
    MethodCall(Box<SExpr>, Seq<char>, Seq<SExpr>),
    Closure(Seq<SPat>, Box<SExpr>),
    Proc(SDecl, Box<SBlock>),
    Block(Box<SBlock>),
    Vstore(Box<SExpr>),
    Verbatim(Seq<char>),
}

#[verifier::ext_equal]
pub enum SStmt {
    Let(SPat, SExpr),
    Semi(SExpr),
    Verbatim(Seq<char>),
}

#[verifier::ext_equal]
pub struct SBlock {
    pub stmts: Seq<SStmt>,
    pub expr: Option<Box<SExpr>>,
}

#[verifier::ext_equal]
pub struct SArg {
    pub pat: SPat,
    pub ty: STy,
}

#[verifier::ext_equal]
pub struct SDecl {
    pub inputs: Seq<SArg>,
    pub output: STy,
}

#[verifier::ext_equal]
pub struct STyParam {
    pub ident: Seq<char>,
    pub bounds: Seq<SPath>,
}

#[verifier::ext_equal]
pub struct SItem {
    pub ident: Seq<char>,
    pub ty_params: Seq<STyParam>,
    pub decl: SDecl,
    pub body: SBlock,
}

// ---------------------------------------------------------------------------
// Views
// ---------------------------------------------------------------------------
pub open spec fn path_view(p: Path) -> SPath
    decreases p,
{
    SPath { segments: segments_view(p.segments@) }
}

pub open spec fn segments_view(s: Seq<PathSegment>) -> Seq<SSegment>
    decreases s,
{
    Seq::new(
        s.len(),
        |i: int|
            if 0 <= i < s.len() {
                segment_view(s[i])
            } else {
                SSegment { ident: Seq::empty(), types: Seq::empty() }
            },
    )
}

pub open spec fn segment_view(s: PathSegment) -> SSegment
    decreases s,
{
    SSegment { ident: s.identifier@, types: tys_view(s.types@) }
}

pub open spec fn tys_view(s: Seq<Ty>) -> Seq<STy>
    decreases s,
{
    Seq::new(s.len(), |i: int| if 0 <= i < s.len() { ty_view(s[i]) } else { STy::Infer })
}

pub open spec fn ty_view(t: Ty) -> STy
    decreases t,
{
    match t.node {
        TyKind::Infer => STy::Infer,
        TyKind::Nil => STy::Nil,
        TyKind::Path(p) => STy::Path(path_view(p)),
    }
}

pub open spec fn pat_view(p: Pat) -> SPat
    decreases p,
{
    match p.node {
        PatKind::Ident(s) => SPat::Ident(s@),
        PatKind::Tup(ps) => SPat::Tup(pats_view(ps@)),
        PatKind::Wild => SPat::Wild,
        PatKind::WildMulti => SPat::WildMulti,
    }
}

pub open spec fn pats_view(s: Seq<Pat>) -> Seq<SPat>
    decreases s,
{
    Seq::new(s.len(), |i: int| if 0 <= i < s.len() { pat_view(s[i]) } else { SPat::Wild })
}

pub open spec fn lit_view(l: LitKind) -> SLit {
    match l {
        LitKind::Str(s) => SLit::Str(s@),
        LitKind::Char(c) => SLit::Char(c),
        LitKind::Int(v) => SLit::Int(v),
        LitKind::Float(s) => SLit::Float(s@),
        LitKind::Bool(b) => SLit::Bool(b),
    }
}

pub open spec fn arg_view(a: Arg) -> SArg {
    SArg { pat: pat_view(a.pat), ty: ty_view(a.ty) }
}

pub open spec fn args_view(s: Seq<Arg>) -> Seq<SArg> {
    s.map_values(|a: Arg| arg_view(a))
}

pub open spec fn decl_view(d: FnDecl) -> SDecl {
    SDecl { inputs: args_view(d.inputs@), output: ty_view(d.output) }
}

pub open spec fn expr_view(e: Expr) -> SExpr
    decreases e,
{
    expr_kind_view(e.node)
}

pub open spec fn exprs_view(es: Seq<Expr>) -> Seq<SExpr>
    decreases es,
{
    Seq::new(
        es.len(),
        |i: int| if 0 <= i < es.len() { expr_view(es[i]) } else { SExpr::Verbatim(Seq::empty()) },
    )
}

pub open spec fn expr_kind_view(k: ExprKind) -> SExpr
    decreases k,
{
    match k {
        ExprKind::Lit(l) => SExpr::Lit(lit_view(l)),
        ExprKind::Path(p) => SExpr::Path(path_view(p)),
        ExprKind::Vec(es) => SExpr::Vec(exprs_view(es@)),
        ExprKind::Tup(es) => SExpr::Tup(exprs_view(es@)),
        ExprKind::Call(f, es) => SExpr::Call(Box::new(expr_view(*f)), exprs_view(es@)),
        ExprKind::Field(e, name) => SExpr::Field(Box::new(expr_view(*e)), name@),
        ExprKind::MethodCall(r, name, es) => SExpr::MethodCall(
            Box::new(expr_view(*r)),
            name@,
            exprs_view(es@),
        ),
        ExprKind::Closure(ps, body) => SExpr::Closure(pats_view(ps@), Box::new(expr_view(*body))),
        ExprKind::Proc(d, b) => SExpr::Proc(decl_view(d), Box::new(block_view(*b))),
        ExprKind::Block(b) => SExpr::Block(Box::new(block_view(*b))),
        ExprKind::Vstore(e) => SExpr::Vstore(Box::new(expr_view(*e))),
        ExprKind::Verbatim(s) => SExpr::Verbatim(s@),
    }
}

pub open spec fn stmt_view(s: Stmt) -> SStmt
    decreases s,
{
    match s.node {
        StmtKind::Let(p, e) => SStmt::Let(pat_view(p), expr_view(e)),
        StmtKind::Semi(e) => SStmt::Semi(expr_view(e)),
        StmtKind::Verbatim(t) => SStmt::Verbatim(t@),
    }
}

pub open spec fn stmts_view(s: Seq<Stmt>) -> Seq<SStmt>
    decreases s,
{
    Seq::new(
        s.len(),
        |i: int|
            if 0 <= i < s.len() {
                stmt_view(s[i])
            } else {
                SStmt::Semi(SExpr::Verbatim(Seq::empty()))
            },
    )
}

pub open spec fn block_view(b: Block) -> SBlock
    decreases b,
{
    SBlock {
        stmts: stmts_view(b.stmts@),
        expr: match b.expr {
            Some(e) => Some(Box::new(expr_view(*e))),
            None => None,
        },
    }
}

pub open spec fn ty_param_view(t: TyParam) -> STyParam {
    STyParam { ident: t.ident@, bounds: t.bounds@.map_values(|p: Path| path_view(p)) }
}

pub open spec fn item_view(it: Item) -> SItem {
    SItem {
        ident: it.ident@,
        ty_params: it.generics.ty_params@.map_values(|t: TyParam| ty_param_view(t)),
        decl: decl_view(it.decl),
        body: block_view(it.body),
    }
}

impl View for Path {
    type V = SPath;

    open spec fn view(&self) -> SPath {
        path_view(*self)
    }
}

impl View for Ty {
    type V = STy;

    open spec fn view(&self) -> STy {
        ty_view(*self)
    }
}

impl View for Pat {
    type V = SPat;

    open spec fn view(&self) -> SPat {
        pat_view(*self)
    }
}

impl View for LitKind {
    type V = SLit;

    open spec fn view(&self) -> SLit {
        lit_view(*self)
    }
}

impl View for ExprKind {
    type V = SExpr;

    open spec fn view(&self) -> SExpr {
        expr_kind_view(*self)
    }
}

impl View for Expr {
    type V = SExpr;

    open spec fn view(&self) -> SExpr {
        expr_view(*self)
    }
}

impl View for Stmt {
    type V = SStmt;

    open spec fn view(&self) -> SStmt {
        stmt_view(*self)
    }
}

impl View for Block {
    type V = SBlock;

    open spec fn view(&self) -> SBlock {
        block_view(*self)
    }
}

impl View for Arg {
    type V = SArg;

    open spec fn view(&self) -> SArg {
        arg_view(*self)
    }
}

impl View for FnDecl {
    type V = SDecl;

    open spec fn view(&self) -> SDecl {
        decl_view(*self)
    }
}

impl View for Item {
    type V = SItem;

    open spec fn view(&self) -> SItem {
        item_view(*self)
    }
}

// ---------------------------------------------------------------------------
// Views of lists, element by element
// ---------------------------------------------------------------------------
pub proof fn lemma_exprs_view_concat(a: Seq<Expr>, b: Seq<Expr>)
    ensures
        exprs_view(a + b) == exprs_view(a) + exprs_view(b),
{
    assert(exprs_view(a + b) =~= exprs_view(a) + exprs_view(b));
}

pub proof fn lemma_exprs_view_push(a: Seq<Expr>, x: Expr)
    ensures
        exprs_view(a.push(x)) == exprs_view(a).push(expr_view(x)),
{
    assert(exprs_view(a.push(x)) =~= exprs_view(a).push(expr_view(x)));
}

pub proof fn lemma_stmts_view_concat(a: Seq<Stmt>, b: Seq<Stmt>)
    ensures
        stmts_view(a + b) == stmts_view(a) + stmts_view(b),
{
    assert(stmts_view(a + b) =~= stmts_view(a) + stmts_view(b));
}

pub proof fn lemma_stmts_view_push(a: Seq<Stmt>, x: Stmt)
    ensures
        stmts_view(a.push(x)) == stmts_view(a).push(stmt_view(x)),
{
    assert(stmts_view(a.push(x)) =~= stmts_view(a).push(stmt_view(x)));
}

} // verus!
