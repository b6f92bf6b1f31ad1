//! Rendering of the syntax tree as Rust source text. Each statement and each
//! closing brace of a block stands on a line of its own, without
//! indentation, and no line is broken for its width.
use crate::ast::{
    args_view, exprs_view, pat_view, pats_view, segment_view, stmt_view,
    stmts_view, ty_param_view, ty_view, tys_view, Arg, Block, Expr, ExprKind, Item, LitKind, Pat, PatKind, Path, SArg, SBlock, SExpr,
    PathSegment, SItem, SLit, SPat, SPath, SSegment, SStmt, STy, STyParam, Stmt, StmtKind, Ty, TyKind,
    TyParam,
};
use crate::text::push_char;
use vstd::prelude::*;
use vstd::string::*;

verus! {

broadcast use vstd::std_specs::vec::group_vec_axioms, vstd::seq::group_seq_axioms;

// ---------------------------------------------------------------------------
// Text of the tree, as spec functions
// ---------------------------------------------------------------------------
/// The parts written one after the other with `sep` between each two.
pub open spec fn join(parts: Seq<Seq<char>>, sep: Seq<char>) -> Seq<char>
    decreases parts.len(),
{
    if parts.len() == 0 {
        seq![]
    } else if parts.len() == 1 {
        parts[0]
    } else {
        join(parts.drop_last(), sep) + sep + parts.last()
    }
}

pub open spec fn digit_char(d: nat) -> char {
    if d == 0 {
        '0'
    } else if d == 1 {
        '1'
    } else if d == 2 {
        '2'
    } else if d == 3 {
        '3'
    } else if d == 4 {
        '4'
    } else if d == 5 {
        '5'
    } else if d == 6 {
        '6'
    } else if d == 7 {
        '7'
    } else if d == 8 {
        '8'
    } else {
        '9'
    }
}

/// The decimal digits of a natural number, without leading zeros.
pub open spec fn nat_text(n: nat) -> Seq<char>
    decreases n,
{
    if n < 10 {
        seq![digit_char(n)]
    } else {
        nat_text(n / 10).push(digit_char(n % 10))
    }
}

/// The decimal text of an integer, with a `-` before a negative one.
pub open spec fn int_text(v: int) -> Seq<char> {
    if v < 0 {
        seq!['-'] + nat_text((-v) as nat)
    } else {
        nat_text(v as nat)
    }
}

/// A hexadecimal digit, in lower case.
pub open spec fn hex_digit_char(d: nat) -> char {
    if d < 10 {
        digit_char(d)
    } else if d == 10 {
        'a'
    } else if d == 11 {
        'b'
    } else if d == 12 {
        'c'
    } else if d == 13 {
        'd'
    } else if d == 14 {
        'e'
    } else {
        'f'
    }
}

/// The hexadecimal digits of a natural number, in lower case and without
/// leading zeros.
pub open spec fn hex_text(n: nat) -> Seq<char>
    decreases n,
{
    if n < 16 {
        seq![hex_digit_char(n)]
    } else {
        hex_text(n / 16).push(hex_digit_char(n % 16))
    }
}

/// A character as it is written inside a string or character literal: tab,
/// carriage return and line feed as `\t`, `\r`, `\n`; the backslash and both
/// quotes behind a backslash; the other printable ASCII characters (space to
/// `~`) as they are; every other character as `\u{..}` with its code in
/// hexadecimal.
pub open spec fn escape_char(c: char) -> Seq<char> {
    if c == '\t' {
        seq!['\\', 't']
    } else if c == '\r' {
        seq!['\\', 'r']
    } else if c == '\n' {
        seq!['\\', 'n']
    } else if c == '\\' || c == '\'' || c == '"' {
        seq!['\\', c]
    } else if ' ' <= c <= '~' {
        seq![c]
    } else {
        seq!['\\', 'u', '{'] + hex_text(c as nat) + seq!['}']
    }
}

/// The characters of `s` as they are written inside a string literal.
pub open spec fn escape_str(s: Seq<char>) -> Seq<char>
    decreases s.len(),
{
    if s.len() == 0 {
        seq![]
    } else {
        escape_str(s.drop_last()) + escape_char(s.last())
    }
}

pub open spec fn render_lit(l: SLit) -> Seq<char> {
    match l {
        SLit::Str(s) => seq!['"'] + escape_str(s) + seq!['"'],
        SLit::Char(c) => seq!['\''] + escape_char(c) + seq!['\''],
        SLit::Int(v) => int_text(v as int),
        SLit::Float(t) => t,
        SLit::Bool(b) => if b {
            "true"@
        } else {
            "false"@
        },
    }
}

pub open spec fn render_path(p: SPath) -> Seq<char>
    decreases p,
{
    join(render_segments(p.segments), "::"@)
}

pub open spec fn render_segments(s: Seq<SSegment>) -> Seq<Seq<char>>
    decreases s,
{
    Seq::new(s.len(), |i: int| if 0 <= i < s.len() { render_segment(s[i]) } else { seq![] })
}

pub open spec fn render_segment(s: SSegment) -> Seq<char>
    decreases s,
{
    if s.types.len() == 0 {
        s.ident
    } else {
        s.ident + "<"@ + join(render_tys(s.types), ", "@) + ">"@
    }
}

pub open spec fn render_tys(s: Seq<STy>) -> Seq<Seq<char>>
    decreases s,
{
    Seq::new(s.len(), |i: int| if 0 <= i < s.len() { render_ty(s[i]) } else { seq![] })
}

pub open spec fn render_ty(t: STy) -> Seq<char>
    decreases t,
{
    match t {
        STy::Infer => "_"@,
        STy::Nil => "()"@,
        STy::Path(p) => render_path(p),
    }
}

/// A parenthesized list; a list of one element keeps a trailing comma, as
/// a one-element tuple needs.
pub open spec fn tuple_text(parts: Seq<Seq<char>>) -> Seq<char> {
    "("@ + join(parts, ", "@) + (if parts.len() == 1 {
        ","@
    } else {
        seq![]
    }) + ")"@
}

pub open spec fn render_pat(p: SPat) -> Seq<char>
    decreases p,
{
    match p {
        SPat::Ident(s) => s,
        SPat::Tup(ps) => tuple_text(render_pats(ps)),
        SPat::Wild => "_"@,
        SPat::WildMulti => ".."@,
    }
}

pub open spec fn render_pats(s: Seq<SPat>) -> Seq<Seq<char>>
    decreases s,
{
    Seq::new(s.len(), |i: int| if 0 <= i < s.len() { render_pat(s[i]) } else { seq![] })
}

pub open spec fn render_arg(a: SArg) -> Seq<char> {
    render_pat(a.pat) + ": "@ + render_ty(a.ty)
}

pub open spec fn render_args(args: Seq<SArg>) -> Seq<char> {
    join(args.map_values(|a: SArg| render_arg(a)), ", "@)
}

/// ` -> T` after the parameters, or nothing where `T` is `()` or inferred.
pub open spec fn render_output(t: STy) -> Seq<char> {
    match t {
        STy::Infer => seq![],
        STy::Nil => seq![],
        STy::Path(p) => " -> "@ + render_path(p),
    }
}

pub open spec fn render_expr(e: SExpr) -> Seq<char>
    decreases e,
{
    match e {
        SExpr::Lit(l) => render_lit(l),
        SExpr::Path(p) => render_path(p),
        SExpr::Vec(es) => "["@ + join(render_exprs(es), ", "@) + "]"@,
        SExpr::Tup(es) => tuple_text(render_exprs(es)),
        SExpr::Call(f, es) => render_expr(*f) + "("@ + join(render_exprs(es), ", "@) + ")"@,
        SExpr::Field(x, name) => render_expr(*x) + "."@ + name,
        SExpr::MethodCall(x, name, es) => render_expr(*x) + "."@ + name + "("@ + join(
            render_exprs(es),
            ", "@,
        ) + ")"@,
        SExpr::Closure(ps, body) => "|"@ + join(render_pats(ps), ", "@) + "| "@ + render_expr(*body),
        SExpr::Proc(d, b) => "proc("@ + render_args(d.inputs) + ")"@ + render_output(d.output)
            + " "@ + render_block(*b),
        SExpr::Block(b) => render_block(*b),
        SExpr::Vstore(x) => "box "@ + render_expr(*x),
        SExpr::Verbatim(t) => t,
    }
}

pub open spec fn render_exprs(es: Seq<SExpr>) -> Seq<Seq<char>>
    decreases es,
{
    Seq::new(es.len(), |i: int| if 0 <= i < es.len() { render_expr(es[i]) } else { seq![] })
}

pub open spec fn render_stmt(s: SStmt) -> Seq<char>
    decreases s,
{
    match s {
        SStmt::Let(p, e) => "let "@ + render_pat(p) + " = "@ + render_expr(e) + ";"@,
        SStmt::Semi(e) => render_expr(e) + ";"@,
        SStmt::Verbatim(t) => t,
    }
}

/// Each statement followed by a line break.
pub open spec fn render_lines(s: Seq<SStmt>) -> Seq<Seq<char>>
    decreases s,
{
    Seq::new(s.len(), |i: int| if 0 <= i < s.len() { render_stmt(s[i]) + "\n"@ } else { seq![] })
}

/// A block: `{`, each statement on a line of its own, then the final
/// expression on a line of its own, then `}`.
pub open spec fn render_block(b: SBlock) -> Seq<char>
    decreases b,
{
    "{\n"@ + join(render_lines(b.stmts), seq![]) + match b.expr {
        Some(e) => render_expr(*e) + "\n"@,
        None => seq![],
    } + "}"@
}

pub open spec fn render_ty_param(t: STyParam) -> Seq<char> {
    t.ident + ": "@ + join(t.bounds.map_values(|p: SPath| render_path(p)), " + "@)
}

pub open spec fn render_generics(ps: Seq<STyParam>) -> Seq<char> {
    if ps.len() == 0 {
        seq![]
    } else {
        "<"@ + join(ps.map_values(|t: STyParam| render_ty_param(t)), ", "@) + ">"@
    }
}

/// The source text of a public function item, ending with a newline.
pub open spec fn render_item(it: SItem) -> Seq<char> {
    "pub fn "@ + it.ident + render_generics(it.ty_params) + "("@ + render_args(it.decl.inputs)
        + ")"@ + render_output(it.decl.output) + " "@ + render_block(it.body) + "\n"@
}

// ---------------------------------------------------------------------------
// Writing the text
// ---------------------------------------------------------------------------
/// Appending one more part to a joined prefix.
pub proof fn lemma_join_step(parts: Seq<Seq<char>>, sep: Seq<char>, i: int)
    requires
        0 <= i < parts.len(),
    ensures
        join(parts.take(i + 1), sep) == if i == 0 {
            parts[0]
        } else {
            join(parts.take(i), sep) + sep + parts[i]
        },
{
    assert(parts.take(i + 1).drop_last() =~= parts.take(i));
    assert(parts.take(i + 1).last() == parts[i]);
}

pub proof fn lemma_take_all<A>(s: Seq<A>)
    ensures
        s.take(s.len() as int) == s,
{
    assert(s.take(s.len() as int) =~= s);
}

fn write_digits(out: &mut String, n: u64)
    ensures
        final(out)@ == old(out)@ + nat_text(n as nat),
    decreases n,
{
    if n >= 10 {
        write_digits(out, n / 10);
    }
    let d = n % 10;
    let c = if d == 0 {
        '0'
    } else if d == 1 {
        '1'
    } else if d == 2 {
        '2'
    } else if d == 3 {
        '3'
    } else if d == 4 {
        '4'
    } else if d == 5 {
        '5'
    } else if d == 6 {
        '6'
    } else if d == 7 {
        '7'
    } else if d == 8 {
        '8'
    } else {
        '9'
    };
    push_char(out, c);
}

fn write_int(out: &mut String, v: i64)
    ensures
        final(out)@ == old(out)@ + int_text(v as int),
{
    if v < 0 {
        push_char(out, '-');
        let m: u64 = if v == i64::MIN {
            9223372036854775808u64
        } else {
            (-v) as u64
        };
        write_digits(out, m);
    } else {
        write_digits(out, v as u64);
    }
}

fn hex_digit(d: u32) -> (c: char)
    requires
        d < 16,
    ensures
        c == hex_digit_char(d as nat),
{
    if d == 0 {
        '0'
    } else if d == 1 {
        '1'
    } else if d == 2 {
        '2'
    } else if d == 3 {
        '3'
    } else if d == 4 {
        '4'
    } else if d == 5 {
        '5'
    } else if d == 6 {
        '6'
    } else if d == 7 {
        '7'
    } else if d == 8 {
        '8'
    } else if d == 9 {
        '9'
    } else if d == 10 {
        'a'
    } else if d == 11 {
        'b'
    } else if d == 12 {
        'c'
    } else if d == 13 {
        'd'
    } else if d == 14 {
        'e'
    } else {
        'f'
    }
}

fn write_hex(out: &mut String, n: u32)
    ensures
        final(out)@ == old(out)@ + hex_text(n as nat),
    decreases n,
{
    if n >= 16 {
        write_hex(out, n / 16);
    }
    push_char(out, hex_digit(n % 16));
}

fn write_escaped(out: &mut String, s: &String)
    ensures
        final(out)@ == old(out)@ + escape_str(s@),
{
    let st = s.as_str();
    let n = st.unicode_len();
    let ghost start = out@;
    let mut i: usize = 0;
    while i < n
        invariant
            i <= n,
            n == s@.len(),
            st@ == s@,
            out@ == start + escape_str(s@.take(i as int)),
        decreases n - i,
    {
        let c = st.get_char(i);
        write_escaped_char(out, c);
        proof {
            assert(s@.take(i + 1).drop_last() =~= s@.take(i as int));
            assert(s@.take(i + 1).last() == c);
        }
        i = i + 1;
    }
    proof {
        lemma_take_all(s@);
    }
}

fn write_escaped_char(out: &mut String, c: char)
    ensures
        final(out)@ == old(out)@ + escape_char(c),
{
    let ghost start = out@;
    if c == '\t' {
        push_char(out, '\\');
        push_char(out, 't');
    } else if c == '\r' {
        push_char(out, '\\');
        push_char(out, 'r');
    } else if c == '\n' {
        push_char(out, '\\');
        push_char(out, 'n');
    } else if c == '\\' || c == '\'' || c == '"' {
        push_char(out, '\\');
        push_char(out, c);
    } else if ' ' <= c && c <= '~' {
        push_char(out, c);
    } else {
        push_char(out, '\\');
        push_char(out, 'u');
        push_char(out, '{');
        let ghost mid = out@;
        write_hex(out, c as u32);
        push_char(out, '}');
        assert(out@ =~= mid + hex_text(c as nat) + seq!['}']);
    }
    assert(out@ =~= start + escape_char(c));
}

fn write_lit(out: &mut String, l: &LitKind)
    ensures
        final(out)@ == old(out)@ + render_lit(l@),
{
    let ghost start = out@;
    match l {
        LitKind::Str(s) => {
            push_char(out, '"');
            write_escaped(out, s);
            push_char(out, '"');
        },
        LitKind::Char(c) => {
            push_char(out, '\'');
            write_escaped_char(out, *c);
            push_char(out, '\'');
        },
        LitKind::Int(v) => {
            write_int(out, *v);
        },
        LitKind::Float(t) => {
            out.append(t.as_str());
        },
        LitKind::Bool(b) => {
            if *b {
                out.append("true");
            } else {
                out.append("false");
            }
        },
    }
    assert(out@ =~= start + render_lit(l@));
}

#[verifier::loop_isolation(false)]
fn write_path(out: &mut String, p: &Path)
    ensures
        final(out)@ == old(out)@ + render_path(p@),
    decreases p,
{
    let ghost start = out@;
    let ghost parts = render_segments(p@.segments);
    let mut i: usize = 0;
    while i < p.segments.len()
        invariant
            i <= p.segments@.len(),
            out@ == start + join(parts.take(i as int), "::"@),
        decreases p.segments@.len() - i,
    {
        if i > 0 {
            out.append("::");
        }
        proof {
            assert(decreases_to!(p.segments@ => p.segments@[i as int]));
        }
        write_segment(out, &p.segments[i]);
        proof {
            assert(parts[i as int] == render_segment(segment_view(p.segments@[i as int])));
            lemma_join_step(parts, "::"@, i as int);
        }
        i = i + 1;
    }
    proof {
        lemma_take_all(parts);
        assert(p.segments@.len() == p@.segments.len());
        assert(render_path(p@) == join(parts, "::"@));
    }
}

#[verifier::loop_isolation(false)]
fn write_segment(out: &mut String, s: &PathSegment)
    ensures
        final(out)@ == old(out)@ + render_segment(segment_view(*s)),
    decreases s,
{
    let ghost start = out@;
    out.append(s.identifier.as_str());
    if s.types.len() > 0 {
        out.append("<");
        let ghost mid = out@;
        let ghost tv = tys_view(s.types@);
        let ghost parts = render_tys(tv);
        let mut i: usize = 0;
        while i < s.types.len()
            invariant
                i <= s.types@.len(),
                out@ == mid + join(parts.take(i as int), ", "@),
            decreases s.types@.len() - i,
        {
            if i > 0 {
                out.append(", ");
            }
            proof {
                assert(decreases_to!(s.types@ => s.types@[i as int]));
            }
            write_ty(out, &s.types[i]);
            proof {
                assert(parts[i as int] == render_ty(ty_view(s.types@[i as int])));
                lemma_join_step(parts, ", "@, i as int);
            }
            i = i + 1;
        }
        proof {
            lemma_take_all(parts);
            assert(tv.len() == s.types@.len());
        }
        out.append(">");
        assert(render_segment(segment_view(*s)) == s.identifier@ + "<"@ + join(parts, ", "@) + ">"@);
    }
    assert(out@ =~= start + render_segment(segment_view(*s)));
}

fn write_ty(out: &mut String, t: &Ty)
    ensures
        final(out)@ == old(out)@ + render_ty(t@),
    decreases t,
{
    match &t.node {
        TyKind::Infer => {
            out.append("_");
        },
        TyKind::Nil => {
            out.append("()");
        },
        TyKind::Path(p) => {
            write_path(out, p);
        },
    }
}

fn write_pat(out: &mut String, p: &Pat)
    ensures
        final(out)@ == old(out)@ + render_pat(p@),
    decreases p,
{
    let ghost start = out@;
    match &p.node {
        PatKind::Ident(s) => {
            out.append(s.as_str());
        },
        PatKind::Tup(ps) => {
            out.append("(");
            write_pats(out, ps);
            if ps.len() == 1 {
                out.append(",");
            }
            out.append(")");
        },
        PatKind::Wild => {
            out.append("_");
        },
        PatKind::WildMulti => {
            out.append("..");
        },
    }
    assert(out@ =~= start + render_pat(p@));
}

#[verifier::loop_isolation(false)]
fn write_pats(out: &mut String, ps: &Vec<Pat>)
    ensures
        final(out)@ == old(out)@ + join(render_pats(pats_view(ps@)), ", "@),
    decreases ps,
{
    let ghost start = out@;
    let ghost pv = pats_view(ps@);
    let ghost parts = render_pats(pv);
    let mut i: usize = 0;
    while i < ps.len()
        invariant
            i <= ps@.len(),
            out@ == start + join(parts.take(i as int), ", "@),
        decreases ps@.len() - i,
    {
        if i > 0 {
            out.append(", ");
        }
        proof {
            assert(decreases_to!(ps@ => ps@[i as int]));
        }
        write_pat(out, &ps[i]);
        proof {
            assert(parts[i as int] == render_pat(pat_view(ps@[i as int])));
            lemma_join_step(parts, ", "@, i as int);
        }
        i = i + 1;
    }
    proof {
        lemma_take_all(parts);
        assert(pv.len() == ps@.len());
    }
}

fn write_arg(out: &mut String, a: &Arg)
    ensures
        final(out)@ == old(out)@ + render_arg(a@),
{
    let ghost start = out@;
    write_pat(out, &a.pat);
    out.append(": ");
    write_ty(out, &a.ty);
    assert(out@ =~= start + render_arg(a@));
}

fn write_args(out: &mut String, args: &Vec<Arg>)
    ensures
        final(out)@ == old(out)@ + render_args(args_view(args@)),
{
    let ghost start = out@;
    let ghost parts = args_view(args@).map_values(|a: SArg| render_arg(a));
    let mut i: usize = 0;
    while i < args.len()
        invariant
            i <= args@.len(),
            parts == args_view(args@).map_values(|a: SArg| render_arg(a)),
            out@ == start + join(parts.take(i as int), ", "@),
        decreases args@.len() - i,
    {
        if i > 0 {
            out.append(", ");
        }
        write_arg(out, &args[i]);
        proof {
            lemma_join_step(parts, ", "@, i as int);
        }
        i = i + 1;
    }
    proof {
        lemma_take_all(parts);
    }
}

fn write_output(out: &mut String, t: &Ty)
    ensures
        final(out)@ == old(out)@ + render_output(t@),
{
    let ghost start = out@;
    match &t.node {
        TyKind::Path(p) => {
            out.append(" -> ");
            write_path(out, p);
        },
        _ => {},
    }
    assert(out@ =~= start + render_output(t@));
}

#[verifier::loop_isolation(false)]
fn write_exprs(out: &mut String, es: &Vec<Expr>)
    ensures
        final(out)@ == old(out)@ + join(render_exprs(exprs_view(es@)), ", "@),
    decreases es,
{
    let ghost start = out@;
    let ghost parts = render_exprs(exprs_view(es@));
    let mut i: usize = 0;
    while i < es.len()
        invariant
            i <= es@.len(),
            out@ == start + join(parts.take(i as int), ", "@),
        decreases es@.len() - i,
    {
        if i > 0 {
            out.append(", ");
        }
        proof {
            assert(decreases_to!(es@ => es@[i as int]));
        }
        write_expr(out, &es[i]);
        proof {
            assert(parts[i as int] == render_expr(es@[i as int]@));
            lemma_join_step(parts, ", "@, i as int);
        }
        i = i + 1;
    }
    proof {
        lemma_take_all(parts);
    }
}

fn write_expr(out: &mut String, e: &Expr)
    ensures
        final(out)@ == old(out)@ + render_expr(e@),
    decreases e,
{
    let ghost start = out@;
    match &e.node {
        ExprKind::Lit(l) => {
            write_lit(out, l);
        },
        ExprKind::Path(p) => {
            write_path(out, p);
        },
        ExprKind::Vec(es) => {
            out.append("[");
            write_exprs(out, es);
            out.append("]");
        },
        ExprKind::Tup(es) => {
            out.append("(");
            write_exprs(out, es);
            if es.len() == 1 {
                out.append(",");
            }
            out.append(")");
        },
        ExprKind::Call(f, es) => {
            write_expr(out, f);
            out.append("(");
            write_exprs(out, es);
            out.append(")");
        },
        ExprKind::Field(x, name) => {
            write_expr(out, x);
            out.append(".");
            out.append(name.as_str());
        },
        ExprKind::MethodCall(x, name, es) => {
            write_expr(out, x);
            out.append(".");
            out.append(name.as_str());
            out.append("(");
            write_exprs(out, es);
            out.append(")");
        },
        ExprKind::Closure(ps, body) => {
            out.append("|");
            write_pats(out, ps);
            out.append("| ");
            write_expr(out, body);
        },
        ExprKind::Proc(d, b) => {
            out.append("proc(");
            write_args(out, &d.inputs);
            out.append(")");
            write_output(out, &d.output);
            out.append(" ");
            write_block(out, b);
        },
        ExprKind::Block(b) => {
            write_block(out, b);
        },
        ExprKind::Vstore(x) => {
            out.append("box ");
            write_expr(out, x);
        },
        ExprKind::Verbatim(t) => {
            out.append(t.as_str());
        },
    }
    assert(out@ =~= start + render_expr(e@));
}

fn write_stmt(out: &mut String, s: &Stmt)
    ensures
        final(out)@ == old(out)@ + render_stmt(s@),
    decreases s,
{
    let ghost start = out@;
    match &s.node {
        StmtKind::Let(p, x) => {
            out.append("let ");
            write_pat(out, p);
            out.append(" = ");
            write_expr(out, x);
            out.append(";");
        },
        StmtKind::Semi(x) => {
            write_expr(out, x);
            out.append(";");
        },
        StmtKind::Verbatim(t) => {
            out.append(t.as_str());
        },
    }
    assert(out@ =~= start + render_stmt(s@));
}

#[verifier::loop_isolation(false)]
fn write_block(out: &mut String, b: &Block)
    ensures
        final(out)@ == old(out)@ + render_block(b@),
    decreases b,
{
    let ghost start = out@;
    out.append("{\n");
    let ghost mid = out@;
    let ghost sv = stmts_view(b.stmts@);
    let ghost parts = render_lines(sv);
    let mut i: usize = 0;
    while i < b.stmts.len()
        invariant
            i <= b.stmts@.len(),
            out@ == mid + join(parts.take(i as int), seq![]),
        decreases b.stmts@.len() - i,
    {
        proof {
            assert(decreases_to!(b.stmts@ => b.stmts@[i as int]));
        }
        write_stmt(out, &b.stmts[i]);
        out.append("\n");
        proof {
            assert(parts[i as int] == render_stmt(stmt_view(b.stmts@[i as int])) + "\n"@);
            lemma_join_step(parts, seq![], i as int);
        }
        i = i + 1;
    }
    proof {
        lemma_take_all(parts);
        assert(sv.len() == b.stmts@.len());
    }
    match &b.expr {
        Some(x) => {
            write_expr(out, x);
            out.append("\n");
        },
        None => {},
    }
    out.append("}");
    assert(render_block(b@) == "{\n"@ + join(parts, seq![]) + match b@.expr {
        Some(e) => render_expr(*e) + "\n"@,
        None => seq![],
    } + "}"@);
    assert(out@ =~= start + render_block(b@));
}

fn write_ty_param(out: &mut String, t: &TyParam)
    ensures
        final(out)@ == old(out)@ + render_ty_param(ty_param_view(*t)),
{
    let ghost start = out@;
    out.append(t.ident.as_str());
    out.append(": ");
    let ghost mid = out@;
    let ghost parts = ty_param_view(*t).bounds.map_values(|p: SPath| render_path(p));
    let mut i: usize = 0;
    while i < t.bounds.len()
        invariant
            i <= t.bounds@.len(),
            parts == ty_param_view(*t).bounds.map_values(|p: SPath| render_path(p)),
            out@ == mid + join(parts.take(i as int), " + "@),
        decreases t.bounds@.len() - i,
    {
        if i > 0 {
            out.append(" + ");
        }
        write_path(out, &t.bounds[i]);
        proof {
            lemma_join_step(parts, " + "@, i as int);
        }
        i = i + 1;
    }
    proof {
        lemma_take_all(parts);
    }
    assert(out@ =~= start + render_ty_param(ty_param_view(*t)));
}

/// Renders a function item as Rust source text.
pub fn item_to_string(it: &Item) -> (r: String)
    ensures
        r@ == render_item(it@),
{
    let mut out = String::from_str("pub fn ");
    out.append(it.ident.as_str());
    let ghost g0 = out@;
    let ps = &it.generics.ty_params;
    let ghost pv = it@.ty_params;
    if ps.len() > 0 {
        out.append("<");
        let ghost mid = out@;
        let ghost parts = pv.map_values(|t: STyParam| render_ty_param(t));
        let mut i: usize = 0;
        while i < ps.len()
            invariant
                i <= ps@.len(),
                pv == it@.ty_params,
                ps@ == it.generics.ty_params@,
                parts == pv.map_values(|t: STyParam| render_ty_param(t)),
                out@ == mid + join(parts.take(i as int), ", "@),
            decreases ps@.len() - i,
        {
            if i > 0 {
                out.append(", ");
            }
            write_ty_param(&mut out, &ps[i]);
            proof {
                lemma_join_step(parts, ", "@, i as int);
            }
            i = i + 1;
        }
        proof {
            lemma_take_all(parts);
        }
        out.append(">");
    }
    assert(out@ =~= g0 + render_generics(pv));
    out.append("(");
    write_args(&mut out, &it.decl.inputs);
    out.append(")");
    write_output(&mut out, &it.decl.output);
    out.append(" ");
    write_block(&mut out, &it.body);
    out.append("\n");
    assert(out@ =~= render_item(it@));
    out
}

/// Renders an expression as Rust source text.
pub fn expr_to_string(e: &Expr) -> (r: String)
    ensures
        r@ == render_expr(e@),
{
    let mut out = String::new();
    write_expr(&mut out, e);
    assert(out@ =~= render_expr(e@));
    out
}

} // verus!
