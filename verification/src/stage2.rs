//! The process-network graph and the generation of one function per graph.
use crate::abstrast::{
    expr_call, expr_lit, pat_wild, scall, seg, two_segment_path,
    arg, block, channel_init, expr, expr_path, expr_vec, fn_item, json_node,
    json_to_ast, jsons_view, let_channel, sarg, sblock, sfn_item,
    slet_pair, spath, spawn, sspawn, stmt_semi, ty_nil, Json, SJson,
};
use crate::ast::{
    pats_view, LitKind, Pat, SLit, SPat, SPath,
    lemma_exprs_view_concat, lemma_exprs_view_push, lemma_stmts_view_concat, lemma_stmts_view_push,
    args_view, exprs_view, stmts_view, Arg, Expr, ExprKind, Item, SArg, SExpr, SItem, SStmt, STy,
    Stmt,
};
use crate::literal::{lemma_plain_text_unescapes_to_itself, literal_value, unescape};
use crate::text::{concat3, contains_string, copy_string, is_str, same, swap_first};
use vstd::prelude::*;
use vstd::string::*;
use vstd::utf8::{decode_utf8, encode_utf8, encode_utf8_decode_utf8, is_char_boundary};

verus! {

broadcast use vstd::std_specs::vec::group_vec_axioms, vstd::seq::group_seq_axioms;

// ---------------------------------------------------------------------------
// Primitive names
// ---------------------------------------------------------------------------
/// The process name that a one-character primitive stands for, if it is one.
pub open spec fn primitive_name(c: char) -> Option<Seq<char>> {
    if c == '*' {
        Some("mul"@)
    } else if c == '+' {
        Some("sum"@)
    } else if c == 'Z' {
        Some("delay"@)
    } else if c == '%' {
        Some("grapes"@)
    } else if c == 'B' {
        Some("binconv"@)
    } else if c == 'V' {
        Some("vec"@)
    } else if c == '$' {
        Some("shaper"@)
    } else if c == '~' {
        Some("softSource"@)
    } else if c == '{' {
        Some("looper"@)
    } else if c == '&' {
        Some("crossApplicator"@)
    } else if c == '!' {
        Some("applicator"@)
    } else {
        None
    }
}

/// The suffix that a modifier character adds to the expansion of the rest.
pub open spec fn modifier_suffix(c: char) -> Option<Seq<char>> {
    if c == '?' {
        Some("Optional"@)
    } else if c == '/' {
        Some("Across"@)
    } else if c == ',' {
        Some("Vecs"@)
    } else {
        None
    }
}

/// A process name that `expandPrim` can expand: it is not empty, and neither
/// is what follows each leading modifier.
pub open spec fn expands(s: Seq<char>) -> bool
    decreases s.len(),
{
    s.len() > 0 && (modifier_suffix(s[0]) is Some ==> expands(s.drop_first()))
}

/// The expansion of a process name: a primitive character names its process
/// (whatever follows it), a modifier appends its suffix to the expansion of
/// the rest, and any other name stands for itself.
pub open spec fn expand_prim(s: Seq<char>) -> Seq<char>
    decreases s.len(),
{
    if s.len() == 0 {
        s
    } else {
        match primitive_name(s[0]) {
            Some(n) => n,
            None => match modifier_suffix(s[0]) {
                Some(suffix) => expand_prim(s.drop_first()) + suffix,
                None => s,
            },
        }
    }
}

/// Number of bytes of the UTF-8 encoding of a string.
pub open spec fn byte_len(s: Seq<char>) -> nat {
    encode_utf8(s).len()
}

/// A process name for which `getDefaultArgs` is defined.
pub open spec fn defaults_defined(s: Seq<char>) -> bool
    decreases s.len(),
{
    s.len() > 0 && ((1 <= byte_len(s) <= 3 && (s[0] == '/' || s[0] == ','))
        ==> defaults_defined(s.drop_first()))
}

/// The source text of the default arguments of a process whose name is at
/// most three bytes long; empty where there are none.
pub open spec fn default_args(s: Seq<char>) -> Seq<char>
    decreases s.len(),
{
    if s.len() == 0 || !(1 <= byte_len(s) <= 3) {
        seq![]
    } else if s[0] == '*' {
        "num::one()"@
    } else if s[0] == '+' || s[0] == 'Z' {
        "num::zero()"@
    } else if s[0] == '/' {
        default_args(s.drop_first())
    } else if s[0] == ',' {
        let d = default_args(s.drop_first());
        if d.len() == 0 {
            seq![]
        } else {
            "range(0,512).map(|_| "@ + d + ").collect()"@
        }
    } else {
        seq![]
    }
}

/// `a::b`
pub open spec fn spath2(a: Seq<char>, b: Seq<char>) -> SPath {
    SPath { segments: seq![seg(a), seg(b)] }
}

/// `range(0, 512).map(|_| d).collect()`
pub open spec fn vec_of(d: SExpr) -> SExpr {
    let range = scall(
        SExpr::Path(spath("range"@)),
        seq![SExpr::Lit(SLit::Int(0)), SExpr::Lit(SLit::Int(512))],
    );
    let mapped = SExpr::MethodCall(
        Box::new(range),
        "map"@,
        seq![SExpr::Closure(seq![SPat::Wild], Box::new(d))],
    );
    SExpr::MethodCall(Box::new(mapped), "collect"@, seq![])
}

/// The expression that the default arguments of a process stand for: the
/// tree of the text `default_args` gives, where that text is not empty.
pub open spec fn default_tree(s: Seq<char>) -> Option<SExpr>
    decreases s.len(),
{
    if s.len() == 0 || !(1 <= byte_len(s) <= 3) {
        None
    } else if s[0] == '*' {
        Some(scall(SExpr::Path(spath2("num"@, "one"@)), seq![]))
    } else if s[0] == '+' || s[0] == 'Z' {
        Some(scall(SExpr::Path(spath2("num"@, "zero"@)), seq![]))
    } else if s[0] == '/' {
        default_tree(s.drop_first())
    } else if s[0] == ',' {
        match default_tree(s.drop_first()) {
            Some(d) => Some(vec_of(d)),
            None => None,
        }
    } else {
        None
    }
}

/// Every name that `expandPrim` can expand has default arguments.
pub proof fn lemma_expands_defaults_defined(s: Seq<char>)
    requires
        expands(s),
    ensures
        defaults_defined(s),
    decreases s.len(),
{
    if s[0] == '/' || s[0] == ',' {
        lemma_expands_defaults_defined(s.drop_first());
    }
}

fn first_and_rest(s: &String) -> (r: (char, String))
    requires
        s@.len() > 0,
    ensures
        r.0 == s@[0],
        r.1@ == s@.drop_first(),
{
    let st = s.as_str();
    let c = st.get_char(0);
    let n = st.unicode_len();
    let rest = String::from_str(st.substring_char(1, n));
    assert(rest@ =~= s@.drop_first());
    (c, rest)
}

/// Expands the abbreviations of the primitive processes in a process name.
pub fn expandPrim(nodepname: String) -> (r: String)
    requires
        expands(nodepname@),
    ensures
        r@ == expand_prim(nodepname@),
    decreases nodepname@.len(),
{
    let (c0, snp) = first_and_rest(&nodepname);
    if c0 == '*' {
        String::from_str("mul")
    } else if c0 == '+' {
        String::from_str("sum")
    } else if c0 == 'Z' {
        String::from_str("delay")
    } else if c0 == '%' {
        String::from_str("grapes")
    } else if c0 == 'B' {
        String::from_str("binconv")
    } else if c0 == 'V' {
        String::from_str("vec")
    } else if c0 == '$' {
        String::from_str("shaper")
    } else if c0 == '~' {
        String::from_str("softSource")
    } else if c0 == '{' {
        String::from_str("looper")
    } else if c0 == '&' {
        String::from_str("crossApplicator")
    } else if c0 == '!' {
        String::from_str("applicator")
    } else if c0 == '?' {
        let mut out = expandPrim(snp);
        out.append("Optional");
        out
    } else if c0 == '/' {
        let mut out = expandPrim(snp);
        out.append("Across");
        out
    } else if c0 == ',' {
        let mut out = expandPrim(snp);
        out.append("Vecs");
        out
    } else {
        nodepname
    }
}

/// The expression that the default arguments of a process stand for, if it
/// has any.
pub fn default_args_expr(nodepname: String) -> (r: Option<Expr>)
    requires
        defaults_defined(nodepname@),
    ensures
        match r {
            Some(e) => default_tree(nodepname@) == Some(e@),
            None => default_tree(nodepname@) is None,
        },
    decreases nodepname@.len(),
{
    let (c0, snp) = first_and_rest(&nodepname);
    let len = nodepname.as_str().as_bytes().len();
    assert(len == byte_len(nodepname@));
    if !(1 <= len && len <= 3) {
        return None;
    }
    assert(exprs_view(Seq::<Expr>::empty()) =~= seq![]);
    if c0 == '*' {
        Some(expr_call(expr(ExprKind::Path(two_segment_path("num", "one"))), Vec::new()))
    } else if c0 == '+' || c0 == 'Z' {
        Some(expr_call(expr(ExprKind::Path(two_segment_path("num", "zero"))), Vec::new()))
    } else if c0 == '/' {
        default_args_expr(snp)
    } else if c0 == ',' {
        match default_args_expr(snp) {
            Some(d) => {
                let mut bounds: Vec<Expr> = Vec::new();
                bounds.push(expr_lit(LitKind::Int(0)));
                bounds.push(expr_lit(LitKind::Int(512)));
                let range = expr_call(expr_path("range"), bounds);
                let mut params: Vec<Pat> = Vec::new();
                params.push(pat_wild());
                let ghost dv = d@;
                let mut margs: Vec<Expr> = Vec::new();
                margs.push(expr(ExprKind::Closure(params, Box::new(d))));
                let mapped = expr(ExprKind::MethodCall(Box::new(range), String::from_str("map"), margs));
                let r = expr(ExprKind::MethodCall(Box::new(mapped), String::from_str("collect"), Vec::new()));
                proof {
                    assert(exprs_view(bounds@) =~= seq![SExpr::Lit(SLit::Int(0)), SExpr::Lit(SLit::Int(512))]);
                    assert(pats_view(params@) =~= seq![SPat::Wild]);
                    assert(exprs_view(margs@) =~= seq![SExpr::Closure(seq![SPat::Wild], Box::new(dv))]);
                    assert(exprs_view(Seq::<Expr>::empty()) =~= seq![]);
                }
                Some(r)
            },
            None => None,
        }
    } else {
        None
    }
}

/// The source text of the default arguments of a process, from its name.
pub fn getDefaultArgs(nodepname: String) -> (r: String)
    requires
        defaults_defined(nodepname@),
    ensures
        r@ == default_args(nodepname@),
    decreases nodepname@.len(),
{
    let (c0, snp) = first_and_rest(&nodepname);
    let len = nodepname.as_str().as_bytes().len();
    assert(len == byte_len(nodepname@));
    if 1 <= len && len <= 3 {
        if c0 == '*' {
            String::from_str("num::one()")
        } else if c0 == '+' || c0 == 'Z' {
            String::from_str("num::zero()")
        } else if c0 == '/' {
            getDefaultArgs(snp)
        } else if c0 == ',' {
            let d = getDefaultArgs(snp);
            if d.as_str().unicode_len() == 0 {
                String::new()
            } else {
                let mut out = String::from_str("range(0,512).map(|_| ");
                out.append(d.as_str());
                out.append(").collect()");
                out
            }
        } else {
            String::new()
        }
    } else {
        String::new()
    }
}

// ---------------------------------------------------------------------------
// The graph
// ---------------------------------------------------------------------------
/// A process of the network: the name of the process function (possibly an
/// abbreviated primitive), a unique id, and a label for drawings.
#[derive(Debug, Clone, PartialEq, Eq)]
pub struct Node {
    pub pname: String,
    pub uid: String,
    pub label: String,
}

/// A channel, from the uid of the process that sends to the uid of the one
/// that receives.
pub type Edge = (String, String);

/// A process network that becomes one function named `name`: `args` are the
/// extra parameters of that function, of the generic type `T`.
#[derive(Debug, PartialEq, Eq)]
pub struct Graph {
    pub edges: Vec<Edge>,
    pub nodes: Vec<Node>,
    pub name: String,
    pub args: Option<Vec<String>>,
    pub inrx: bool,
    pub outtx: bool,
}

/// A node as the contracts see it.
pub struct SNode {
    pub pname: Seq<char>,
    pub uid: Seq<char>,
    pub label: Seq<char>,
}

/// A graph as the contracts see it.
pub struct SGraph {
    pub edges: Seq<(Seq<char>, Seq<char>)>,
    pub nodes: Seq<SNode>,
    pub name: Seq<char>,
    pub args: Option<Seq<Seq<char>>>,
    pub inrx: bool,
    pub outtx: bool,
}

pub open spec fn names_view(v: Seq<String>) -> Seq<Seq<char>> {
    v.map_values(|s: String| s@)
}

pub open spec fn edges_view(v: Seq<Edge>) -> Seq<(Seq<char>, Seq<char>)> {
    v.map_values(|e: Edge| (e.0@, e.1@))
}

impl View for Node {
    type V = SNode;

    open spec fn view(&self) -> SNode {
        SNode { pname: self.pname@, uid: self.uid@, label: self.label@ }
    }
}

impl View for Graph {
    type V = SGraph;

    open spec fn view(&self) -> SGraph {
        SGraph {
            edges: edges_view(self.edges@),
            nodes: self.nodes@.map_values(|n: Node| n@),
            name: self.name@,
            args: match self.args {
                Some(a) => Some(names_view(a@)),
                None => None,
            },
            inrx: self.inrx,
            outtx: self.outtx,
        }
    }
}

// ---------------------------------------------------------------------------
// What genFunction generates
// ---------------------------------------------------------------------------
/// The sending end of the channel of edge `(e0, e1)`.
pub open spec fn tx_name(e0: Seq<char>, e1: Seq<char>) -> Seq<char> {
    "tx"@ + e0 + e1
}

/// The receiving end of the channel of edge `(e0, e1)`.
pub open spec fn rx_name(e0: Seq<char>, e1: Seq<char>) -> Seq<char> {
    "rx"@ + e0 + e1
}

/// The sending ends of the edges that leave `u`, in the order of the edges.
pub open spec fn txers(edges: Seq<(Seq<char>, Seq<char>)>, u: Seq<char>) -> Seq<Seq<char>>
    decreases edges.len(),
{
    if edges.len() == 0 {
        seq![]
    } else {
        let prefix = txers(edges.drop_last(), u);
        let e = edges.last();
        if e.0 == u {
            prefix.push(tx_name(e.0, e.1))
        } else {
            prefix
        }
    }
}

/// The receiving ends of the edges that enter `u` (an edge from `u` to
/// itself counts as leaving it only), in the order of the edges.
pub open spec fn rxers(edges: Seq<(Seq<char>, Seq<char>)>, u: Seq<char>) -> Seq<Seq<char>>
    decreases edges.len(),
{
    if edges.len() == 0 {
        seq![]
    } else {
        let prefix = rxers(edges.drop_last(), u);
        let e = edges.last();
        if e.0 != u && e.1 == u {
            prefix.push(rx_name(e.0, e.1))
        } else {
            prefix
        }
    }
}

/// Every channel end's name is at least two characters long.
pub proof fn lemma_end_names_long(edges: Seq<(Seq<char>, Seq<char>)>, u: Seq<char>)
    ensures
        forall|i: int| 0 <= i < txers(edges, u).len() ==> #[trigger] txers(edges, u)[i].len() >= 2,
        forall|i: int| 0 <= i < rxers(edges, u).len() ==> #[trigger] rxers(edges, u)[i].len() >= 2,
    decreases edges.len(),
{
    reveal_strlit("tx");
    reveal_strlit("rx");
    if edges.len() > 0 {
        lemma_end_names_long(edges.drop_last(), u);
        let e = edges.last();
        assert(tx_name(e.0, e.1).len() >= 2);
        assert(rx_name(e.0, e.1).len() >= 2);
        let t = txers(edges.drop_last(), u);
        let r = rxers(edges.drop_last(), u);
        assert forall|i: int| 0 <= i < txers(edges, u).len() implies #[trigger] txers(edges, u)[i].len()
            >= 2 by {
            if i < t.len() {
                assert(txers(edges, u)[i] == t[i]);
            }
        }
        assert forall|i: int| 0 <= i < rxers(edges, u).len() implies #[trigger] rxers(edges, u)[i].len()
            >= 2 by {
            if i < r.len() {
                assert(rxers(edges, u)[i] == r[i]);
            }
        }
    }
}

/// The other end of a channel end's name: its first letter replaced.
pub open spec fn swap_end(first: char, name: Seq<char>) -> Seq<char> {
    seq![first] + name.skip(1)
}

pub open spec fn is_io_name(x: Seq<char>) -> bool {
    x == "in"@ || x == "out"@
}

/// The parameter that an `in` or `out` process becomes, with its type: an
/// `in` process hands the function a receiver for its first outgoing
/// channel, an `out` process a sender for its first incoming one.
pub open spec fn io_entry(edges: Seq<(Seq<char>, Seq<char>)>, n: SNode) -> Option<(Seq<char>, Seq<char>)> {
    let x = expand_prim(n.pname);
    if x == "in"@ {
        Some((swap_end('r', txers(edges, n.uid)[0]), "Receiver<T>"@))
    } else if x == "out"@ {
        Some((swap_end('t', rxers(edges, n.uid)[0]), "Sender<T>"@))
    } else {
        None
    }
}

pub open spec fn io_entries(edges: Seq<(Seq<char>, Seq<char>)>, nodes: Seq<SNode>) -> Seq<(Seq<char>, Seq<char>)>
    decreases nodes.len(),
{
    if nodes.len() == 0 {
        seq![]
    } else {
        let prefix = io_entries(edges, nodes.drop_last());
        match io_entry(edges, nodes.last()) {
            Some(p) => prefix.push(p),
            None => prefix,
        }
    }
}

pub open spec fn io_names(edges: Seq<(Seq<char>, Seq<char>)>, nodes: Seq<SNode>) -> Seq<Seq<char>> {
    io_entries(edges, nodes).map_values(|p: (Seq<char>, Seq<char>)| p.0)
}

pub open spec fn io_args(edges: Seq<(Seq<char>, Seq<char>)>, nodes: Seq<SNode>) -> Seq<SArg> {
    io_entries(edges, nodes).map_values(|p: (Seq<char>, Seq<char>)| sarg(p.0, p.1))
}

pub open spec fn spaths(names: Seq<Seq<char>>) -> Seq<SExpr> {
    names.map_values(|s: Seq<char>| SExpr::Path(spath(s)))
}

/// The sender that a process with several outgoing channels sends on: the
/// first 13 bytes of its first sending end, then `0`.
pub open spec fn fork_tx(tx: Seq<Seq<char>>) -> Seq<char> {
    decode_utf8(encode_utf8(tx[0]).subrange(0, 13)) + "0"@
}

pub open spec fn rx_args(rx: Seq<Seq<char>>) -> Seq<SExpr> {
    if rx.len() == 0 {
        seq![]
    } else if rx.len() == 1 {
        seq![SExpr::Path(spath(rx[0]))]
    } else {
        seq![SExpr::Vec(spaths(rx))]
    }
}

pub open spec fn tx_args(tx: Seq<Seq<char>>) -> Seq<SExpr> {
    if tx.len() == 0 {
        seq![]
    } else if tx.len() == 1 {
        seq![SExpr::Path(spath(tx[0]))]
    } else {
        seq![SExpr::Path(spath(fork_tx(tx)))]
    }
}

/// A node argument that genFunction accepts: nothing, a list, or a name.
pub open spec fn arg_accepted(a: SJson) -> bool {
    match json_to_ast(a) {
        Some(SExpr::Vec(_)) => true,
        Some(SExpr::Path(_)) => true,
        None => true,
        _ => false,
    }
}

/// The arguments that a node's JSON argument adds: the elements of a list
/// (the default arguments of the process where the list gives none), or a
/// name.
pub open spec fn json_args(pname: Seq<char>, a: SJson) -> Seq<SExpr> {
    match json_to_ast(a) {
        Some(SExpr::Vec(v)) => if v.len() > 0 {
            v
        } else {
            match default_tree(pname) {
                Some(d) => seq![d],
                None => seq![],
            }
        },
        Some(SExpr::Path(p)) => seq![SExpr::Path(p)],
        _ => seq![],
    }
}

/// The arguments of the call that runs a process: its receivers, its
/// sender, then what its JSON argument adds.
pub open spec fn node_argv(edges: Seq<(Seq<char>, Seq<char>)>, n: SNode, a: SJson) -> Seq<SExpr> {
    rx_args(rxers(edges, n.uid)) + tx_args(txers(edges, n.uid)) + json_args(n.pname, a)
}

/// `let (t, r) = channel();` for each sending end `t` that is not a parameter.
pub open spec fn channel_lets(tx: Seq<Seq<char>>, io: Seq<Seq<char>>) -> Seq<SStmt>
    decreases tx.len(),
{
    if tx.len() == 0 {
        seq![]
    } else {
        let prefix = channel_lets(tx.drop_last(), io);
        let t = tx.last();
        if io.contains(t) {
            prefix
        } else {
            prefix.push(slet_pair(t, swap_end('r', t), channel_init()))
        }
    }
}

/// The channel statements of one node: the fork channel of a process with
/// several outgoing channels, then (unless it is an `in` or `out` process)
/// a channel for each of its sending ends that is not a parameter.
pub open spec fn node_lets(edges: Seq<(Seq<char>, Seq<char>)>, io: Seq<Seq<char>>, n: SNode) -> Seq<SStmt> {
    let tx = txers(edges, n.uid);
    let ftx = fork_tx(tx);
    (if tx.len() >= 2 {
        seq![slet_pair(ftx, swap_end('r', ftx), channel_init())]
    } else {
        seq![]
    }) + (if is_io_name(expand_prim(n.pname)) {
        seq![]
    } else {
        channel_lets(tx, io)
    })
}

/// The tasks that one node spawns: a `fork` from the fork channel to all of
/// its sending ends, then (unless it is an `in` or `out` process) the
/// process itself.
pub open spec fn node_spawns(edges: Seq<(Seq<char>, Seq<char>)>, n: SNode, a: SJson) -> Seq<SExpr> {
    let tx = txers(edges, n.uid);
    let ftx = fork_tx(tx);
    let x = expand_prim(n.pname);
    (if tx.len() >= 2 {
        seq![sspawn("fork"@, seq![SExpr::Path(spath(swap_end('r', ftx))), SExpr::Vec(spaths(tx))])]
    } else {
        seq![]
    }) + (if is_io_name(x) {
        seq![]
    } else {
        seq![sspawn(x, node_argv(edges, n, a))]
    })
}

/// The channel statements of the first `k` nodes.
pub open spec fn all_lets(g: SGraph, io: Seq<Seq<char>>, k: int) -> Seq<SStmt>
    decreases k,
{
    if k <= 0 {
        seq![]
    } else {
        all_lets(g, io, k - 1) + node_lets(g.edges, io, g.nodes[k - 1])
    }
}

/// The spawned tasks of the first `k` nodes, each with its argument.
pub open spec fn all_spawns(g: SGraph, args: Seq<SJson>, k: int) -> Seq<SExpr>
    decreases k,
{
    if k <= 0 {
        seq![]
    } else {
        all_spawns(g, args, k - 1) + node_spawns(g.edges, g.nodes[k - 1], args[k - 1])
    }
}

/// The number of nodes that are paired with an argument.
pub open spec fn paired(g: SGraph, args: Seq<SJson>) -> int {
    if g.nodes.len() <= args.len() {
        g.nodes.len() as int
    } else {
        args.len() as int
    }
}

/// The parameters of the generated function: one per `in` or `out` process,
/// then one of type `T` per extra argument of the graph.
pub open spec fn fn_args(g: SGraph) -> Seq<SArg> {
    io_args(g.edges, g.nodes) + match g.args {
        Some(a) => a.map_values(|x: Seq<char>| sarg(x, "T"@)),
        None => seq![],
    }
}

/// The body of the generated function: all channels are created first, then
/// all tasks are spawned.
pub open spec fn gen_body(g: SGraph, args: Seq<SJson>) -> Seq<SStmt> {
    let k = paired(g, args);
    all_lets(g, io_names(g.edges, g.nodes), k) + all_spawns(g, args, k).map_values(
        |e: SExpr| SStmt::Semi(e),
    )
}

/// The function that a graph becomes.
pub open spec fn gen_function(g: SGraph, args: Seq<SJson>) -> SItem {
    sfn_item(g.name, fn_args(g), STy::Nil, sblock(gen_body(g, args), None))
}

/// What genFunction needs of a node (it fails on any other): its name
/// expands, an `in` process has a channel out and an `out` process one in.
pub open spec fn node_ok(edges: Seq<(Seq<char>, Seq<char>)>, n: SNode) -> bool {
    &&& expands(n.pname)
    &&& expand_prim(n.pname) == "in"@ ==> txers(edges, n.uid).len() > 0
    &&& expand_prim(n.pname) == "out"@ ==> rxers(edges, n.uid).len() > 0
}

/// What genFunction needs of a node that is paired with an argument: the
/// argument is accepted, the fork name of a process with several outgoing
/// channels cuts its first sending end at a character boundary, and the
/// process name is a valid string-literal text.
pub open spec fn paired_ok(edges: Seq<(Seq<char>, Seq<char>)>, n: SNode, a: SJson) -> bool {
    let tx = txers(edges, n.uid);
    &&& arg_accepted(a)
    &&& tx.len() >= 2 ==> is_char_boundary(encode_utf8(tx[0]), 13)
    &&& !is_io_name(expand_prim(n.pname)) ==> unescape(expand_prim(n.pname)) is Some
}

pub open spec fn gen_ok(g: SGraph, args: Seq<SJson>) -> bool {
    &&& forall|i: int| 0 <= i < g.nodes.len() ==> #[trigger] node_ok(g.edges, g.nodes[i])
    &&& forall|i: int|
        0 <= i < paired(g, args) ==> #[trigger] paired_ok(g.edges, g.nodes[i], args[i])
}

// ---------------------------------------------------------------------------
// Generation
// ---------------------------------------------------------------------------
/// The receiving and the sending ends of the channels of the process `uid`.
fn edge_names(edges: &Vec<Edge>, uid: &String) -> (r: (Vec<String>, Vec<String>))
    ensures
        names_view(r.0@) == rxers(edges_view(edges@), uid@),
        names_view(r.1@) == txers(edges_view(edges@), uid@),
{
    let ghost ev = edges_view(edges@);
    let mut rx: Vec<String> = Vec::new();
    let mut tx: Vec<String> = Vec::new();
    let mut i: usize = 0;
    while i < edges.len()
        invariant
            i <= edges@.len(),
            ev == edges_view(edges@),
            names_view(rx@) == rxers(ev.take(i as int), uid@),
            names_view(tx@) == txers(ev.take(i as int), uid@),
        decreases edges@.len() - i,
    {
        let e0 = &edges[i].0;
        let e1 = &edges[i].1;
        if same(uid, e0) {
            tx.push(concat3("tx", e0, e1));
        } else if same(uid, e1) {
            rx.push(concat3("rx", e0, e1));
        }
        proof {
            assert(ev.take(i + 1).drop_last() =~= ev.take(i as int));
            assert(ev.take(i + 1).last() == (e0@, e1@));
            assert(names_view(rx@) =~= rxers(ev.take(i + 1), uid@));
            assert(names_view(tx@) =~= txers(ev.take(i + 1), uid@));
        }
        i = i + 1;
    }
    assert(ev.take(edges@.len() as int) =~= ev);
    (rx, tx)
}

/// The `in` and `out` processes' channel ends and the parameters they
/// become, in the order of the nodes.
fn collect_io(g: &Graph) -> (r: (Vec<String>, Vec<Arg>))
    requires
        forall|i: int| 0 <= i < g@.nodes.len() ==> #[trigger] node_ok(g@.edges, g@.nodes[i]),
    ensures
        names_view(r.0@) == io_names(g@.edges, g@.nodes),
        args_view(r.1@) == io_args(g@.edges, g@.nodes),
{
    let ghost ev = g@.edges;
    let ghost nv = g@.nodes;
    let mut io: Vec<String> = Vec::new();
    let mut fnargv: Vec<Arg> = Vec::new();
    let mut i: usize = 0;
    while i < g.nodes.len()
        invariant
            i <= nv.len(),
            ev == g@.edges,
            nv == g@.nodes,
            nv.len() == g.nodes@.len(),
            forall|j: int| 0 <= j < nv.len() ==> #[trigger] node_ok(ev, nv[j]),
            names_view(io@) == io_names(ev, nv.take(i as int)),
            args_view(fnargv@) == io_args(ev, nv.take(i as int)),
        decreases nv.len() - i,
    {
        let node = &g.nodes[i];
        assert(nv[i as int] == node@);
        assert(node_ok(ev, nv[i as int]));
        let n = expandPrim(copy_string(&node.pname));
        let (rx, tx) = edge_names(&g.edges, &node.uid);
        proof {
            lemma_end_names_long(ev, node@.uid);
        }
        let ghost io0 = io@;
        let ghost args0 = fnargv@;
        proof {
            assert(nv.take(i + 1).drop_last() =~= nv.take(i as int));
            assert(nv.take(i + 1).last() == node@);
        }
        let ghost prev = io_entries(ev, nv.take(i as int));
        if is_str(&n, "in") {
            assert(tx@[0]@ == names_view(tx@)[0]);
            let x = swap_first('r', &tx[0]);
            fnargv.push(arg(x.as_str(), "Receiver<T>"));
            proof {
                let p = (x@, "Receiver<T>"@);
                assert(io_entry(ev, node@) == Some(p));
                assert(io_entries(ev, nv.take(i + 1)) == prev.push(p));
                assert(io_names(ev, nv.take(i + 1)) =~= io0.map_values(|s: String| s@).push(x@));
                assert(io_args(ev, nv.take(i + 1)) =~= args_view(args0).push(sarg(x@, "Receiver<T>"@)));
            }
            io.push(x);
        } else if is_str(&n, "out") {
            assert(rx@[0]@ == names_view(rx@)[0]);
            let x = swap_first('t', &rx[0]);
            fnargv.push(arg(x.as_str(), "Sender<T>"));
            proof {
                let p = (x@, "Sender<T>"@);
                assert(io_entry(ev, node@) == Some(p));
                assert(io_entries(ev, nv.take(i + 1)) == prev.push(p));
                assert(io_names(ev, nv.take(i + 1)) =~= io0.map_values(|s: String| s@).push(x@));
                assert(io_args(ev, nv.take(i + 1)) =~= args_view(args0).push(sarg(x@, "Sender<T>"@)));
            }
            io.push(x);
        } else {
            assert(io_entry(ev, node@) is None);
            assert(io_entries(ev, nv.take(i + 1)) == prev);
        }
        proof {
            assert(names_view(io@) =~= io_names(ev, nv.take(i + 1)));
            assert(args_view(fnargv@) =~= io_args(ev, nv.take(i + 1)));
        }
        i = i + 1;
    }
    assert(nv.take(nv.len() as int) =~= nv);
    (io, fnargv)
}

/// One path expression per name.
fn path_exprs(names: &Vec<String>) -> (r: Vec<Expr>)
    ensures
        exprs_view(r@) == spaths(names_view(names@)),
{
    let mut out: Vec<Expr> = Vec::new();
    let mut i: usize = 0;
    while i < names.len()
        invariant
            i <= names@.len(),
            exprs_view(out@) == spaths(names_view(names@).take(i as int)),
        decreases names@.len() - i,
    {
        let ghost out0 = out@;
        let e = expr_path(names[i].as_str());
        out.push(e);
        proof {
            lemma_exprs_view_push(out0, e);
            assert(names_view(names@)[i as int] == names@[i as int]@);
            assert(exprs_view(out@) =~= spaths(names_view(names@).take(i + 1)));
        }
        i = i + 1;
    }
    assert(names_view(names@).take(names@.len() as int) =~= names_view(names@));
    out
}

/// The sender of the fork channel: the first 13 bytes of `t`, then `0`.
fn fork_name(t: &String) -> (r: String)
    requires
        is_char_boundary(encode_utf8(t@), 13),
    ensures
        r@ == decode_utf8(encode_utf8(t@).subrange(0, 13)) + "0"@,
{
    let (head, _tail) = t.as_str().split_at(13);
    proof {
        encode_utf8_decode_utf8(head@);
    }
    let mut r = String::from_str(head);
    r.append("0");
    r
}

/// The arguments that a node's JSON argument adds.
fn json_part(pname: &String, a: &Json) -> (r: Vec<Expr>)
    requires
        expands(pname@),
        arg_accepted(a@),
    ensures
        exprs_view(r@) == json_args(pname@, a@),
{
    proof {
        lemma_expands_defaults_defined(pname@);
    }
    let mut out: Vec<Expr> = Vec::new();
    match json_node(a) {
        Some(ExprKind::Vec(v)) => {
            if v.len() > 0 {
                out = v;
            } else {
                match default_args_expr(copy_string(pname)) {
                    Some(d) => {
                        out.push(d);
                    },
                    None => {},
                }
            }
        },
        Some(ExprKind::Path(p)) => {
            out.push(expr(ExprKind::Path(p)));
        },
        Some(_) => {
            assert(false);
        },
        None => {},
    }
    assert(exprs_view(out@) =~= json_args(pname@, a@));
    out
}

/// The channel statements and the spawned tasks of one node.
fn node_part(edges: &Vec<Edge>, io: &Vec<String>, node: &Node, a: &Json) -> (r: (Vec<Stmt>, Vec<Expr>))
    requires
        node_ok(edges_view(edges@), node@),
        paired_ok(edges_view(edges@), node@, a@),
    ensures
        stmts_view(r.0@) == node_lets(edges_view(edges@), names_view(io@), node@),
        exprs_view(r.1@) == node_spawns(edges_view(edges@), node@, a@),
{
    let ghost ev = edges_view(edges@);
    let ghost nv = node@;
    let n = expandPrim(copy_string(&node.pname));
    let (rx, tx) = edge_names(edges, &node.uid);
    let ghost txv = names_view(tx@);
    proof {
        lemma_end_names_long(ev, nv.uid);
        reveal_strlit("0");
        assert forall|k: int| 0 <= k < txv.len() implies #[trigger] txv[k].len() >= 2 by {
            assert(txv[k] == txers(ev, nv.uid)[k]);
        }
    }
    let mut lets: Vec<Stmt> = Vec::new();
    let mut spawns: Vec<Expr> = Vec::new();
    let mut argv: Vec<Expr> = Vec::new();
    // the receivers
    if rx.len() == 1 {
        argv.push(expr_path(rx[0].as_str()));
    } else if rx.len() > 1 {
        argv.push(expr_vec(path_exprs(&rx)));
    }
    assert(exprs_view(argv@) =~= rx_args(rxers(ev, nv.uid)));
    // the sender, through a fork where there are several channels out
    let ghost argv0 = argv@;
    if tx.len() == 1 {
        argv.push(expr_path(tx[0].as_str()));
    } else if tx.len() > 1 {
        assert(tx@[0]@ == txv[0]);
        let ftx = fork_name(&tx[0]);
        let frx = swap_first('r', &ftx);
        let mut fargs: Vec<Expr> = Vec::new();
        fargs.push(expr_path(frx.as_str()));
        fargs.push(expr_vec(path_exprs(&tx)));
        proof {
            reveal_strlit("fork");
            lemma_plain_text_unescapes_to_itself("fork"@);
        }
        let ghost fv = exprs_view(fargs@);
        spawns.push(spawn("fork", fargs));
        lets.push(let_channel(ftx.as_str(), frx.as_str()));
        argv.push(expr_path(ftx.as_str()));
        assert(fv =~= seq![SExpr::Path(spath(swap_end('r', fork_tx(txv)))), SExpr::Vec(spaths(txv))]);
    }
    assert(exprs_view(argv@) =~= exprs_view(argv0) + tx_args(txv));
    // the node's own argument
    let ghost argv1 = argv@;
    let mut own = json_part(&node.pname, a);
    let ghost ownv = own@;
    argv.append(&mut own);
    proof {
        lemma_exprs_view_concat(argv1, ownv);
    }
    assert(exprs_view(argv@) =~= exprs_view(argv1) + json_args(nv.pname, a@));
    assert(exprs_view(argv@) =~= node_argv(ev, nv, a@));
    // the process itself and its channels
    let ghost lets0 = lets@;
    if !(is_str(&n, "in") || is_str(&n, "out")) {
        spawns.push(spawn(n.as_str(), argv));
        let mut j: usize = 0;
        while j < tx.len()
            invariant
                j <= tx@.len(),
                txv == names_view(tx@),
                forall|k: int| 0 <= k < txv.len() ==> #[trigger] txv[k].len() >= 2,
                stmts_view(lets@) == stmts_view(lets0) + channel_lets(txv.take(j as int), names_view(io@)),
            decreases tx@.len() - j,
        {
            let ghost before = lets@;
            assert(txv[j as int] == tx@[j as int]@);
            if !contains_string(io, &tx[j]) {
                let r = swap_first('r', &tx[j]);
                let st = let_channel(tx[j].as_str(), r.as_str());
                lets.push(st);
                proof {
                    lemma_stmts_view_push(before, st);
                }
            }
            proof {
                assert(txv.take(j + 1).drop_last() =~= txv.take(j as int));
                assert(txv.take(j + 1).last() == tx@[j as int]@);
                assert(stmts_view(lets@) =~= stmts_view(lets0) + channel_lets(
                    txv.take(j + 1),
                    names_view(io@),
                ));
            }
            j = j + 1;
        }
        assert(txv.take(tx@.len() as int) =~= txv);
    }
    assert(stmts_view(lets@) =~= node_lets(ev, names_view(io@), nv));
    assert(exprs_view(spawns@) =~= node_spawns(ev, nv, a@));
    (lets, spawns)
}

/// The parameter `x: T` for each extra argument.
fn extra_args(fnargv: &mut Vec<Arg>, extra: &Vec<String>)
    ensures
        args_view(final(fnargv)@) == args_view(old(fnargv)@) + names_view(extra@).map_values(
            |x: Seq<char>| sarg(x, "T"@),
        ),
{
    let ghost start = fnargv@;
    let ghost ev = names_view(extra@);
    let mut i: usize = 0;
    while i < extra.len()
        invariant
            i <= extra@.len(),
            ev == names_view(extra@),
            args_view(fnargv@) == args_view(start) + ev.take(i as int).map_values(
                |x: Seq<char>| sarg(x, "T"@),
            ),
        decreases extra@.len() - i,
    {
        let ghost before = fnargv@;
        let a = arg(extra[i].as_str(), "T");
        fnargv.push(a);
        proof {
            assert(args_view(fnargv@) =~= args_view(before).push(a@));
            assert(ev[i as int] == extra@[i as int]@);
            assert(ev.take(i + 1) =~= ev.take(i as int).push(ev[i as int]));
            assert(args_view(fnargv@) =~= args_view(start) + ev.take(i + 1).map_values(
                |x: Seq<char>| sarg(x, "T"@),
            ));
        }
        i = i + 1;
    }
    assert(ev.take(extra@.len() as int) =~= ev);
}

/// One statement `e;` per spawned task, in order.
fn semi_stmts(spawns: Vec<Expr>) -> (r: Vec<Stmt>)
    ensures
        stmts_view(r@) == exprs_view(spawns@).map_values(|e: SExpr| SStmt::Semi(e)),
{
    let ghost sv = exprs_view(spawns@);
    let n = spawns.len();
    assert(sv.len() == n);
    let mut rest = spawns;
    let mut out: Vec<Stmt> = Vec::new();
    let mut j: usize = 0;
    while rest.len() > 0
        invariant
            j + rest@.len() == sv.len(),
            sv.len() <= usize::MAX,
            exprs_view(rest@) == sv.skip(j as int),
            stmts_view(out@) == sv.take(j as int).map_values(|e: SExpr| SStmt::Semi(e)),
        decreases rest@.len(),
    {
        let ghost rest0 = rest@;
        let e = rest.remove(0);
        let ghost out0 = out@;
        let st = stmt_semi(e);
        out.push(st);
        proof {
            lemma_stmts_view_push(out0, st);
            assert(exprs_view(rest0)[0] == sv[j as int]);
            assert(exprs_view(rest@) =~= exprs_view(rest0).skip(1));
            assert(exprs_view(rest@) =~= sv.skip(j + 1));
            assert(sv.take(j + 1) =~= sv.take(j as int).push(sv[j as int]));
            assert(stmts_view(out@) =~= sv.take(j + 1).map_values(|e: SExpr| SStmt::Semi(e)));
        }
        j = j + 1;
    }
    assert(sv.take(j as int) =~= sv);
    out
}

/// Generates the function that a graph becomes: its parameters are the
/// channel ends of the `in` and `out` processes and the graph's extra
/// arguments; its body creates the channels and spawns the processes, each
/// node paired with the argument at the same position.
pub fn genFunction(g: Graph, args: Vec<Json>) -> (r: Item)
    requires
        gen_ok(g@, jsons_view(args@)),
    ensures
        r@ == gen_function(g@, jsons_view(args@)),
{
    let ghost gv = g@;
    let ghost av = jsons_view(args@);
    let (io, mut fnargv) = collect_io(&g);
    let ghost iov = names_view(io@);
    let k: usize = if g.nodes.len() <= args.len() {
        g.nodes.len()
    } else {
        args.len()
    };
    let mut lets: Vec<Stmt> = Vec::new();
    let mut spawns: Vec<Expr> = Vec::new();
    let mut i: usize = 0;
    while i < k
        invariant
            i <= k,
            k == paired(gv, av),
            gv == g@,
            av == jsons_view(args@),
            iov == names_view(io@),
            iov == io_names(gv.edges, gv.nodes),
            gen_ok(gv, av),
            stmts_view(lets@) == all_lets(gv, iov, i as int),
            exprs_view(spawns@) == all_spawns(gv, av, i as int),
        decreases k - i,
    {
        assert(gv.nodes[i as int] == g.nodes@[i as int]@);
        assert(av[i as int] == args@[i as int]@);
        assert(node_ok(gv.edges, gv.nodes[i as int]));
        assert(paired_ok(gv.edges, gv.nodes[i as int], av[i as int]));
        let (mut l, mut s) = node_part(&g.edges, &io, &g.nodes[i], &args[i]);
        let ghost lets0 = lets@;
        let ghost spawns0 = spawns@;
        let ghost l0 = l@;
        let ghost s0 = s@;
        lets.append(&mut l);
        spawns.append(&mut s);
        proof {
            lemma_stmts_view_concat(lets0, l0);
            lemma_exprs_view_concat(spawns0, s0);
        }
        i = i + 1;
    }
    let mut semis = semi_stmts(spawns);
    let ghost lets0 = lets@;
    let ghost semis0 = semis@;
    lets.append(&mut semis);
    proof {
        lemma_stmts_view_concat(lets0, semis0);
    }
    match &g.args {
        Some(extra) => {
            extra_args(&mut fnargv, extra);
        },
        None => {},
    }
    assert(args_view(fnargv@) =~= fn_args(gv));
    let body = block(lets, None);
    assert(body@ =~= sblock(gen_body(gv, av), None));
    fn_item(g.name.as_str(), fnargv, ty_nil(), body)
}

// ---------------------------------------------------------------------------
// Ends of an edge
// ---------------------------------------------------------------------------
/// The first node with the uid `u`, if there is one.
pub open spec fn find_node(nodes: Seq<SNode>, u: Seq<char>) -> Option<SNode>
    decreases nodes.len(),
{
    if nodes.len() == 0 {
        None
    } else if nodes[0].uid == u {
        Some(nodes[0])
    } else {
        find_node(nodes.drop_first(), u)
    }
}

proof fn lemma_find_node_step(nodes: Seq<SNode>, u: Seq<char>, i: int)
    requires
        0 <= i < nodes.len(),
        forall|j: int| 0 <= j < i ==> nodes[j].uid != u,
    ensures
        find_node(nodes, u) == find_node(nodes.skip(i), u),
    decreases i,
{
    if i > 0 {
        assert(nodes.skip(1).skip(i - 1) =~= nodes.skip(i));
        assert(nodes.skip(1) =~= nodes.drop_first());
        lemma_find_node_step(nodes.skip(1), u, i - 1);
    } else {
        assert(nodes.skip(0) =~= nodes);
    }
}

proof fn lemma_find_node_none(nodes: Seq<SNode>, u: Seq<char>)
    requires
        forall|j: int| 0 <= j < nodes.len() ==> nodes[j].uid != u,
    ensures
        find_node(nodes, u) is None,
    decreases nodes.len(),
{
    if nodes.len() > 0 {
        lemma_find_node_none(nodes.drop_first(), u);
    }
}

fn copy_node(n: &Node) -> (r: Node)
    ensures
        r@ == n@,
{
    Node { pname: copy_string(&n.pname), uid: copy_string(&n.uid), label: copy_string(&n.label) }
}

impl Graph {
    /// The first node whose uid is `u`, if any.
    pub fn node_with_uid(&self, u: &String) -> (r: Option<Node>)
        ensures
            match r {
                Some(n) => find_node(self@.nodes, u@) == Some(n@),
                None => find_node(self@.nodes, u@) is None,
            },
    {
        let ghost nv = self@.nodes;
        let mut i: usize = 0;
        while i < self.nodes.len()
            invariant
                i <= nv.len(),
                nv == self@.nodes,
                nv.len() == self.nodes@.len(),
                forall|j: int| 0 <= j < i ==> nv[j].uid != u@,
            decreases nv.len() - i,
        {
            assert(nv[i as int] == self.nodes@[i as int]@);
            if same(&self.nodes[i].uid, u) {
                proof {
                    lemma_find_node_step(nv, u@, i as int);
                }
                return Some(copy_node(&self.nodes[i]));
            }
            i = i + 1;
        }
        proof {
            lemma_find_node_none(nv, u@);
        }
        None
    }

    /// The node that an edge leaves: the first node whose uid is the edge's
    /// first end.
    pub fn source(&self, e: &Edge) -> (r: Node)
        requires
            find_node(self@.nodes, e.0@) is Some,
        ensures
            find_node(self@.nodes, e.0@) == Some(r@),
    {
        match self.node_with_uid(&e.0) {
            Some(n) => n,
            None => {
                assert(false);
                copy_node(&self.nodes[0])
            },
        }
    }

    /// The node that an edge enters: the first node whose uid is the edge's
    /// second end.
    pub fn target(&self, e: &Edge) -> (r: Node)
        requires
            find_node(self@.nodes, e.1@) is Some,
        ensures
            find_node(self@.nodes, e.1@) == Some(r@),
    {
        match self.node_with_uid(&e.1) {
            Some(n) => n,
            None => {
                assert(false);
                copy_node(&self.nodes[0])
            },
        }
    }
}

// ---------------------------------------------------------------------------
// Which inputs genFunction accepts
// ---------------------------------------------------------------------------
fn expands_exec(s: &String) -> (r: bool)
    ensures
        r == expands(s@),
    decreases s@.len(),
{
    if s.as_str().unicode_len() == 0 {
        return false;
    }
    let st = s.as_str();
    let c = st.get_char(0);
    if c == '?' || c == '/' || c == ',' {
        let n = st.unicode_len();
        let rest = String::from_str(st.substring_char(1, n));
        assert(rest@ =~= s@.drop_first());
        expands_exec(&rest)
    } else {
        true
    }
}

fn node_ok_exec(edges: &Vec<Edge>, node: &Node) -> (r: bool)
    ensures
        r == node_ok(edges_view(edges@), node@),
{
    if !expands_exec(&node.pname) {
        return false;
    }
    let n = expandPrim(copy_string(&node.pname));
    let (rx, tx) = edge_names(edges, &node.uid);
    if is_str(&n, "in") && tx.len() == 0 {
        return false;
    }
    if is_str(&n, "out") && rx.len() == 0 {
        return false;
    }
    true
}

fn paired_ok_exec(edges: &Vec<Edge>, node: &Node, a: &Json) -> (r: bool)
    requires
        expands(node@.pname),
    ensures
        r == paired_ok(edges_view(edges@), node@, a@),
{
    let accepted = match json_node(a) {
        Some(ExprKind::Vec(_)) => true,
        Some(ExprKind::Path(_)) => true,
        None => true,
        Some(_) => false,
    };
    if !accepted {
        return false;
    }
    let (_rx, tx) = edge_names(edges, &node.uid);
    if tx.len() >= 2 {
        assert(tx@[0]@ == names_view(tx@)[0]);
        if !tx[0].as_str().is_char_boundary(13) {
            return false;
        }
    }
    let n = expandPrim(copy_string(&node.pname));
    if !(is_str(&n, "in") || is_str(&n, "out")) {
        return literal_value(n.as_str()).is_some();
    }
    true
}

/// Whether genFunction accepts a graph with these node arguments (it fails
/// on any other).
pub fn graph_accepted(g: &Graph, args: &Vec<Json>) -> (r: bool)
    ensures
        r == gen_ok(g@, jsons_view(args@)),
{
    let ghost gv = g@;
    let ghost av = jsons_view(args@);
    let mut i: usize = 0;
    while i < g.nodes.len()
        invariant
            i <= g.nodes@.len(),
            gv == g@,
            gv.nodes.len() == g.nodes@.len(),
            forall|j: int| 0 <= j < i ==> #[trigger] node_ok(gv.edges, gv.nodes[j]),
        decreases g.nodes@.len() - i,
    {
        assert(gv.nodes[i as int] == g.nodes@[i as int]@);
        if !node_ok_exec(&g.edges, &g.nodes[i]) {
            assert(!node_ok(gv.edges, gv.nodes[i as int]));
            return false;
        }
        i = i + 1;
    }
    let k: usize = if g.nodes.len() <= args.len() {
        g.nodes.len()
    } else {
        args.len()
    };
    let mut i: usize = 0;
    while i < k
        invariant
            i <= k,
            k == paired(gv, av),
            gv == g@,
            av == jsons_view(args@),
            forall|j: int| 0 <= j < gv.nodes.len() ==> #[trigger] node_ok(gv.edges, gv.nodes[j]),
            forall|j: int| 0 <= j < i ==> #[trigger] paired_ok(gv.edges, gv.nodes[j], av[j]),
        decreases k - i,
    {
        assert(gv.nodes[i as int] == g.nodes@[i as int]@);
        assert(av[i as int] == args@[i as int]@);
        assert(node_ok(gv.edges, gv.nodes[i as int]));
        if !paired_ok_exec(&g.edges, &g.nodes[i], &args[i]) {
            return false;
        }
        i = i + 1;
    }
    true
}

} // verus!
