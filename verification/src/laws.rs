//! Properties of the generator that hold for all inputs.
use crate::abstrast::{json_items, json_to_ast, scall, slet_pair, spath, sspawn, SJson};
use crate::ast::{SExpr, SLit, SStmt};
use crate::literal::{hex_number, hex_run, hex_val, unescape};
use crate::render::{
    digit_char, escape_char, escape_str, hex_digit_char, hex_text, nat_text, render_expr, render_item,
};
use crate::stage2::{
    all_lets, all_spawns, byte_len, channel_lets, default_args, default_tree, expand_prim, find_node,
    gen_body, gen_function, fn_args, is_io_name, modifier_suffix, node_argv, node_lets, node_spawns,
    paired, rxers, spath2, txers,
    SGraph, SNode,
};
use vstd::prelude::*;

verus! {

broadcast use vstd::seq::group_seq_axioms;

// ---------------------------------------------------------------------------
// Process names
// ---------------------------------------------------------------------------
/// A modifier in front of a process name appends its suffix to the
/// expansion of the name: `?`, `/` and `,` add `Optional`, `Across` and
/// `Vecs`.
pub proof fn law_modifier_appends_suffix(c: char, s: Seq<char>)
    requires
        modifier_suffix(c) is Some,
    ensures
        expand_prim(seq![c] + s) == expand_prim(s) + modifier_suffix(c)->0,
{
    reveal_with_fuel(expand_prim, 2);
    assert((seq![c] + s).drop_first() =~= s);
    assert((seq![c] + s)[0] == c);
}

/// Only names of one to three bytes have default arguments.
pub proof fn law_defaults_only_for_short_names(s: Seq<char>)
    requires
        !(1 <= byte_len(s) <= 3),
    ensures
        default_args(s) == Seq::<char>::empty(),
{
}

/// A process has default arguments as an expression exactly when it has
/// them as text.
pub proof fn law_default_tree_iff_text(s: Seq<char>)
    ensures
        (default_tree(s) is Some) == (default_args(s).len() > 0),
    decreases s.len(),
{
    reveal_strlit("num::one()");
    reveal_strlit("num::zero()");
    if s.len() > 0 && 1 <= byte_len(s) <= 3 && (s[0] == '/' || s[0] == ',') {
        law_default_tree_iff_text(s.drop_first());
    }
}

// ---------------------------------------------------------------------------
// JSON arguments
// ---------------------------------------------------------------------------
/// Converting a list keeps the order of its elements and drops only those
/// that stand for nothing: it never has more expressions than elements, and
/// exactly as many when every element stands for an expression.
pub proof fn law_json_items_length(l: Seq<SJson>)
    ensures
        json_items(l).len() <= l.len(),
        (forall|i: int| 0 <= i < l.len() ==> #[trigger] json_to_ast(l[i]) is Some) ==> json_items(
            l,
        ).len() == l.len(),
    decreases l.len(),
{
    if l.len() > 0 {
        assert forall|i: int|
            0 <= i < l.drop_last().len() implies #[trigger] l.drop_last()[i] == l[i] by {}
        law_json_items_length(l.drop_last());
        if forall|i: int| 0 <= i < l.len() ==> #[trigger] json_to_ast(l[i]) is Some {
            assert(json_to_ast(l[l.len() - 1]) is Some);
            assert forall|i: int| 0 <= i < l.drop_last().len() implies #[trigger] json_to_ast(
                l.drop_last()[i],
            ) is Some by {
                assert(json_to_ast(l[i]) is Some);
            }
        }
    }
}

// ---------------------------------------------------------------------------
// The generated function
// ---------------------------------------------------------------------------
pub open spec fn is_let(s: SStmt) -> bool {
    s is Let
}

proof fn lemma_channel_lets_are_lets(tx: Seq<Seq<char>>, io: Seq<Seq<char>>)
    ensures
        forall|i: int|
            0 <= i < channel_lets(tx, io).len() ==> #[trigger] is_let(channel_lets(tx, io)[i]),
    decreases tx.len(),
{
    if tx.len() > 0 {
        lemma_channel_lets_are_lets(tx.drop_last(), io);
        let p = channel_lets(tx.drop_last(), io);
        assert forall|i: int|
            0 <= i < channel_lets(tx, io).len() implies #[trigger] is_let(
            channel_lets(tx, io)[i],
        ) by {
            if i < p.len() {
                assert(channel_lets(tx, io)[i] == p[i]);
            }
        }
    }
}

proof fn lemma_all_lets_are_lets(g: SGraph, io: Seq<Seq<char>>, k: int)
    ensures
        forall|i: int| 0 <= i < all_lets(g, io, k).len() ==> #[trigger] is_let(all_lets(g, io, k)[i]),
    decreases k,
{
    if k > 0 {
        lemma_all_lets_are_lets(g, io, k - 1);
        let n = g.nodes[k - 1];
        let tx = txers(g.edges, n.uid);
        lemma_channel_lets_are_lets(tx, io);
        let p = all_lets(g, io, k - 1);
        let q = node_lets(g.edges, io, n);
        assert forall|i: int| 0 <= i < all_lets(g, io, k).len() implies #[trigger] is_let(
            all_lets(g, io, k)[i],
        ) by {
            if i < p.len() {
                assert(all_lets(g, io, k)[i] == p[i]);
            } else {
                let j = i - p.len();
                assert(all_lets(g, io, k)[i] == q[j]);
                let first = if tx.len() >= 2 {
                    1int
                } else {
                    0int
                };
                if j >= first {
                    assert(q[j] == channel_lets(tx, io)[j - first]);
                }
            }
        }
    }
}

/// In the generated function every channel is created before the first task
/// is spawned: the body is a run of `let` statements followed by a run of
/// spawn statements.
pub proof fn law_channels_before_spawns(g: SGraph, args: Seq<SJson>)
    ensures
        ({
            let body = gen_body(g, args);
            forall|i: int, j: int|
                0 <= i < j < body.len() && #[trigger] is_let(body[j]) ==> #[trigger] is_let(body[i])
        }),
{
    let k = paired(g, args);
    let io = crate::stage2::io_names(g.edges, g.nodes);
    let lets = all_lets(g, io, k);
    let spawns = all_spawns(g, args, k).map_values(|e: SExpr| SStmt::Semi(e));
    lemma_all_lets_are_lets(g, io, k);
    let body = gen_body(g, args);
    assert(body == lets + spawns);
    assert forall|i: int, j: int|
        0 <= i < j < body.len() && #[trigger] is_let(body[j]) implies #[trigger] is_let(body[i]) by {
        if j >= lets.len() {
            assert(body[j] == spawns[j - lets.len()]);
        }
        assert(body[i] == lets[i]);
    }
}

/// The number of tasks a node spawns: a fork where it has more than one
/// channel out, and the process itself unless it is `in` or `out`.
pub open spec fn tasks_of(g: SGraph, n: SNode) -> int {
    (if txers(g.edges, n.uid).len() >= 2 {
        1int
    } else {
        0int
    }) + (if is_io_name(expand_prim(n.pname)) {
        0int
    } else {
        1int
    })
}

pub open spec fn tasks_upto(g: SGraph, k: int) -> int
    decreases k,
{
    if k <= 0 {
        0
    } else {
        tasks_upto(g, k - 1) + tasks_of(g, g.nodes[k - 1])
    }
}

proof fn lemma_all_spawns_len(g: SGraph, args: Seq<SJson>, k: int)
    ensures
        all_spawns(g, args, k).len() == tasks_upto(g, k),
    decreases k,
{
    if k > 0 {
        lemma_all_spawns_len(g, args, k - 1);
    }
}

/// The generated body spawns exactly one task per paired process that is
/// not `in` or `out`, and one fork per paired process with more than one
/// channel out.
pub proof fn law_task_count(g: SGraph, args: Seq<SJson>)
    ensures
        ({
            let body = gen_body(g, args);
            let k = paired(g, args);
            let io = crate::stage2::io_names(g.edges, g.nodes);
            body.len() == all_lets(g, io, k).len() + tasks_upto(g, k)
        }),
{
    lemma_all_spawns_len(g, args, paired(g, args));
}

/// A channel is created in the body for no sending end that the function
/// receives as a parameter, except through a fork.
pub proof fn law_parameters_not_recreated(tx: Seq<Seq<char>>, io: Seq<Seq<char>>, i: int)
    requires
        0 <= i < channel_lets(tx, io).len(),
    ensures
        exists|t: Seq<char>, r: Seq<char>, init: SExpr|
            #![trigger slet_pair(t, r, init)]
            channel_lets(tx, io)[i] == slet_pair(t, r, init) && !io.contains(t) && tx.contains(t),
    decreases tx.len(),
{
    let p = channel_lets(tx.drop_last(), io);
    if i < p.len() {
        law_parameters_not_recreated(tx.drop_last(), io, i);
        let (t, r, init) = choose|t: Seq<char>, r: Seq<char>, init: SExpr|
            #![trigger slet_pair(t, r, init)]
            p[i] == slet_pair(t, r, init) && !io.contains(t) && tx.drop_last().contains(t);
        let k = choose|k: int| 0 <= k < tx.drop_last().len() && tx.drop_last()[k] == t;
        assert(tx[k] == t);
        assert(channel_lets(tx, io)[i] == p[i]);
        assert(channel_lets(tx, io)[i] == slet_pair(t, r, init));
    } else {
        let t = tx.last();
        assert(tx[tx.len() - 1] == t);
        let s = channel_lets(tx, io)[i];
        assert(s == slet_pair(t, crate::stage2::swap_end('r', t), crate::abstrast::channel_init()));
    }
}

/// The generated function is generic exactly when it has parameters.
pub proof fn law_generic_iff_parameters(g: SGraph, args: Seq<SJson>)
    ensures
        (gen_function(g, args).ty_params.len() > 0) == (gen_function(g, args).decl.inputs.len() > 0),
        gen_function(g, args).decl.inputs == fn_args(g),
{
}

// ---------------------------------------------------------------------------
// Looking nodes up
// ---------------------------------------------------------------------------
/// The node found for a uid is a node of the graph and has that uid.
pub proof fn law_found_node_has_uid(nodes: Seq<SNode>, u: Seq<char>)
    ensures
        find_node(nodes, u) matches Some(n) ==> n.uid == u && nodes.contains(n),
    decreases nodes.len(),
{
    if nodes.len() > 0 && nodes[0].uid != u {
        law_found_node_has_uid(nodes.drop_first(), u);
        if let Some(n) = find_node(nodes, u) {
            let k = choose|k: int| 0 <= k < nodes.drop_first().len() && nodes.drop_first()[k] == n;
            assert(nodes[k + 1] == n);
        }
    } else if nodes.len() > 0 {
        assert(nodes[0] == nodes[0]);
    }
}

// ---------------------------------------------------------------------------
// Text
// ---------------------------------------------------------------------------
/// The rendering of a generated function begins with `pub fn ` and its name.
pub proof fn law_rendered_item_starts_with_name(g: SGraph, args: Seq<SJson>)
    ensures
        ({
            let text = render_item(gen_function(g, args));
            let head = "pub fn "@ + g.name;
            text.len() >= head.len() && text.take(head.len() as int) == head
        }),
{
    let it = gen_function(g, args);
    let head = "pub fn "@ + g.name;
    let text = render_item(it);
    assert(text.take(head.len() as int) =~= head);
}

/// A number is written with at least one digit.
pub proof fn law_numbers_have_digits(n: nat)
    ensures
        nat_text(n).len() >= 1,
    decreases n,
{
    if n >= 10 {
        law_numbers_have_digits(n / 10);
    }
}

/// A string written into a literal by the printer reads back as the same
/// string.
pub proof fn law_escaped_string_reads_back(s: Seq<char>)
    ensures
        unescape(escape_str(s)) == Some(s),
    decreases s.len(),
{
    if s.len() > 0 {
        let rest = s.skip(1);
        lemma_escape_str_front(s);
        law_escaped_string_reads_back(rest);
        lemma_escaped_char_reads_back(s[0], escape_str(rest));
        assert(seq![s[0]] + rest =~= s);
    }
}

/// `escape_str` taken from the front.
proof fn lemma_escape_str_front(s: Seq<char>)
    requires
        s.len() > 0,
    ensures
        escape_str(s) == escape_char(s[0]) + escape_str(s.skip(1)),
    decreases s.len(),
{
    if s.len() == 1 {
        assert(s.skip(1) =~= Seq::<char>::empty());
        assert(s.drop_last() =~= Seq::<char>::empty());
        assert(escape_str(Seq::<char>::empty()) == Seq::<char>::empty());
        assert(escape_char(s[0]) + Seq::<char>::empty() =~= escape_char(s[0]));
    } else {
        let d = s.drop_last();
        lemma_escape_str_front(d);
        assert(d.skip(1) =~= s.skip(1).drop_last());
        assert(s.skip(1).last() == s.last());
        assert(escape_str(s.skip(1)) == escape_str(d.skip(1)) + escape_char(s.last()));
        assert(escape_str(s) =~= escape_char(s[0]) + escape_str(s.skip(1)));
    }
}

/// One escaped character, followed by anything, reads as that character
/// followed by what the rest reads as.
proof fn lemma_escaped_char_reads_back(c: char, rest: Seq<char>)
    ensures
        unescape(escape_char(c) + rest) == match unescape(rest) {
            Some(t) => Some(seq![c] + t),
            None => None::<Seq<char>>,
        },
{
    let e = escape_char(c) + rest;
    if c == '\t' || c == '\r' || c == '\n' || c == '\\' || c == '\'' || c == '"' {
        assert(e.skip(2) =~= rest);
    } else if ' ' <= c <= '~' {
        assert(e.skip(1) =~= rest);
    } else {
        let h = hex_text(c as nat);
        let n = h.len() as int;
        lemma_hex_text_reads_back(c as nat);
        assert(e =~= seq!['\\', 'u', '{'] + (h + (seq!['}'] + rest)));
        assert(e.skip(3) =~= h + (seq!['}'] + rest));
        lemma_hex_run_of_digits(h, seq!['}'] + rest);
        assert(e.subrange(3, 3 + n) =~= h);
        assert(e[3 + n] == '}');
        assert(e.skip(4 + n) =~= rest);
    }
}

/// The hexadecimal digits of a character code: one to six of them, each a
/// digit, and the number they write is the code.
proof fn lemma_hex_text_reads_back(v: nat)
    requires
        v <= 0x10FFFF,
    ensures
        1 <= hex_text(v).len() <= 6,
        forall|i: int| 0 <= i < hex_text(v).len() ==> #[trigger] hex_val(hex_text(v)[i]) is Some,
        hex_number(hex_text(v)) == v,
{
    lemma_hex_text(v);
    lemma_hex_text_len(v);
}

proof fn lemma_hex_text_len(v: nat)
    ensures
        hex_text(v).len() >= 1,
        v < 0x10 ==> hex_text(v).len() <= 1,
        v < 0x100 ==> hex_text(v).len() <= 2,
        v < 0x1000 ==> hex_text(v).len() <= 3,
        v < 0x10000 ==> hex_text(v).len() <= 4,
        v < 0x100000 ==> hex_text(v).len() <= 5,
        v < 0x1000000 ==> hex_text(v).len() <= 6,
    decreases v,
{
    if v >= 16 {
        lemma_hex_text_len(v / 16);
    }
}

proof fn lemma_hex_digit(d: nat)
    requires
        d < 16,
    ensures
        hex_val(hex_digit_char(d)) == Some(d),
{
    if d < 10 {
        assert(digit_char(d) as nat == '0' as nat + d);
    }
}

proof fn lemma_hex_text(v: nat)
    ensures
        forall|i: int| 0 <= i < hex_text(v).len() ==> #[trigger] hex_val(hex_text(v)[i]) is Some,
        hex_number(hex_text(v)) == v,
    decreases v,
{
    if v < 16 {
        lemma_hex_digit(v);
        let h = hex_text(v);
        assert(h.drop_last() =~= Seq::<char>::empty());
        assert(hex_number(Seq::<char>::empty()) == 0);
        assert(hex_number(h) == hex_number(h.drop_last()) * 16 + v);
    } else {
        lemma_hex_text(v / 16);
        lemma_hex_digit(v % 16);
        let h = hex_text(v);
        assert(h.drop_last() =~= hex_text(v / 16));
        assert(h.last() == hex_digit_char(v % 16));
        assert(hex_number(h) == hex_number(h.drop_last()) * 16 + v % 16);
        assert((v / 16) * 16 + v % 16 == v);
    }
}

/// The run of hexadecimal digits at the start of `h + t` is `h`, where `t`
/// starts with a closing brace.
proof fn lemma_hex_run_of_digits(h: Seq<char>, t: Seq<char>)
    requires
        forall|i: int| 0 <= i < h.len() ==> #[trigger] hex_val(h[i]) is Some,
        t.len() > 0,
        t[0] == '}',
    ensures
        hex_run(h + t) == h.len(),
    decreases h.len(),
{
    if h.len() == 0 {
        assert(h + t =~= t);
    } else {
        assert forall|i: int| 0 <= i < h.len() - 1 implies #[trigger] hex_val(h.drop_first()[i]) is Some by {
            assert(h.drop_first()[i] == h[i + 1]);
        }
        lemma_hex_run_of_digits(h.drop_first(), t);
        assert((h + t).drop_first() =~= h.drop_first() + t);
        assert((h + t)[0] == h[0]);
    }
}

// ---------------------------------------------------------------------------
// What each process is handed
// ---------------------------------------------------------------------------
/// A process (other than `in` and `out`) is run with every channel that
/// enters it: the first argument of its call is the receiving end of its one
/// incoming channel, or, where several channels enter it, a vector of all of
/// their receiving ends, in the order of the edges.
pub proof fn law_every_receiver_is_passed(
    edges: Seq<(Seq<char>, Seq<char>)>,
    n: SNode,
    a: SJson,
)
    requires
        !is_io_name(expand_prim(n.pname)),
    ensures
        ({
            let rx = rxers(edges, n.uid);
            let argv = node_argv(edges, n, a);
            let spawns = node_spawns(edges, n, a);
            &&& spawns.len() >= 1
            &&& spawns.last() == sspawn(expand_prim(n.pname), argv)
            &&& rx.len() >= 1 ==> argv.len() >= 1
            &&& rx.len() == 1 ==> argv[0] == SExpr::Path(spath(rx[0]))
            &&& rx.len() >= 2 ==> (argv[0] matches SExpr::Vec(v) && v.len() == rx.len() && forall|i: int|
                0 <= i < rx.len() ==> #[trigger] v[i] == SExpr::Path(spath(rx[i])))
        }),
{
    let rx = rxers(edges, n.uid);
    let argv = node_argv(edges, n, a);
    if rx.len() >= 1 {
        assert(argv[0] == crate::stage2::rx_args(rx)[0]);
    }
}

// ---------------------------------------------------------------------------
// Literals
// ---------------------------------------------------------------------------
/// A JSON boolean becomes the literal of the same boolean, and a JSON number
/// the literal of the same number: the value is kept.
pub proof fn law_json_scalar_keeps_its_value(j: SJson)
    ensures
        j matches SJson::Bool(b) ==> json_to_ast(j) == Some(SExpr::Lit(SLit::Bool(b))),
        j matches SJson::Int(v) ==> json_to_ast(j) == Some(SExpr::Lit(SLit::Int(v))),
        json_to_ast(SJson::Bool(true)) != json_to_ast(SJson::Bool(false)),
{
}

/// A boolean literal is written `true` exactly when it is true and `false`
/// exactly when it is false.
pub proof fn law_boolean_rendered_by_value(b: bool)
    ensures
        (render_expr(SExpr::Lit(SLit::Bool(b))) == "true"@) == b,
        (render_expr(SExpr::Lit(SLit::Bool(b))) == "false"@) == !b,
{
    reveal_strlit("true");
    reveal_strlit("false");
    assert("true"@ != "false"@) by {
        assert("true"@.len() != "false"@.len());
    }
}

// ---------------------------------------------------------------------------
// Default arguments by the first character
// ---------------------------------------------------------------------------
/// For a name of one to three bytes, the defaults follow from its first
/// character alone: `*` gives `num::one()`, `+` and `Z` give `num::zero()`,
/// both as text and as a tree, whatever follows the first character.
pub proof fn law_defaults_by_first_char(s: Seq<char>)
    requires
        s.len() > 0,
        1 <= byte_len(s) <= 3,
    ensures
        s[0] == '*' ==> default_args(s) == "num::one()"@,
        s[0] == '*' ==> default_tree(s) == Some(scall(SExpr::Path(spath2("num"@, "one"@)), seq![])),
        (s[0] == '+' || s[0] == 'Z') ==> default_args(s) == "num::zero()"@,
        (s[0] == '+' || s[0] == 'Z') ==> default_tree(s) == Some(
            scall(SExpr::Path(spath2("num"@, "zero"@)), seq![]),
        ),
{
}

/// Two names of one to three bytes with the same first character, other than
/// `/` and `,`, have the same defaults.
pub proof fn law_defaults_same_first_char(s: Seq<char>, t: Seq<char>)
    requires
        s.len() > 0,
        t.len() > 0,
        1 <= byte_len(s) <= 3,
        1 <= byte_len(t) <= 3,
        s[0] == t[0],
        s[0] != '/',
        s[0] != ',',
    ensures
        default_args(s) == default_args(t),
        default_tree(s) == default_tree(t),
{
}

// ---------------------------------------------------------------------------
// Looking nodes up, completely
// ---------------------------------------------------------------------------
/// The lookup by uid finds the first node with that uid wherever it stands,
/// and finds nothing only where no node has that uid.
pub proof fn law_lookup_finds_first_with_uid(nodes: Seq<SNode>, u: Seq<char>, i: int)
    requires
        0 <= i < nodes.len(),
        nodes[i].uid == u,
        forall|j: int| 0 <= j < i ==> nodes[j].uid != u,
    ensures
        find_node(nodes, u) == Some(nodes[i]),
    decreases i,
{
    if i > 0 {
        assert forall|j: int| 0 <= j < i - 1 implies nodes.drop_first()[j].uid != u by {
            assert(nodes.drop_first()[j] == nodes[j + 1]);
        }
        law_lookup_finds_first_with_uid(nodes.drop_first(), u, i - 1);
    }
}

/// Where the lookup by uid finds nothing, no node has that uid.
pub proof fn law_lookup_none_only_without_uid(nodes: Seq<SNode>, u: Seq<char>)
    requires
        find_node(nodes, u) is None,
    ensures
        forall|i: int| 0 <= i < nodes.len() ==> #[trigger] nodes[i].uid != u,
    decreases nodes.len(),
{
    if nodes.len() > 0 {
        law_lookup_none_only_without_uid(nodes.drop_first(), u);
        assert forall|i: int| 0 <= i < nodes.len() implies #[trigger] nodes[i].uid != u by {
            if i > 0 {
                assert(nodes[i] == nodes.drop_first()[i - 1]);
            }
        }
    }
}

} // verus!
