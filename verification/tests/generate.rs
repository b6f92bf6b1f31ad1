use kpn_codegen::abstrast::Json;
use kpn_codegen::render::item_to_string;
use kpn_codegen::stage2::{genFunction, graph_accepted, Graph, Node};

fn node(pname: &str, uid: &str) -> Node {
    Node { pname: pname.to_string(), uid: uid.to_string(), label: uid.to_uppercase() }
}

fn graph(name: &str, nodes: Vec<Node>, edges: &[(&str, &str)], args: Option<Vec<&str>>) -> Graph {
    Graph {
        edges: edges.iter().map(|(a, b)| (a.to_string(), b.to_string())).collect(),
        nodes,
        name: name.to_string(),
        args: args.map(|v| v.iter().map(|s| s.to_string()).collect()),
        inrx: false,
        outtx: false,
    }
}

fn generate(g: Graph, args: Vec<Json>) -> String {
    assert!(graph_accepted(&g, &args));
    item_to_string(&genFunction(g, args))
}

#[test]
fn generate_pipeline_with_io() {
    let g = graph(
        "net",
        vec![node("in", "a"), node("*", "b"), node("out", "c")],
        &[("a", "b"), ("b", "c")],
        None,
    );
    let args = vec![Json::Null, Json::List(vec![]), Json::Null];
    assert_eq!(
        generate(g, args),
        "pub fn net<T: core::num::Float + core::kinds::Send>(rxab: Receiver<T>, txbc: Sender<T>) {\n\
         task::TaskBuilder::named(\"mul\").spawn(proc() {\n{\nmul(rxab, txbc, num::one())\n}\n});\n\
         }\n"
    );
}

#[test]
fn generate_fan_out_with_fork() {
    let g = graph(
        "fan",
        vec![node("~", "srcnode1234"), node("Z", "b"), node("+", "c")],
        &[("srcnode1234", "b"), ("srcnode1234", "c")],
        Some(vec!["gain"]),
    );
    let args = vec![Json::List(vec![Json::Int(5)]), Json::Null, Json::Str("x".to_string())];
    let spawn = |name: &str, call: &str| {
        format!("task::TaskBuilder::named(\"{}\").spawn(proc() {{\n{{\n{}\n}}\n}});\n", name, call)
    };
    let expected = format!(
        "pub fn fan<T: core::num::Float + core::kinds::Send>(gain: T) {{\n\
         let (txsrcnode12340, rxsrcnode12340) = channel();\n\
         let (txsrcnode1234b, rxsrcnode1234b) = channel();\n\
         let (txsrcnode1234c, rxsrcnode1234c) = channel();\n\
         {}{}{}{}}}\n",
        spawn("fork", "fork(rxsrcnode12340, [txsrcnode1234b, txsrcnode1234c])"),
        spawn("softSource", "softSource(txsrcnode12340, 5)"),
        spawn("delay", "delay(rxsrcnode1234b)"),
        spawn("sum", "sum(rxsrcnode1234c, x)"),
    );
    assert_eq!(generate(g, args), expected);
}

#[test]
fn generate_pairs_nodes_with_arguments() {
    // the second node has no argument, so it is not spawned
    let g = graph("solo", vec![node("*", "a"), node("+", "b")], &[], None);
    let out = generate(g, vec![Json::Null]);
    assert_eq!(
        out,
        "pub fn solo() {\ntask::TaskBuilder::named(\"mul\").spawn(proc() {\n{\nmul()\n}\n});\n}\n"
    );
}

#[test]
fn generate_fork_name_cut_at_a_character_boundary() {
    let uid = "aéééééé";
    let g = graph(
        "wide",
        vec![node("V", uid), node("B", "b"), node("B", "c")],
        &[(uid, "b"), (uid, "c")],
        None,
    );
    let out = generate(g, vec![Json::Null, Json::Null, Json::Null]);
    assert!(out.contains("let (txaééééé0, rxaééééé0) = channel();\n"));
    assert!(out.contains("vec(txaééééé0)"));
}

#[test]
fn generate_rejects_what_the_generator_cannot_handle() {
    // an empty process name
    let g = graph("g", vec![node("", "a")], &[], None);
    assert!(!graph_accepted(&g, &vec![Json::Null]));
    // a modifier with nothing after it
    let g = graph("g", vec![node("?", "a")], &[], None);
    assert!(!graph_accepted(&g, &vec![Json::Null]));
    // an `in` process without a channel out
    let g = graph("g", vec![node("in", "a")], &[], None);
    assert!(!graph_accepted(&g, &vec![Json::Null]));
    // an `out` process without a channel in
    let g = graph("g", vec![node("out", "a")], &[("a", "b")], None);
    assert!(!graph_accepted(&g, &vec![Json::Null]));
    // a number as a node argument
    let g = graph("g", vec![node("*", "a")], &[], None);
    assert!(!graph_accepted(&g, &vec![Json::Int(1)]));
    // a boxed vector as a node argument
    let g = graph("g", vec![node("*", "a")], &[], None);
    assert!(!graph_accepted(&g, &vec![Json::List(vec![Json::List(vec![])])]));
    // a fork name shorter than 13 bytes
    let g = graph("g", vec![node("*", "a")], &[("a", "b"), ("a", "c")], None);
    assert!(!graph_accepted(&g, &vec![Json::Null]));
    // a fork name cut inside a character
    let uid = "éééééé";
    let g = graph("g", vec![node("*", uid)], &[(uid, "b"), (uid, "c")], None);
    assert!(!graph_accepted(&g, &vec![Json::Null]));
    // a process name that cannot stand in a string literal
    let g = graph("g", vec![node("a\"b", "a")], &[], None);
    assert!(!graph_accepted(&g, &vec![Json::Null]));
    let g = graph("g", vec![node("a\\qb", "a")], &[], None);
    assert!(!graph_accepted(&g, &vec![Json::Null]));
    // a valid escape is accepted
    let g = graph("g", vec![node("a\\tb", "a")], &[], None);
    assert!(graph_accepted(&g, &vec![Json::Null]));
    // nodes after the last argument are only checked for their names
    let g = graph("g", vec![node("*", "a"), node("a\"b", "b")], &[], None);
    assert!(graph_accepted(&g, &vec![Json::Null]));
}

#[test]
fn edge_ends_are_found_by_uid() {
    let g = graph(
        "g",
        vec![node("*", "a"), node("+", "b"), node("Z", "b")],
        &[("a", "b")],
        None,
    );
    let e = ("a".to_string(), "b".to_string());
    assert_eq!(g.source(&e), node("*", "a"));
    // the first node with the uid
    assert_eq!(g.target(&e), node("+", "b"));
    assert_eq!(g.node_with_uid(&"z".to_string()), None);
}
