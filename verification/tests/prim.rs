use kpn_codegen::stage2::{expandPrim, getDefaultArgs};

fn ex(s: &str) -> String {
    expandPrim(s.to_string())
}

fn defaults(s: &str) -> String {
    getDefaultArgs(s.to_string())
}

#[test]
fn expand_primitives() {
    assert_eq!(ex("*"), "mul");
    assert_eq!(ex("+"), "sum");
    assert_eq!(ex("Z"), "delay");
    assert_eq!(ex("%"), "grapes");
    assert_eq!(ex("B"), "binconv");
    assert_eq!(ex("V"), "vec");
    assert_eq!(ex("$"), "shaper");
    assert_eq!(ex("~"), "softSource");
    assert_eq!(ex("{"), "looper");
    assert_eq!(ex("&"), "crossApplicator");
    assert_eq!(ex("!"), "applicator");
}

#[test]
fn expand_ignores_what_follows_a_primitive() {
    assert_eq!(ex("*foo"), "mul");
}

#[test]
fn expand_modifiers() {
    assert_eq!(ex("?*"), "mulOptional");
    assert_eq!(ex("/,+"), "sumVecsAcross");
    assert_eq!(ex(",Z"), "delayVecs");
    assert_eq!(ex("?myproc"), "myprocOptional");
}

#[test]
fn expand_plain_names() {
    assert_eq!(ex("in"), "in");
    assert_eq!(ex("out"), "out");
    assert_eq!(ex("fork"), "fork");
}

#[test]
fn default_args_of_primitives() {
    assert_eq!(defaults("*"), "num::one()");
    assert_eq!(defaults("+"), "num::zero()");
    assert_eq!(defaults("Z"), "num::zero()");
    assert_eq!(defaults("/*"), "num::one()");
    assert_eq!(defaults(",*"), "range(0,512).map(|_| num::one()).collect()");
    assert_eq!(
        defaults(",,+"),
        "range(0,512).map(|_| range(0,512).map(|_| num::zero()).collect()).collect()"
    );
}

#[test]
fn default_args_none() {
    assert_eq!(defaults("mul"), "");
    assert_eq!(defaults(",x"), "");
    assert_eq!(defaults("%"), "");
    // longer than three bytes
    assert_eq!(defaults("*abc"), "");
    assert_eq!(defaults(",,,*"), "");
}
