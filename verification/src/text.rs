//! Small string operations shared by the generator and the renderer.
use vstd::prelude::*;
use vstd::string::*;

verus! {

/// Appends one character to a string. Trusted: it calls std's
/// `String::push`, which appends the character to the end of the string, so
/// the string's characters afterwards are its characters before followed by
/// `c`.
#[verifier::external_body]
pub(crate) fn push_char(s: &mut String, c: char)
    ensures
        final(s)@ == old(s)@.push(c),
{
    s.push(c);
}

/// Whether two strings hold the same characters.
pub(crate) fn same(a: &String, b: &String) -> (r: bool)
    ensures
        r == (a@ == b@),
{
    *a == *b
}

/// Whether a string holds exactly the characters of `b`.
pub(crate) fn is_str(a: &String, b: &str) -> (r: bool)
    ensures
        r == (a@ == b@),
{
    *a == String::from_str(b)
}

/// A copy of a string.
pub(crate) fn copy_string(s: &String) -> (r: String)
    ensures
        r@ == s@,
{
    s.clone()
}

/// `a` followed by `b` and `c`.
pub(crate) fn concat3(a: &str, b: &String, c: &String) -> (r: String)
    ensures
        r@ == a@ + b@ + c@,
{
    let mut r = String::from_str(a);
    r.append(b.as_str());
    r.append(c.as_str());
    r
}

/// `name` with its first character replaced by `first`.
pub(crate) fn swap_first(first: char, name: &String) -> (r: String)
    requires
        name@.len() >= 1,
    ensures
        r@ == seq![first] + name@.skip(1),
{
    let mut r = String::new();
    push_char(&mut r, first);
    let st = name.as_str();
    let n = st.unicode_len();
    r.append(st.substring_char(1, n));
    assert(r@ =~= seq![first] + name@.skip(1));
    r
}

/// Whether `v` holds a string with the characters of `s`.
pub(crate) fn contains_string(v: &Vec<String>, s: &String) -> (r: bool)
    ensures
        r == v@.map_values(|x: String| x@).contains(s@),
{
    let ghost names = v@.map_values(|x: String| x@);
    let mut i: usize = 0;
    while i < v.len()
        invariant
            i <= v@.len(),
            names == v@.map_values(|x: String| x@),
            forall|j: int| 0 <= j < i ==> names[j] != s@,
        decreases v@.len() - i,
    {
        if same(&v[i], s) {
            assert(names[i as int] == s@);
            return true;
        }
        i = i + 1;
    }
    false
}

} // verus!
