//! The text between the quotes of a string literal and the string it
//! stands for.
//!
//! The rules are those of the lexer of `syntex_syntax` 0.59, the Rust parser
//! that the tests check generated code against. Older Rust lexers, from the
//! time of `proc` closures, read escapes otherwise: they took `\uHHHH` and
//! `\UHHHHHHHH` with exactly four and eight digits, and `\xHH` up to `\xFF`,
//! and had no `\u{..}`. A name written with those older escapes is refused
//! here, and one written with `\u{..}` is accepted.
use crate::text::push_char;
use vstd::prelude::*;
use vstd::string::*;

verus! {

broadcast use vstd::seq::group_seq_axioms;

pub open spec fn hex_val(c: char) -> Option<nat> {
    if '0' <= c <= '9' {
        Some((c as nat - '0' as nat) as nat)
    } else if 'a' <= c <= 'f' {
        Some((c as nat - 'a' as nat + 10) as nat)
    } else if 'A' <= c <= 'F' {
        Some((c as nat - 'A' as nat + 10) as nat)
    } else {
        None
    }
}

/// The character that a one-letter escape `\e` stands for.
pub open spec fn simple_escape(e: char) -> Option<char> {
    if e == 'n' {
        Some('\n')
    } else if e == 'r' {
        Some('\r')
    } else if e == 't' {
        Some('\t')
    } else if e == '\\' {
        Some('\\')
    } else if e == '\'' {
        Some('\'')
    } else if e == '"' {
        Some('"')
    } else if e == '0' {
        Some('\0')
    } else {
        None
    }
}

pub open spec fn is_ws(c: char) -> bool {
    c == ' ' || c == '\t' || c == '\n' || c == '\r'
}

/// The other characters that the lexer skips after a line continuation,
/// but that are kept in the string's value.
pub open spec fn other_pattern_ws(c: char) -> bool {
    c == '\x0B' || c == '\x0C' || c == '\u{85}' || c == '\u{200E}' || c == '\u{200F}' || c
        == '\u{2028}' || c == '\u{2029}'
}

/// The number of leading blanks (space, tab, line feed, carriage return).
pub open spec fn ws_run(s: Seq<char>) -> nat
    decreases s.len(),
{
    if s.len() > 0 && is_ws(s[0]) {
        1 + ws_run(s.drop_first())
    } else {
        0
    }
}

/// The number of leading hexadecimal digits.
pub open spec fn hex_run(s: Seq<char>) -> nat
    decreases s.len(),
{
    if s.len() > 0 && hex_val(s[0]) is Some {
        1 + hex_run(s.drop_first())
    } else {
        0
    }
}

/// The number that a run of hexadecimal digits writes.
pub open spec fn hex_number(s: Seq<char>) -> nat
    decreases s.len(),
{
    if s.len() == 0 {
        0
    } else {
        hex_number(s.drop_last()) * 16 + match hex_val(s.last()) {
            Some(v) => v,
            None => 0,
        }
    }
}

pub open spec fn is_scalar(v: nat) -> bool {
    v <= 0x10FFFF && !(0xD800 <= v <= 0xDFFF)
}

pub proof fn lemma_ws_run_bound(s: Seq<char>)
    ensures
        ws_run(s) <= s.len(),
    decreases s.len(),
{
    if s.len() > 0 && is_ws(s[0]) {
        lemma_ws_run_bound(s.drop_first());
    }
}

pub proof fn lemma_hex_run_bound(s: Seq<char>)
    ensures
        hex_run(s) <= s.len(),
    decreases s.len(),
{
    if s.len() > 0 && hex_val(s[0]) is Some {
        lemma_hex_run_bound(s.drop_first());
    }
}

pub open spec fn prepend(c: char, rest: Option<Seq<char>>) -> Option<Seq<char>> {
    match rest {
        Some(t) => Some(seq![c] + t),
        None => None,
    }
}

/// The string that the text `s` stands for when it is written between the
/// quotes of a string literal, or `None` where the lexer rejects it (or where
/// the literal would not end at the closing quote that follows `s`).
/// Escapes: `\n \r \t \\ \' \" \0`, `\xHH` below 0x80, `\u{H..}` with one to
/// six digits naming a character, and a backslash at the end of a line, which
/// drops the line break and the blanks after it. A carriage return stands only
/// before a line feed, and the pair stands for a line feed.
pub open spec fn unescape(s: Seq<char>) -> Option<Seq<char>>
    decreases s.len(),
{
    if s.len() == 0 {
        Some(seq![])
    } else if s[0] == '"' {
        None
    } else if s[0] == '\r' {
        if s.len() >= 2 && s[1] == '\n' {
            prepend('\n', unescape(s.skip(2)))
        } else {
            None
        }
    } else if s[0] != '\\' {
        prepend(s[0], unescape(s.skip(1)))
    } else if s.len() < 2 {
        None
    } else if simple_escape(s[1]) is Some {
        prepend(simple_escape(s[1])->0, unescape(s.skip(2)))
    } else if s[1] == 'x' {
        if s.len() >= 4 && hex_val(s[2]) is Some && hex_val(s[3]) is Some && hex_val(s[2])->0 < 8 {
            prepend(
                (hex_val(s[2])->0 * 16 + hex_val(s[3])->0) as char,
                unescape(s.skip(4)),
            )
        } else {
            None
        }
    } else if s[1] == 'u' {
        if s.len() >= 3 && s[2] == '{' {
            let n = hex_run(s.skip(3)) as int;
            proof {
                lemma_hex_run_bound(s.skip(3));
            }
            if 1 <= n <= 6 && s.len() > 3 + n && s[3 + n] == '}' && is_scalar(
                hex_number(s.subrange(3, 3 + n)),
            ) {
                prepend(hex_number(s.subrange(3, 3 + n)) as char, unescape(s.skip(4 + n)))
            } else {
                None
            }
        } else {
            None
        }
    } else if s[1] == '\n' || (s[1] == '\r' && s.len() >= 3 && s[2] == '\n') {
        let t = s.skip(2);
        proof {
            lemma_ws_run_bound(t);
        }
        let r = t.skip(ws_run(t) as int);
        if r.len() > 0 && other_pattern_ws(r[0]) {
            None
        } else {
            unescape(r)
        }
    } else {
        None
    }
}

/// The character with the code `v`, if there is one. Trusted: it calls
/// std's `char::from_u32`, which gives `None` exactly for numbers above
/// 0x10FFFF and for the surrogate codes 0xD800 to 0xDFFF, and otherwise the
/// character with that code.
#[verifier::external_body]
fn char_from_u32(v: u32) -> (r: Option<char>)
    ensures
        r == (if is_scalar(v as nat) {
            Some(v as char)
        } else {
            None::<char>
        }),
{
    char::from_u32(v)
}

fn hex_digit(c: char) -> (r: Option<u32>)
    ensures
        match hex_val(c) {
            Some(v) => r == Some(v as u32),
            None => r is None,
        },
{
    if '0' <= c && c <= '9' {
        Some((c as u32) - ('0' as u32))
    } else if 'a' <= c && c <= 'f' {
        Some((c as u32) - ('a' as u32) + 10)
    } else if 'A' <= c && c <= 'F' {
        Some((c as u32) - ('A' as u32) + 10)
    } else {
        None
    }
}

pub open spec fn prepend_all(p: Seq<char>, rest: Option<Seq<char>>) -> Option<Seq<char>> {
    match rest {
        Some(t) => Some(p + t),
        None => None,
    }
}

proof fn lemma_prepend_step(p: Seq<char>, c: char, rest: Option<Seq<char>>)
    ensures
        prepend_all(p, prepend(c, rest)) == prepend_all(p.push(c), rest),
{
    if let Some(t) = rest {
        assert(p + (seq![c] + t) =~= p.push(c) + t);
    }
}

/// `16` to the power `k`.
pub open spec fn pow16(k: nat) -> nat
    decreases k,
{
    if k == 0 {
        1
    } else {
        16 * pow16((k - 1) as nat)
    }
}

/// The code and the number of the hexadecimal digits (at most 7) at the
/// start of `s` from position `from`.
fn read_hex(s: &str, from: usize) -> (r: (u32, usize))
    requires
        from <= s@.len(),
    ensures
        r.1 <= 7,
        r.1 <= hex_run(s@.skip(from as int)),
        r.1 < 7 ==> r.1 == hex_run(s@.skip(from as int)),
        r.1 <= 6 ==> r.0 as nat == hex_number(s@.skip(from as int).take(r.1 as int)),
{
    let n = s.unicode_len();
    let ghost u = s@.skip(from as int);
    let mut k: usize = 0;
    let mut code: u32 = 0;
    while k < 7 && n - from > k
        invariant
            k <= 7,
            from <= n,
            n == s@.len(),
            u == s@.skip(from as int),
            k <= u.len(),
            forall|j: int| 0 <= j < k ==> #[trigger] hex_val(u[j]) is Some,
            code as nat == hex_number(u.take(k as int)),
            code < pow16(k as nat),
            k <= 6 ==> pow16(k as nat) <= 0x1000000,
        decreases 7 - k,
    {
        let ch = s.get_char(from + k);
        assert(u[k as int] == ch);
        match hex_digit(ch) {
            Some(d) => {
                proof {
                    reveal_with_fuel(pow16, 8);
                    assert(u.take(k + 1).drop_last() =~= u.take(k as int));
                    assert(u.take(k + 1).last() == ch);
                }
                code = code * 16 + d;
                k = k + 1;
                proof {
                    reveal_with_fuel(pow16, 8);
                }
            },
            None => {
                proof {
                    lemma_hex_run_prefix(u, k as nat);
                }
                return (code, k);
            },
        }
    }
    proof {
        lemma_hex_run_prefix(u, k as nat);
    }
    (code, k)
}

/// How the literal text from position `i` on begins: the character its first
/// item stands for (none for a line continuation) and where the next item
/// starts; `None` where the text is rejected there.
pub open spec fn step_result(s: Seq<char>, i: int, r: Option<(Option<char>, usize)>) -> bool {
    match r {
        Some((Some(c), j)) => i < j <= s.len() && unescape(s.skip(i)) == prepend(
            c,
            unescape(s.skip(j as int)),
        ),
        Some((None, j)) => i < j <= s.len() && unescape(s.skip(i)) == unescape(s.skip(j as int)),
        None => unescape(s.skip(i)) is None,
    }
}

#[verifier::rlimit(40)]
fn step(s: &str, i: usize, n: usize) -> (r: Option<(Option<char>, usize)>)
    requires
        i < n,
        n == s@.len(),
    ensures
        step_result(s@, i as int, r),
{
    let ghost t = s@.skip(i as int);
    let c = s.get_char(i);
    assert(t[0] == c);
    if c == '"' {
        return None;
    } else if c == '\r' {
        if n - i >= 2 && s.get_char(i + 1) == '\n' {
            proof {
                assert(t[1] == '\n');
                assert(t.skip(2) =~= s@.skip(i + 2));
            }
            return Some((Some('\n'), i + 2));
        } else {
            return None;
        }
    } else if c != '\\' {
        proof {
            assert(t.skip(1) =~= s@.skip(i + 1));
        }
        return Some((Some(c), i + 1));
    } else if n - i < 2 {
        return None;
    }
    let e = s.get_char(i + 1);
    assert(t[1] == e);
    if e == 'n' || e == 'r' || e == 't' || e == '\\' || e == '\'' || e == '"' || e == '0' {
        let v = if e == 'n' {
            '\n'
        } else if e == 'r' {
            '\r'
        } else if e == 't' {
            '\t'
        } else if e == '0' {
            '\0'
        } else {
            e
        };
        proof {
            assert(t.skip(2) =~= s@.skip(i + 2));
        }
        Some((Some(v), i + 2))
    } else if e == 'x' {
        if n - i < 4 {
            return None;
        }
        let h1 = hex_digit(s.get_char(i + 2));
        let h2 = hex_digit(s.get_char(i + 3));
        assert(t[2] == s@[i + 2] && t[3] == s@[i + 3]);
        match (h1, h2) {
            (Some(a), Some(b)) => {
                if a >= 8 {
                    return None;
                }
                let code = a * 16 + b;
                match char_from_u32(code) {
                    Some(ch) => {
                        proof {
                            assert(t.skip(4) =~= s@.skip(i + 4));
                        }
                        Some((Some(ch), i + 4))
                    },
                    None => None,
                }
            },
            _ => None,
        }
    } else if e == 'u' {
        if n - i < 3 || s.get_char(i + 2) != '{' {
            return None;
        }
        assert(t[2] == '{');
        let (code, k) = read_hex(s, i + 3);
        proof {
            assert(t.skip(3) =~= s@.skip(i + 3));
        }
        if k == 0 || k > 6 || n - i <= 3 + k {
            return None;
        }
        if s.get_char(i + 3 + k) != '}' {
            return None;
        }
        assert(t[3 + k as int] == '}');
        proof {
            assert(t.subrange(3, 3 + k as int) =~= s@.skip(i + 3).take(k as int));
        }
        match char_from_u32(code) {
            Some(ch) => {
                proof {
                    assert(t.skip(4 + k as int) =~= s@.skip(i + 4 + k));
                }
                Some((Some(ch), i + 4 + k))
            },
            None => None,
        }
    } else {
        continuation(s, i, n, e)
    }
}

fn continuation(s: &str, i: usize, n: usize, e: char) -> (r: Option<(Option<char>, usize)>)
    requires
        i + 1 < n,
        n == s@.len(),
        s@[i as int] == '\\',
        s@[i + 1] == e,
        simple_escape(e) is None,
        e != 'x',
        e != 'u',
    ensures
        step_result(s@, i as int, r),
{
    let ghost t = s@.skip(i as int);
    assert(t[0] == '\\' && t[1] == e);
    if !(e == '\n' || (e == '\r' && n - i >= 3 && s.get_char(i + 2) == '\n')) {
        proof {
            if e == '\r' && n - i >= 3 {
                assert(t[2] == s@[i + 2]);
            }
        }
        return None;
    }
    proof {
        if e == '\r' {
            assert(t[2] == '\n');
        }
        assert(t.skip(2) =~= s@.skip(i + 2));
    }
    let ghost w = s@.skip(i + 2);
    let mut j: usize = i + 2;
    while j < n && (s.get_char(j) == ' ' || s.get_char(j) == '\t' || s.get_char(j) == '\n'
        || s.get_char(j) == '\r')
        invariant
            i + 2 <= j <= n,
            n == s@.len(),
            w == s@.skip(i + 2),
            ws_run(w) == (j - (i + 2)) + ws_run(s@.skip(j as int)),
        decreases n - j,
    {
        proof {
            assert(s@.skip(j as int)[0] == s@[j as int]);
            assert(s@.skip(j as int).drop_first() =~= s@.skip(j + 1));
        }
        j = j + 1;
    }
    proof {
        if j < n {
            assert(s@.skip(j as int)[0] == s@[j as int]);
        }
        assert(ws_run(s@.skip(j as int)) == 0);
        lemma_ws_run_bound(w);
        assert(w.skip(ws_run(w) as int) =~= s@.skip(j as int));
    }
    if j < n {
        let f = s.get_char(j);
        assert(s@.skip(j as int)[0] == f);
        if f == '\x0B' || f == '\x0C' || f == '\u{85}' || f == '\u{200E}' || f == '\u{200F}' || f
            == '\u{2028}' || f == '\u{2029}' {
            return None;
        }
    }
    Some((None, j))
}

/// The string that `s` stands for between the quotes of a string literal,
/// or `None` where such a literal is rejected.
pub fn literal_value(s: &str) -> (r: Option<String>)
    ensures
        match r {
            Some(v) => unescape(s@) == Some(v@),
            None => unescape(s@) is None,
        },
{
    let n = s.unicode_len();
    let mut out = String::new();
    let mut i: usize = 0;
    assert(s@.skip(0) =~= s@);
    proof {
        if let Some(t) = unescape(s@) {
            assert(out@ + t =~= t);
        }
    }
    while i < n
        invariant
            i <= n,
            n == s@.len(),
            unescape(s@) == prepend_all(out@, unescape(s@.skip(i as int))),
        decreases n - i,
    {
        let ghost before = out@;
        match step(s, i, n) {
            Some((Some(c), j)) => {
                push_char(&mut out, c);
                proof {
                    lemma_prepend_step(before, c, unescape(s@.skip(j as int)));
                }
                i = j;
            },
            Some((None, j)) => {
                i = j;
            },
            None => {
                return None;
            },
        }
    }
    proof {
        assert(s@.skip(n as int) =~= Seq::<char>::empty());
        assert(out@ + Seq::<char>::empty() =~= out@);
    }
    Some(out)
}

/// A text with no quote, carriage return or backslash in it stands for
/// itself between the quotes of a string literal.
pub proof fn lemma_plain_text_unescapes_to_itself(s: Seq<char>)
    requires
        forall|i: int| 0 <= i < s.len() ==> #[trigger] s[i] != '"' && s[i] != '\r' && s[i] != '\\',
    ensures
        unescape(s) == Some(s),
    decreases s.len(),
{
    if s.len() > 0 {
        let t = s.skip(1);
        assert forall|i: int| 0 <= i < t.len() implies #[trigger] t[i] != '"' && t[i] != '\r'
            && t[i] != '\\' by {
            assert(t[i] == s[i + 1]);
        }
        lemma_plain_text_unescapes_to_itself(t);
        assert(s[0] != '"' && s[0] != '\r' && s[0] != '\\');
        assert(seq![s[0]] + t =~= s);
    }
}

/// The digits read before the first non-digit are the run of digits.
proof fn lemma_hex_run_prefix(u: Seq<char>, k: nat)
    requires
        k <= u.len(),
        forall|j: int| 0 <= j < k ==> #[trigger] hex_val(u[j]) is Some,
    ensures
        k < u.len() && hex_val(u[k as int]) is None ==> hex_run(u) == k,
        k == u.len() ==> hex_run(u) == k,
        hex_run(u) >= k,
    decreases k,
{
    if k > 0 {
        assert forall|j: int| 0 <= j < k - 1 implies #[trigger] hex_val(u.drop_first()[j]) is Some by {
            assert(u.drop_first()[j] == u[j + 1]);
        }
        lemma_hex_run_prefix(u.drop_first(), (k - 1) as nat);
    } else {
        if k < u.len() && hex_val(u[k as int]) is None {
        }
    }
}

} // verus!
