//! The JSON grammar and the parser proved against it.
//!
//! The grammar is written as a specification-level recursive-descent
//! parser over a sequence of characters: each `sp_` function consumes a
//! prefix of its input and hands back the parsed piece together with the
//! unconsumed remainder, or `None` where the text does not match.  A few
//! branches compare lengths before recursing; they keep the recursion
//! well-founded and are never reached, as the executable parser's
//! postconditions show.

use vstd::prelude::*;

use crate::json::value::{
    json_view, lemma_json_view_arr, lemma_json_view_obj, member_views_of, views_of, Json, JsonV,
};
use crate::text::{char_from_u32, is_scalar};
use crate::wire::{digit_value, is_digit, spec_digit_value};

verus! {

broadcast use
    vstd::seq::group_seq_axioms,
    vstd::std_specs::vec::group_vec_axioms,
    lemma_json_view_arr,
    lemma_json_view_obj,
;

/// JSON insignificant whitespace.
pub open spec fn is_ws(c: char) -> bool {
    c == ' ' || c == '\n' || c == '\r' || c == '\t'
}

/// The input with its leading whitespace removed.
pub open spec fn sp_ws(s: Seq<char>) -> Seq<char>
    decreases s.len(),
{
    if s.len() > 0 && is_ws(s[0]) {
        sp_ws(s.drop_first())
    } else {
        s
    }
}

/// A hexadecimal digit.
pub open spec fn is_hex(c: char) -> bool {
    is_digit(c) || ('a' as u32 <= c as u32 && c as u32 <= 'f' as u32) || ('A' as u32 <= c as u32
        && c as u32 <= 'F' as u32)
}

/// The numeric value of a hexadecimal digit.
pub open spec fn spec_hex_value(c: char) -> int
    recommends
        is_hex(c),
{
    if is_digit(c) {
        spec_digit_value(c)
    } else if 'a' as u32 <= c as u32 && c as u32 <= 'f' as u32 {
        c as u32 - 'a' as u32 + 10
    } else {
        c as u32 - 'A' as u32 + 10
    }
}

/// Four hexadecimal digits and their value.
pub open spec fn sp_hex4(s: Seq<char>) -> Option<(u32, Seq<char>)> {
    if s.len() >= 4 && is_hex(s[0]) && is_hex(s[1]) && is_hex(s[2]) && is_hex(s[3]) {
        Some(
            (
                ((spec_hex_value(s[0]) * 0x1000 + spec_hex_value(s[1]) * 0x100 + spec_hex_value(
                    s[2],
                ) * 0x10 + spec_hex_value(s[3])) as u32),
                s.skip(4),
            ),
        )
    } else {
        None
    }
}

/// A `\u` escape: four hex digits, or a surrogate pair of two such
/// escapes, naming a Unicode scalar value.
pub open spec fn sp_unicode_escape(s: Seq<char>) -> Option<(char, Seq<char>)> {
    match sp_hex4(s) {
        None => None,
        Some((h, r)) => {
            if h < 0xD800 || h >= 0xE000 {
                Some((h as char, r))
            } else if h < 0xDC00 {
                if r.len() >= 2 && r[0] == '\\' && r[1] == 'u' {
                    match sp_hex4(r.skip(2)) {
                        None => None,
                        Some((l, r2)) => {
                            if 0xDC00 <= l && l < 0xE000 {
                                Some(
                                    (
                                        (((0x10000 + (h - 0xD800) * 0x400 + (l
                                            - 0xDC00)) as u32) as char),
                                        r2,
                                    ),
                                )
                            } else {
                                None
                            }
                        },
                    }
                } else {
                    None
                }
            } else {
                None
            }
        },
    }
}

/// One escape sequence, after the backslash.
pub open spec fn sp_escape(s: Seq<char>) -> Option<(char, Seq<char>)> {
    if s.len() == 0 {
        None
    } else {
        let c = s[0];
        let r = s.drop_first();
        if c == '"' {
            Some(('"', r))
        } else if c == '\\' {
            Some(('\\', r))
        } else if c == '/' {
            Some(('/', r))
        } else if c == 'b' {
            Some(('\u{0008}', r))
        } else if c == 'f' {
            Some(('\u{000C}', r))
        } else if c == 'n' {
            Some(('\n', r))
        } else if c == 'r' {
            Some(('\r', r))
        } else if c == 't' {
            Some(('\t', r))
        } else if c == 'u' {
            sp_unicode_escape(r)
        } else {
            None
        }
    }
}

/// A string body, after the opening quote: the decoded content and the
/// remainder after the closing quote.  Unescaped control characters are
/// rejected.
pub open spec fn sp_string_body(s: Seq<char>) -> Option<(Seq<char>, Seq<char>)>
    decreases s.len(),
{
    if s.len() == 0 {
        None
    } else if s[0] == '"' {
        Some((Seq::empty(), s.drop_first()))
    } else if s[0] == '\\' {
        match sp_escape(s.drop_first()) {
            None => None,
            Some((c, r)) => {
                if r.len() < s.len() {
                    match sp_string_body(r) {
                        None => None,
                        Some((cs, r2)) => Some((seq![c] + cs, r2)),
                    }
                } else {
                    None
                }
            },
        }
    } else if (s[0] as u32) < 0x20 {
        None
    } else {
        match sp_string_body(s.drop_first()) {
            None => None,
            Some((cs, r)) => Some((seq![s[0]] + cs, r)),
        }
    }
}

/// How many decimal digits the input starts with.
pub open spec fn scan_digits(s: Seq<char>) -> int
    decreases s.len(),
{
    if s.len() > 0 && is_digit(s[0]) {
        1 + scan_digits(s.drop_first())
    } else {
        0
    }
}

/// How many digits a scan can find: at most the whole input, and at
/// least one where the input starts with a digit.
pub proof fn lemma_scan_digits_bounds(s: Seq<char>)
    ensures
        0 <= scan_digits(s) <= s.len(),
        s.len() > 0 && is_digit(s[0]) ==> scan_digits(s) >= 1,
    decreases s.len(),
{
    if s.len() > 0 && is_digit(s[0]) {
        lemma_scan_digits_bounds(s.drop_first());
    }
}

/// The end of a number's integer part (optional minus sign, then `0` or
/// a nonzero-led digit run), or -1 where there is none.
pub open spec fn sp_int_end(s: Seq<char>) -> int {
    let b: int = if s.len() > 0 && s[0] == '-' {
        1
    } else {
        0
    };
    if s.len() > b && s[b] == '0' {
        b + 1
    } else if s.len() > b && is_digit(s[b]) {
        b + scan_digits(s.skip(b))
    } else {
        -1
    }
}

/// The end of the number after an optional fraction part, or -1.
pub open spec fn sp_frac_end(s: Seq<char>, k: int) -> int {
    if k < s.len() && s[k] == '.' {
        let d = scan_digits(s.skip(k + 1));
        if d > 0 {
            k + 1 + d
        } else {
            -1
        }
    } else {
        k
    }
}

/// The end of the number after an optional exponent part, or -1.
pub open spec fn sp_exp_end(s: Seq<char>, k: int) -> int {
    if k < s.len() && (s[k] == 'e' || s[k] == 'E') {
        let b: int = if k + 1 < s.len() && (s[k + 1] == '+' || s[k + 1] == '-') {
            k + 2
        } else {
            k + 1
        };
        let d = scan_digits(s.skip(b));
        if d > 0 {
            b + d
        } else {
            -1
        }
    } else {
        k
    }
}

/// A number: its lexeme and the remainder.
pub open spec fn sp_number(s: Seq<char>) -> Option<(Seq<char>, Seq<char>)> {
    let k1 = sp_int_end(s);
    if k1 < 0 {
        None
    } else {
        let k2 = sp_frac_end(s, k1);
        if k2 < 0 {
            None
        } else {
            let k3 = sp_exp_end(s, k2);
            if k3 < 0 {
                None
            } else {
                Some((s.take(k3), s.skip(k3)))
            }
        }
    }
}

/// A JSON value, leading whitespace allowed.
pub open spec fn sp_value(s: Seq<char>) -> Option<(JsonV, Seq<char>)>
    decreases s.len(), 0int,
{
    let t = sp_ws(s);
    if t.len() > s.len() || t.len() == 0 {
        None
    } else {
        let c = t[0];
        if c == 'n' {
            if t.len() >= 4 && t[1] == 'u' && t[2] == 'l' && t[3] == 'l' {
                Some((JsonV::Null, t.skip(4)))
            } else {
                None
            }
        } else if c == 't' {
            if t.len() >= 4 && t[1] == 'r' && t[2] == 'u' && t[3] == 'e' {
                Some((JsonV::Bool(true), t.skip(4)))
            } else {
                None
            }
        } else if c == 'f' {
            if t.len() >= 5 && t[1] == 'a' && t[2] == 'l' && t[3] == 's' && t[4] == 'e' {
                Some((JsonV::Bool(false), t.skip(5)))
            } else {
                None
            }
        } else if c == '"' {
            match sp_string_body(t.drop_first()) {
                None => None,
                Some((cs, r)) => Some((JsonV::Str(cs), r)),
            }
        } else if c == '[' {
            let u = sp_ws(t.drop_first());
            if u.len() >= t.len() {
                None
            } else if u.len() > 0 && u[0] == ']' {
                Some((JsonV::Arr(Seq::empty()), u.drop_first()))
            } else {
                match sp_elements(u) {
                    None => None,
                    Some((es, r)) => Some((JsonV::Arr(es), r)),
                }
            }
        } else if c == '{' {
            let u = sp_ws(t.drop_first());
            if u.len() >= t.len() {
                None
            } else if u.len() > 0 && u[0] == '}' {
                Some((JsonV::Obj(Seq::empty()), u.drop_first()))
            } else {
                match sp_members(u) {
                    None => None,
                    Some((ms, r)) => Some((JsonV::Obj(ms), r)),
                }
            }
        } else if c == '-' || is_digit(c) {
            match sp_number(t) {
                None => None,
                Some((lex, r)) => Some((JsonV::Num(lex), r)),
            }
        } else {
            None
        }
    }
}

/// One or more array elements, comma separated, up to and including the
/// closing bracket.
pub open spec fn sp_elements(s: Seq<char>) -> Option<(Seq<JsonV>, Seq<char>)>
    decreases s.len(), 1int,
{
    match sp_value(s) {
        None => None,
        Some((v, r)) => {
            if r.len() >= s.len() {
                None
            } else {
                let u = sp_ws(r);
                if u.len() > r.len() || u.len() == 0 {
                    None
                } else if u[0] == ']' {
                    Some((seq![v], u.drop_first()))
                } else if u[0] == ',' {
                    match sp_elements(u.drop_first()) {
                        None => None,
                        Some((es, r2)) => Some((seq![v] + es, r2)),
                    }
                } else {
                    None
                }
            }
        },
    }
}

/// One or more object members, comma separated, up to and including the
/// closing brace.
pub open spec fn sp_members(s: Seq<char>) -> Option<(Seq<(Seq<char>, JsonV)>, Seq<char>)>
    decreases s.len(), 1int,
{
    let t = sp_ws(s);
    if t.len() > s.len() || t.len() == 0 || t[0] != '"' {
        None
    } else {
        match sp_string_body(t.drop_first()) {
            None => None,
            Some((k, r)) => {
                if r.len() >= t.len() {
                    None
                } else {
                    let u = sp_ws(r);
                    if u.len() > r.len() || u.len() == 0 || u[0] != ':' {
                        None
                    } else {
                        match sp_value(u.drop_first()) {
                            None => None,
                            Some((v, r2)) => {
                                if r2.len() >= s.len() {
                                    None
                                } else {
                                    let w = sp_ws(r2);
                                    if w.len() > r2.len() || w.len() == 0 {
                                        None
                                    } else if w[0] == '}' {
                                        Some((seq![(k, v)], w.drop_first()))
                                    } else if w[0] == ',' {
                                        match sp_members(w.drop_first()) {
                                            None => None,
                                            Some((ms, r3)) => Some((seq![(k, v)] + ms, r3)),
                                        }
                                    } else {
                                        None
                                    }
                                }
                            },
                        }
                    }
                }
            },
        }
    }
}

/// Whether a character is JSON whitespace.
fn ws_char(c: char) -> (b: bool)
    ensures
        b == is_ws(c),
{
    c == ' ' || c == '\n' || c == '\r' || c == '\t'
}

/// Advance past leading whitespace, from position `i`.
fn skip_ws(s: &Vec<char>, i: usize) -> (j: usize)
    requires
        i <= s@.len(),
    ensures
        i <= j <= s@.len(),
        s@.skip(j as int) == sp_ws(s@.skip(i as int)),
        j < s@.len() ==> !is_ws(s@[j as int]),
{
    let mut j = i;
    while j < s.len() && ws_char(s[j])
        invariant
            i <= j <= s@.len(),
            sp_ws(s@.skip(i as int)) == sp_ws(s@.skip(j as int)),
        decreases s@.len() - j,
    {
        proof {
            assert(s@.skip(j as int)[0] == s@[j as int]);
            assert(s@.skip(j as int).drop_first() =~= s@.skip(j + 1));
        }
        j = j + 1;
    }
    proof {
        if j < s@.len() {
            assert(s@.skip(j as int)[0] == s@[j as int]);
            assert(sp_ws(s@.skip(j as int)) == s@.skip(j as int));
        } else {
            assert(s@.skip(j as int).len() == 0);
            assert(sp_ws(s@.skip(j as int)) == s@.skip(j as int));
        }
    }
    j
}

/// The numeric value of a hexadecimal digit, or `None`.
fn hex_value(c: char) -> (r: Option<u32>)
    ensures
        r is Some <==> is_hex(c),
        r matches Some(h) ==> h == spec_hex_value(c) && h <= 15,
{
    match digit_value(c) {
        Some(d) => Some(d),
        None => {
            let u = c as u32;
            if 'a' as u32 <= u && u <= 'f' as u32 {
                Some(u - 'a' as u32 + 10)
            } else if 'A' as u32 <= u && u <= 'F' as u32 {
                Some(u - 'A' as u32 + 10)
            } else {
                None
            }
        },
    }
}

/// Four hexadecimal digits starting at `i`.
fn parse_hex4(s: &Vec<char>, i: usize) -> (r: Option<(u32, usize)>)
    requires
        i <= s@.len(),
    ensures
        r matches Some((h, j)) ==> j == i + 4 && j <= s@.len() && sp_hex4(s@.skip(i as int))
            == Some((h, s@.skip(j as int))),
        r is None ==> sp_hex4(s@.skip(i as int)) is None,
{
    let ghost t = s@.skip(i as int);
    proof {
        assert(t.len() == s@.len() - i);
        if t.len() >= 4 {
            assert(t[0] == s@[i as int]);
            assert(t[1] == s@[i + 1]);
            assert(t[2] == s@[i + 2]);
            assert(t[3] == s@[i + 3]);
        }
    }
    if s.len() - i >= 4 {
        let h0 = hex_value(s[i]);
        let h1 = hex_value(s[i + 1]);
        let h2 = hex_value(s[i + 2]);
        let h3 = hex_value(s[i + 3]);
        match (h0, h1, h2, h3) {
            (Some(a), Some(b), Some(c), Some(d)) => {
                let h: u32 = a * 0x1000 + b * 0x100 + c * 0x10 + d;
                proof {
                    assert(t.skip(4) =~= s@.skip(i + 4));
                }
                Some((h, i + 4))
            },
            _ => None,
        }
    } else {
        None
    }
}

/// One escape sequence, starting just after the backslash at `i`.
fn parse_escape(s: &Vec<char>, i: usize) -> (r: Option<(char, usize)>)
    requires
        i <= s@.len(),
    ensures
        r matches Some((c, j)) ==> i < j <= s@.len() && sp_escape(s@.skip(i as int)) == Some(
            (c, s@.skip(j as int)),
        ),
        r is None ==> sp_escape(s@.skip(i as int)) is None,
{
    let ghost t = s@.skip(i as int);
    if i == s.len() {
        return None;
    }
    let c = s[i];
    proof {
        assert(t[0] == c);
        assert(t.drop_first() =~= s@.skip(i + 1));
    }
    if c == '"' {
        Some(('"', i + 1))
    } else if c == '\\' {
        Some(('\\', i + 1))
    } else if c == '/' {
        Some(('/', i + 1))
    } else if c == 'b' {
        Some(('\u{0008}', i + 1))
    } else if c == 'f' {
        Some(('\u{000C}', i + 1))
    } else if c == 'n' {
        Some(('\n', i + 1))
    } else if c == 'r' {
        Some(('\r', i + 1))
    } else if c == 't' {
        Some(('\t', i + 1))
    } else if c == 'u' {
        let ghost u = s@.skip(i + 1);
        match parse_hex4(s, i + 1) {
            None => None,
            Some((h, j)) => {
                if h < 0xD800 || h >= 0xE000 {
                    match char_from_u32(h) {
                        Some(ch) => Some((ch, j)),
                        None => {
                            proof {
                                assert(is_scalar(h));
                            }
                            None
                        },
                    }
                } else if h < 0xDC00 {
                    let ghost w = s@.skip(j as int);
                    proof {
                        if s@.len() - j >= 2 {
                            assert(w[0] == s@[j as int]);
                            assert(w[1] == s@[j + 1]);
                        }
                    }
                    if s.len() - j >= 2 && s[j] == '\\' && s[j + 1] == 'u' {
                        proof {
                            assert(w.skip(2) =~= s@.skip(j + 2));
                        }
                        match parse_hex4(s, j + 2) {
                            None => None,
                            Some((l, j2)) => {
                                if 0xDC00 <= l && l < 0xE000 {
                                    let code: u32 = 0x10000 + (h - 0xD800) * 0x400 + (l - 0xDC00);
                                    proof {
                                        assert(is_scalar(code));
                                    }
                                    match char_from_u32(code) {
                                        Some(ch) => Some((ch, j2)),
                                        None => None,
                                    }
                                } else {
                                    None
                                }
                            },
                        }
                    } else {
                        None
                    }
                } else {
                    None
                }
            },
        }
    } else {
        None
    }
}

/// A string body starting at `i`, just after the opening quote.
fn parse_string_body(s: &Vec<char>, i: usize) -> (r: Option<(Vec<char>, usize)>)
    requires
        i <= s@.len(),
    ensures
        r matches Some((cs, j)) ==> i < j <= s@.len() && sp_string_body(s@.skip(i as int)) == Some(
            (cs@, s@.skip(j as int)),
        ),
        r is None ==> sp_string_body(s@.skip(i as int)) is None,
{
    let mut acc: Vec<char> = Vec::new();
    let mut k = i;
    loop
        invariant
            i <= k <= s@.len(),
            sp_string_body(s@.skip(i as int)) == (match sp_string_body(s@.skip(k as int)) {
                None => None::<(Seq<char>, Seq<char>)>,
                Some((cs, r)) => Some((acc@ + cs, r)),
            }),
        decreases s@.len() - k,
    {
        let ghost t = s@.skip(k as int);
        if k == s.len() {
            return None;
        }
        let c = s[k];
        proof {
            assert(t[0] == c);
            assert(t.drop_first() =~= s@.skip(k + 1));
        }
        if c == '"' {
            proof {
                assert(sp_string_body(t) == Some((Seq::<char>::empty(), s@.skip(k + 1))));
                assert(acc@ + Seq::<char>::empty() =~= acc@);
            }
            return Some((acc, k + 1));
        } else if c == '\\' {
            match parse_escape(s, k + 1) {
                None => {
                    return None;
                },
                Some((e, j)) => {
                    proof {
                        assert(s@.skip(j as int).len() < t.len());
                        let rest = sp_string_body(s@.skip(j as int));
                        if rest is Some {
                            let (cs2, r2) = rest->Some_0;
                            assert(sp_string_body(t) == Some((seq![e] + cs2, r2)));
                            assert((acc@ + (seq![e] + cs2)) =~= ((acc@ + seq![e]) + cs2));
                        }
                    }
                    acc.push(e);
                    k = j;
                },
            }
        } else if (c as u32) < 0x20 {
            return None;
        } else {
            proof {
                let rest = sp_string_body(s@.skip(k + 1));
                if rest is Some {
                    let (cs2, r2) = rest->Some_0;
                    assert(sp_string_body(t) == Some((seq![c] + cs2, r2)));
                    assert((acc@ + (seq![c] + cs2)) =~= ((acc@ + seq![c]) + cs2));
                }
            }
            acc.push(c);
            k = k + 1;
        }
    }
}

/// The end of the run of decimal digits starting at `i`.
fn digits_end(s: &Vec<char>, i: usize) -> (j: usize)
    requires
        i <= s@.len(),
    ensures
        i <= j <= s@.len(),
        j - i == scan_digits(s@.skip(i as int)),
{
    let mut j = i;
    while j < s.len() && digit_value(s[j]).is_some()
        invariant
            i <= j <= s@.len(),
            scan_digits(s@.skip(i as int)) == (j - i) + scan_digits(s@.skip(j as int)),
        decreases s@.len() - j,
    {
        proof {
            assert(s@.skip(j as int)[0] == s@[j as int]);
            assert(s@.skip(j as int).drop_first() =~= s@.skip(j + 1));
        }
        j = j + 1;
    }
    proof {
        if j < s@.len() {
            assert(s@.skip(j as int)[0] == s@[j as int]);
        }
        assert(scan_digits(s@.skip(j as int)) == 0);
    }
    j
}

/// Copy the characters of positions `a .. b`.
fn copy_range(s: &Vec<char>, a: usize, b: usize) -> (v: Vec<char>)
    requires
        a <= b <= s@.len(),
    ensures
        v@ == s@.subrange(a as int, b as int),
{
    let mut v: Vec<char> = Vec::new();
    let mut x = a;
    while x < b
        invariant
            a <= x <= b <= s@.len(),
            v@ == s@.subrange(a as int, x as int),
        decreases b - x,
    {
        v.push(s[x]);
        proof {
            assert(v@ =~= s@.subrange(a as int, x + 1));
        }
        x = x + 1;
    }
    v
}

/// A number starting at `i` (the caller has seen a digit or a minus
/// sign there): its lexeme and its end.
#[verifier::rlimit(100)]
#[verifier::spinoff_prover]
fn parse_number(s: &Vec<char>, i: usize) -> (r: Option<(Vec<char>, usize)>)
    requires
        i <= s@.len(),
    ensures
        r matches Some((lex, j)) ==> i < j <= s@.len() && sp_number(s@.skip(i as int)) == Some(
            (lex@, s@.skip(j as int)),
        ),
        r is None ==> sp_number(s@.skip(i as int)) is None,
{
    let ghost t = s@.skip(i as int);
    proof {
        assert forall|k: int| 0 <= k < t.len() implies t[k] == s@[i + k] by {}
    }
    // integer part
    let b: usize = if i < s.len() && s[i] == '-' {
        1
    } else {
        0
    };
    let k1: usize;
    if i + b < s.len() && s[i + b] == '0' {
        k1 = b + 1;
        proof {
            assert(sp_int_end(t) == b + 1);
        }
    } else {
        proof {
            assert(t.skip(b as int) =~= s@.skip(i + b));
        }
        let de = digits_end(s, i + b);
        if de == i + b {
            proof {
                assert(scan_digits(t.skip(b as int)) == 0);
                if b < t.len() && is_digit(t[b as int]) {
                    assert(t.skip(b as int)[0] == t[b as int]);
                    lemma_scan_digits_bounds(t.skip(b as int));
                    assert(false);
                }
                assert(sp_int_end(t) == -1);
            }
            return None;
        }
        k1 = de - i;
        proof {
            assert(scan_digits(t.skip(b as int)) == de - (i + b));
            assert(t.skip(b as int)[0] == t[b as int]);
            assert(is_digit(t[b as int]));
            assert(sp_int_end(t) == b + scan_digits(t.skip(b as int)));
        }
    }
    proof {
        assert(sp_int_end(t) == k1 as int);
        assert(1 <= k1 <= t.len());
    }
    // fraction part
    let k2: usize;
    if i + k1 < s.len() && s[i + k1] == '.' {
        proof {
            assert(t.skip(k1 + 1) =~= s@.skip(i + k1 + 1));
        }
        let de = digits_end(s, i + k1 + 1);
        if de == i + k1 + 1 {
            proof {
                assert(sp_frac_end(t, k1 as int) == -1);
            }
            return None;
        }
        k2 = de - i;
        proof {
            assert(sp_frac_end(t, k1 as int) == k2 as int);
        }
    } else {
        k2 = k1;
        proof {
            assert(sp_frac_end(t, k1 as int) == k2 as int);
        }
    }
    proof {
        assert(k2 <= t.len());
    }
    // exponent part
    let k3: usize;
    if i + k2 < s.len() && (s[i + k2] == 'e' || s[i + k2] == 'E') {
        let eb: usize = if i + k2 + 1 < s.len() && (s[i + k2 + 1] == '+' || s[i + k2 + 1] == '-') {
            k2 + 2
        } else {
            k2 + 1
        };
        proof {
            assert(t.skip(eb as int) =~= s@.skip(i + eb));
        }
        let de = digits_end(s, i + eb);
        if de == i + eb {
            proof {
                assert(sp_exp_end(t, k2 as int) == -1);
            }
            return None;
        }
        k3 = de - i;
        proof {
            assert(sp_exp_end(t, k2 as int) == k3 as int);
        }
    } else {
        k3 = k2;
        proof {
            assert(sp_exp_end(t, k2 as int) == k3 as int);
        }
    }
    proof {
        assert(k3 <= t.len());
    }
    let lex = copy_range(s, i, i + k3);
    proof {
        assert(lex@ =~= t.take(k3 as int));
        assert(t.skip(k3 as int) =~= s@.skip(i + k3));
    }
    Some((lex, i + k3))
}

/// A complete JSON document: one value and nothing but whitespace after
/// it.
pub open spec fn sp_document(s: Seq<char>) -> Option<JsonV> {
    match sp_value(s) {
        None => None,
        Some((v, r)) => {
            if sp_ws(r).len() == 0 {
                Some(v)
            } else {
                None
            }
        },
    }
}

/// A JSON value starting at `i`, leading whitespace allowed.
#[verifier::rlimit(100)]
fn parse_value(s: &Vec<char>, i: usize) -> (r: Option<(Json, usize)>)
    requires
        i <= s@.len(),
    ensures
        r matches Some((v, j)) ==> i < j <= s@.len() && sp_value(s@.skip(i as int)) == Some(
            (v@, s@.skip(j as int)),
        ),
        r is None ==> sp_value(s@.skip(i as int)) is None,
    decreases s@.len() - i, 0int,
{
    let ghost s0 = s@.skip(i as int);
    let j0 = skip_ws(s, i);
    let ghost t = s@.skip(j0 as int);
    if j0 == s.len() {
        proof {
            assert(t.len() == 0);
        }
        return None;
    }
    let c = s[j0];
    proof {
        assert(t[0] == c);
        assert(t.len() == s@.len() - j0);
    }
    if c == 'n' {
        proof {
            if t.len() >= 4 {
                assert(t[1] == s@[j0 + 1]);
                assert(t[2] == s@[j0 + 2]);
                assert(t[3] == s@[j0 + 3]);
            }
        }
        if s.len() - j0 >= 4 && s[j0 + 1] == 'u' && s[j0 + 2] == 'l' && s[j0 + 3] == 'l' {
            proof {
                assert(t.skip(4) =~= s@.skip(j0 + 4));
            }
            Some((Json::Null, j0 + 4))
        } else {
            None
        }
    } else if c == 't' {
        proof {
            if t.len() >= 4 {
                assert(t[1] == s@[j0 + 1]);
                assert(t[2] == s@[j0 + 2]);
                assert(t[3] == s@[j0 + 3]);
            }
        }
        if s.len() - j0 >= 4 && s[j0 + 1] == 'r' && s[j0 + 2] == 'u' && s[j0 + 3] == 'e' {
            proof {
                assert(t.skip(4) =~= s@.skip(j0 + 4));
            }
            Some((Json::Bool(true), j0 + 4))
        } else {
            None
        }
    } else if c == 'f' {
        proof {
            if t.len() >= 5 {
                assert(t[1] == s@[j0 + 1]);
                assert(t[2] == s@[j0 + 2]);
                assert(t[3] == s@[j0 + 3]);
                assert(t[4] == s@[j0 + 4]);
            }
        }
        if s.len() - j0 >= 5 && s[j0 + 1] == 'a' && s[j0 + 2] == 'l' && s[j0 + 3] == 's' && s[j0
            + 4] == 'e' {
            proof {
                assert(t.skip(5) =~= s@.skip(j0 + 5));
            }
            Some((Json::Bool(false), j0 + 5))
        } else {
            None
        }
    } else if c == '"' {
        proof {
            assert(t.drop_first() =~= s@.skip(j0 + 1));
        }
        match parse_string_body(s, j0 + 1) {
            None => None,
            Some((cs, j)) => Some((Json::Str(cs), j)),
        }
    } else if c == '[' {
        proof {
            assert(t.drop_first() =~= s@.skip(j0 + 1));
        }
        let j1 = skip_ws(s, j0 + 1);
        let ghost u = s@.skip(j1 as int);
        proof {
            assert(u == sp_ws(t.drop_first()));
            assert(u.len() < t.len());
        }
        if j1 < s.len() && s[j1] == ']' {
            let es: Vec<Json> = Vec::new();
            proof {
                assert(u[0] == ']');
                assert(u.drop_first() =~= s@.skip(j1 + 1));
                assert(views_of(es@) =~= Seq::<JsonV>::empty());
            }
            Some((Json::Arr(es), j1 + 1))
        } else {
            proof {
                if j1 < s@.len() {
                    assert(u[0] == s@[j1 as int]);
                }
            }
            match parse_elements(s, j1) {
                None => None,
                Some((es, j)) => Some((Json::Arr(es), j)),
            }
        }
    } else if c == '{' {
        proof {
            assert(t.drop_first() =~= s@.skip(j0 + 1));
        }
        let j1 = skip_ws(s, j0 + 1);
        let ghost u = s@.skip(j1 as int);
        proof {
            assert(u == sp_ws(t.drop_first()));
            assert(u.len() < t.len());
        }
        if j1 < s.len() && s[j1] == '}' {
            let ms: Vec<(Vec<char>, Json)> = Vec::new();
            proof {
                assert(u[0] == '}');
                assert(u.drop_first() =~= s@.skip(j1 + 1));
                assert(member_views_of(ms@) =~= Seq::<(Seq<char>, JsonV)>::empty());
            }
            Some((Json::Obj(ms), j1 + 1))
        } else {
            proof {
                if j1 < s@.len() {
                    assert(u[0] == s@[j1 as int]);
                }
            }
            match parse_members(s, j1) {
                None => None,
                Some((ms, j)) => Some((Json::Obj(ms), j)),
            }
        }
    } else if c == '-' || digit_value(c).is_some() {
        match parse_number(s, j0) {
            None => None,
            Some((lex, j)) => Some((Json::Num(lex), j)),
        }
    } else {
        None
    }
}

/// One or more array elements starting at `i`, through the closing
/// bracket.
#[verifier::rlimit(60)]
fn parse_elements(s: &Vec<char>, i: usize) -> (r: Option<(Vec<Json>, usize)>)
    requires
        i <= s@.len(),
    ensures
        r matches Some((es, j)) ==> i < j <= s@.len() && sp_elements(s@.skip(i as int)) == Some(
            (views_of(es@), s@.skip(j as int)),
        ),
        r is None ==> sp_elements(s@.skip(i as int)) is None,
    decreases s@.len() - i, 1int,
{
    let ghost s0 = s@.skip(i as int);
    match parse_value(s, i) {
        None => None,
        Some((v, j)) => {
            proof {
                assert(s@.skip(j as int).len() < s0.len());
            }
            let j2 = skip_ws(s, j);
            let ghost u = s@.skip(j2 as int);
            proof {
                assert(u == sp_ws(s@.skip(j as int)));
            }
            if j2 == s.len() {
                proof {
                    assert(u.len() == 0);
                }
                None
            } else {
                let c2 = s[j2];
                proof {
                    assert(u[0] == c2);
                    assert(u.drop_first() =~= s@.skip(j2 + 1));
                }
                if c2 == ']' {
                    let mut es: Vec<Json> = Vec::new();
                    es.push(v);
                    proof {
                        assert(views_of(es@) =~= seq![json_view(v)]);
                    }
                    Some((es, j2 + 1))
                } else if c2 == ',' {
                    match parse_elements(s, j2 + 1) {
                        None => None,
                        Some((es, j3)) => {
                            let ghost tail = es@;
                            let mut out: Vec<Json> = Vec::new();
                            out.push(v);
                            let mut es = es;
                            out.append(&mut es);
                            proof {
                                assert(out@ == seq![v] + tail);
                                assert(views_of(out@) =~= seq![json_view(v)] + views_of(tail));
                            }
                            Some((out, j3))
                        },
                    }
                } else {
                    None
                }
            }
        },
    }
}

/// One or more object members starting at `i`, through the closing
/// brace.
#[verifier::rlimit(100)]
fn parse_members(s: &Vec<char>, i: usize) -> (r: Option<(Vec<(Vec<char>, Json)>, usize)>)
    requires
        i <= s@.len(),
    ensures
        r matches Some((ms, j)) ==> i < j <= s@.len() && sp_members(s@.skip(i as int)) == Some(
            (member_views_of(ms@), s@.skip(j as int)),
        ),
        r is None ==> sp_members(s@.skip(i as int)) is None,
    decreases s@.len() - i, 1int,
{
    let ghost s0 = s@.skip(i as int);
    let j0 = skip_ws(s, i);
    let ghost t = s@.skip(j0 as int);
    if j0 == s.len() {
        proof {
            assert(t.len() == 0);
        }
        return None;
    }
    let c = s[j0];
    proof {
        assert(t[0] == c);
        assert(t.drop_first() =~= s@.skip(j0 + 1));
    }
    if c != '"' {
        return None;
    }
    match parse_string_body(s, j0 + 1) {
        None => None,
        Some((key, j)) => {
            proof {
                assert(s@.skip(j as int).len() < t.len());
            }
            let j2 = skip_ws(s, j);
            let ghost u = s@.skip(j2 as int);
            proof {
                assert(u == sp_ws(s@.skip(j as int)));
            }
            if j2 == s.len() {
                proof {
                    assert(u.len() == 0);
                }
                return None;
            }
            let c2 = s[j2];
            proof {
                assert(u[0] == c2);
                assert(u.drop_first() =~= s@.skip(j2 + 1));
            }
            if c2 != ':' {
                return None;
            }
            match parse_value(s, j2 + 1) {
                None => None,
                Some((v, j3)) => {
                    proof {
                        assert(s@.skip(j3 as int).len() < s0.len());
                    }
                    let j4 = skip_ws(s, j3);
                    let ghost w = s@.skip(j4 as int);
                    proof {
                        assert(w == sp_ws(s@.skip(j3 as int)));
                    }
                    if j4 == s.len() {
                        proof {
                            assert(w.len() == 0);
                        }
                        return None;
                    }
                    let c3 = s[j4];
                    proof {
                        assert(w[0] == c3);
                        assert(w.drop_first() =~= s@.skip(j4 + 1));
                    }
                    if c3 == '}' {
                        let mut ms: Vec<(Vec<char>, Json)> = Vec::new();
                        ms.push((key, v));
                        proof {
                            assert(member_views_of(ms@) =~= seq![(ms@[0].0@, json_view(ms@[0].1))]);
                        }
                        Some((ms, j4 + 1))
                    } else if c3 == ',' {
                        match parse_members(s, j4 + 1) {
                            None => None,
                            Some((ms, j5)) => {
                                let ghost tail = ms@;
                                let ghost kv = (key@, v@);
                                let mut out: Vec<(Vec<char>, Json)> = Vec::new();
                                out.push((key, v));
                                let mut ms = ms;
                                out.append(&mut ms);
                                proof {
                                    assert(out@ == seq![out@[0]] + tail);
                                    assert(member_views_of(out@) =~= seq![kv] + member_views_of(
                                        tail,
                                    ));
                                }
                                Some((out, j5))
                            },
                        }
                    } else {
                        None
                    }
                },
            }
        },
    }
}

/// Parse a complete JSON document: exactly what [`sp_document`]
/// accepts.
pub fn parse_document(s: &Vec<char>) -> (r: Option<Json>)
    ensures
        r matches Some(v) ==> sp_document(s@) == Some(v@),
        r is None ==> sp_document(s@) is None,
{
    proof {
        assert(s@.skip(0) =~= s@);
    }
    match parse_value(s, 0) {
        None => None,
        Some((v, j)) => {
            let j2 = skip_ws(s, j);
            if j2 == s.len() {
                proof {
                    assert(s@.skip(j2 as int).len() == 0);
                }
                Some(v)
            } else {
                proof {
                    assert(s@.skip(j2 as int).len() > 0);
                }
                None
            }
        },
    }
}

} // verus!
