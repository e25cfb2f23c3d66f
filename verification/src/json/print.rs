//! The canonical JSON printer, the inverse of the parser.
//!
//! Printing is canonical: no insignificant whitespace, strings escape
//! only what JSON forces them to escape (the quote, the backslash, and
//! control characters, the last as `\u00..`).  The executable printer
//! is proved to emit exactly the specification-level text.

use vstd::prelude::*;

use crate::json::value::{
    json_view, lemma_json_view_arr, lemma_json_view_obj, member_views_of, views_of, Json, JsonV,
};
use crate::wire::{spec_digit_char, spec_digit_value};

verus! {

broadcast use
    vstd::seq::group_seq_axioms,
    vstd::std_specs::vec::group_vec_axioms,
    lemma_json_view_arr,
    lemma_json_view_obj,
;

/// The hexadecimal digit character for a value between 0 and 15.
pub open spec fn spec_hex_char(d: int) -> char
    recommends
        0 <= d <= 15,
{
    if d <= 9 {
        spec_digit_char(d)
    } else if d == 10 {
        'a'
    } else if d == 11 {
        'b'
    } else if d == 12 {
        'c'
    } else if d == 13 {
        'd'
    } else if d == 14 {
        'e'
    } else {
        'f'
    }
}

/// How one character is printed inside a JSON string.
pub open spec fn esc_char(c: char) -> Seq<char> {
    if c == '"' {
        seq!['\\', '"']
    } else if c == '\\' {
        seq!['\\', '\\']
    } else if (c as u32) < 0x20 {
        seq!['\\', 'u', '0', '0', spec_hex_char(c as u32 as int / 16), spec_hex_char(
            c as u32 as int % 16,
        )]
    } else {
        seq![c]
    }
}

/// The printed body of a string, without the surrounding quotes.
pub open spec fn print_string_body(s: Seq<char>) -> Seq<char>
    decreases s.len(),
{
    if s.len() == 0 {
        Seq::empty()
    } else {
        esc_char(s[0]) + print_string_body(s.drop_first())
    }
}

/// A printed string, quotes included.
pub open spec fn print_string(s: Seq<char>) -> Seq<char> {
    seq!['"'] + print_string_body(s) + seq!['"']
}

/// The printed text of a JSON value.
pub open spec fn print_value(j: JsonV) -> Seq<char>
    decreases j, 0int,
    via print_value_decreases
{
    match j {
        JsonV::Null => seq!['n', 'u', 'l', 'l'],
        JsonV::Bool(b) => if b {
            seq!['t', 'r', 'u', 'e']
        } else {
            seq!['f', 'a', 'l', 's', 'e']
        },
        JsonV::Num(lex) => lex,
        JsonV::Str(s) => print_string(s),
        JsonV::Arr(es) => seq!['['] + print_elements_from(es, 0) + seq![']'],
        JsonV::Obj(ms) => seq!['{'] + print_members_from(ms, 0) + seq!['}'],
    }
}

/// The printed elements of an array from position `i` on, comma
/// separated.
pub open spec fn print_elements_from(es: Seq<JsonV>, i: int) -> Seq<char>
    decreases es, es.len() - i, 1int,
    via print_elements_from_decreases
{
    if i < 0 || i >= es.len() {
        Seq::empty()
    } else if i == es.len() - 1 {
        print_value(es[i])
    } else {
        print_value(es[i]) + seq![','] + print_elements_from(es, i + 1)
    }
}

/// The printed members of an object from position `i` on, comma
/// separated.
pub open spec fn print_members_from(ms: Seq<(Seq<char>, JsonV)>, i: int) -> Seq<char>
    decreases ms, ms.len() - i, 1int,
    via print_members_from_decreases
{
    if i < 0 || i >= ms.len() {
        Seq::empty()
    } else if i == ms.len() - 1 {
        print_string(ms[i].0) + seq![':'] + print_value(ms[i].1)
    } else {
        print_string(ms[i].0) + seq![':'] + print_value(ms[i].1) + seq![',']
            + print_members_from(ms, i + 1)
    }
}

#[via_fn]
proof fn print_value_decreases(j: JsonV) {
    match j {
        JsonV::Arr(es) => {
            assert(decreases_to!(j => es));
        },
        JsonV::Obj(ms) => {
            assert(decreases_to!(j => ms));
        },
        _ => {},
    }
}

#[via_fn]
proof fn print_elements_from_decreases(es: Seq<JsonV>, i: int) {
    if 0 <= i < es.len() {
        assert(decreases_to!(es => es[i]));
    }
}

#[via_fn]
proof fn print_members_from_decreases(ms: Seq<(Seq<char>, JsonV)>, i: int) {
    if 0 <= i < ms.len() {
        assert(decreases_to!(ms => ms[i]));
        assert(decreases_to!(ms[i] => ms[i].1));
    }
}

/// Appending one character to a string appends its escape to the
/// printed body.
pub proof fn lemma_print_string_body_push(s: Seq<char>, c: char)
    ensures
        print_string_body(s.push(c)) == print_string_body(s) + esc_char(c),
    decreases s.len(),
{
    if s.len() == 0 {
        assert(s.push(c)[0] == c);
        assert(s.push(c).drop_first() =~= Seq::<char>::empty());
        assert(print_string_body(Seq::<char>::empty()) == Seq::<char>::empty());
        assert(print_string_body(s.push(c)) == esc_char(c) + print_string_body(
            Seq::<char>::empty(),
        ));
        assert(esc_char(c) + Seq::<char>::empty() =~= esc_char(c));
        assert(print_string_body(s) + esc_char(c) =~= esc_char(c));
    } else {
        assert(s.push(c)[0] == s[0]);
        assert(s.push(c).drop_first() =~= s.drop_first().push(c));
        lemma_print_string_body_push(s.drop_first(), c);
        assert(print_string_body(s.push(c)) == esc_char(s[0]) + (print_string_body(s.drop_first())
            + esc_char(c)));
        assert(esc_char(s[0]) + (print_string_body(s.drop_first()) + esc_char(c)) =~= (esc_char(
            s[0],
        ) + print_string_body(s.drop_first())) + esc_char(c));
    }
}

/// The hexadecimal digit character for a value between 0 and 15; its
/// value reads back exactly.
pub fn hex_char(d: u32) -> (c: char)
    requires
        d <= 15,
    ensures
        c == spec_hex_char(d as int),
{
    if d == 0 {
        '0'
    } else if d == 1 {
        '1'
    } else if d == 2 {
        '2'
    } else if d == 3 {
        '3'
    } else if d == 4 {
        '4'
    } else if d == 5 {
        '5'
    } else if d == 6 {
        '6'
    } else if d == 7 {
        '7'
    } else if d == 8 {
        '8'
    } else if d == 9 {
        '9'
    } else if d == 10 {
        'a'
    } else if d == 11 {
        'b'
    } else if d == 12 {
        'c'
    } else if d == 13 {
        'd'
    } else if d == 14 {
        'e'
    } else {
        'f'
    }
}

/// Append the escape of one string character.
fn push_escaped(c: char, out: &mut Vec<char>)
    ensures
        final(out)@ == old(out)@ + esc_char(c),
{
    if c == '"' {
        out.push('\\');
        out.push('"');
    } else if c == '\\' {
        out.push('\\');
        out.push('\\');
    } else if (c as u32) < 0x20 {
        let u = c as u32;
        out.push('\\');
        out.push('u');
        out.push('0');
        out.push('0');
        out.push(hex_char(u / 16));
        out.push(hex_char(u % 16));
    }
    if !(c == '"' || c == '\\' || (c as u32) < 0x20) {
        out.push(c);
    }
    proof {
        assert(out@ =~= old(out)@ + esc_char(c));
    }
}

/// Append a printed string, quotes included.
fn push_string(s: &Vec<char>, out: &mut Vec<char>)
    ensures
        final(out)@ == old(out)@ + print_string(s@),
{
    out.push('"');
    let mut k: usize = 0;
    while k < s.len()
        invariant
            k <= s@.len(),
            out@ == old(out)@ + seq!['"'] + print_string_body(s@.take(k as int)),
        decreases s@.len() - k,
    {
        proof {
            assert(s@.take(k + 1) =~= s@.take(k as int).push(s@[k as int]));
            lemma_print_string_body_push(s@.take(k as int), s@[k as int]);
        }
        push_escaped(s[k], out);
        k = k + 1;
    }
    proof {
        assert(s@.take(s@.len() as int) =~= s@);
    }
    out.push('"');
    proof {
        assert(out@ =~= old(out)@ + print_string(s@));
    }
}

/// Append every character of `xs`.
fn push_all(xs: &Vec<char>, out: &mut Vec<char>)
    ensures
        final(out)@ == old(out)@ + xs@,
{
    let mut k: usize = 0;
    while k < xs.len()
        invariant
            k <= xs@.len(),
            out@ == old(out)@ + xs@.take(k as int),
        decreases xs@.len() - k,
    {
        out.push(xs[k]);
        proof {
            assert(out@ =~= old(out)@ + xs@.take(k + 1));
        }
        k = k + 1;
    }
    proof {
        assert(xs@.take(xs@.len() as int) =~= xs@);
    }
}

/// Append the printed text of a JSON value: exactly what
/// [`print_value`] says.
pub fn print_json(j: &Json, out: &mut Vec<char>)
    ensures
        final(out)@ == old(out)@ + print_value(j@),
    decreases *j, 0int, 0int,
{
    match j {
        Json::Null => {
            out.push('n');
            out.push('u');
            out.push('l');
            out.push('l');
            proof {
                assert(out@ =~= old(out)@ + print_value(j@));
            }
        },
        Json::Bool(b) => {
            if *b {
                out.push('t');
                out.push('r');
                out.push('u');
                out.push('e');
            } else {
                out.push('f');
                out.push('a');
                out.push('l');
                out.push('s');
                out.push('e');
            }
            proof {
                assert(out@ =~= old(out)@ + print_value(j@));
            }
        },
        Json::Num(lex) => {
            push_all(lex, out);
        },
        Json::Str(s) => {
            push_string(s, out);
        },
        Json::Arr(es) => {
            out.push('[');
            if es.len() > 0 {
                proof {
                    assert(decreases_to!(*j => *es));
                }
                print_elements(es, 0, out);
            }
            out.push(']');
            proof {
                assert(views_of(es@) =~= Seq::new(es@.len(), |i: int| json_view(es@[i])));
                if es@.len() == 0 {
                    assert(print_elements_from(views_of(es@), 0) =~= Seq::<char>::empty());
                }
                assert(out@ =~= old(out)@ + print_value(j@));
            }
        },
        Json::Obj(ms) => {
            out.push('{');
            if ms.len() > 0 {
                proof {
                    assert(decreases_to!(*j => *ms));
                }
                print_members(ms, 0, out);
            }
            out.push('}');
            proof {
                if ms@.len() == 0 {
                    assert(print_members_from(member_views_of(ms@), 0) =~= Seq::<char>::empty());
                }
                assert(out@ =~= old(out)@ + print_value(j@));
            }
        },
    }
}

/// Append the printed elements of an array from position `i` on.
fn print_elements(es: &Vec<Json>, i: usize, out: &mut Vec<char>)
    requires
        i < es@.len(),
    ensures
        final(out)@ == old(out)@ + print_elements_from(views_of(es@), i as int),
    decreases *es, es@.len() - i, 1int,
{
    proof {
        assert(decreases_to!(*es => es@[i as int]));
        assert(views_of(es@)[i as int] == json_view(es@[i as int]));
    }
    print_json(&es[i], out);
    if i < es.len() - 1 {
        out.push(',');
        print_elements(es, i + 1, out);
        proof {
            assert(out@ =~= old(out)@ + print_elements_from(views_of(es@), i as int));
        }
    } else {
        proof {
            assert(i as int == views_of(es@).len() - 1);
            assert(out@ =~= old(out)@ + print_elements_from(views_of(es@), i as int));
        }
    }
}

/// Append the printed members of an object from position `i` on.
fn print_members(ms: &Vec<(Vec<char>, Json)>, i: usize, out: &mut Vec<char>)
    requires
        i < ms@.len(),
    ensures
        final(out)@ == old(out)@ + print_members_from(member_views_of(ms@), i as int),
    decreases *ms, ms@.len() - i, 1int,
{
    proof {
        assert(decreases_to!(*ms => ms@[i as int]));
        assert(decreases_to!(ms@[i as int] => ms@[i as int].1));
        assert(member_views_of(ms@)[i as int] == (ms@[i as int].0@, json_view(ms@[i as int].1)));
    }
    push_string(&ms[i].0, out);
    out.push(':');
    print_json(&ms[i].1, out);
    if i < ms.len() - 1 {
        out.push(',');
        print_members(ms, i + 1, out);
        proof {
            assert(out@ =~= old(out)@ + print_members_from(member_views_of(ms@), i as int));
        }
    } else {
        proof {
            assert(i as int == member_views_of(ms@).len() - 1);
            assert(out@ =~= old(out)@ + print_members_from(member_views_of(ms@), i as int));
        }
    }
}

} // verus!
