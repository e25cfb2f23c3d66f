//! Printing then parsing gives the value back.
//!
//! The statement is for *well-formed* values: every value the
//! protocol's encoders produce.  (A `Num` keeps a raw lexeme and is
//! never produced by an encoder, so it is left outside.)  The round
//! trip is what makes re-serialization faithful: a decoded envelope,
//! printed and parsed again, is the same envelope.

use vstd::prelude::*;

use crate::json::parse::{
    is_hex, is_ws, sp_document, sp_elements, sp_escape, sp_hex4, sp_members, sp_string_body,
    sp_unicode_escape, sp_value, sp_ws, spec_hex_value,
};
use crate::json::print::{
    esc_char, print_elements_from, print_members_from, print_string, print_string_body,
    print_value, spec_hex_char,
};
use crate::json::value::JsonV;

verus! {

broadcast use vstd::seq::group_seq_axioms, vstd::utf8::char_u32_cast;

/// Well-formed: a value the printer and parser agree on.  Everything
/// but a raw number lexeme.
pub open spec fn wf(j: JsonV) -> bool
    decreases j, 0int,
    via wf_decreases
{
    match j {
        JsonV::Null => true,
        JsonV::Bool(_) => true,
        JsonV::Num(_) => false,
        JsonV::Str(_) => true,
        JsonV::Arr(es) => wf_elements_from(es, 0),
        JsonV::Obj(ms) => wf_members_from(ms, 0),
    }
}

/// Every element from position `i` on is well-formed.
pub open spec fn wf_elements_from(es: Seq<JsonV>, i: int) -> bool
    decreases es, es.len() - i, 1int,
    via wf_elements_from_decreases
{
    if i < 0 || i >= es.len() {
        true
    } else {
        wf(es[i]) && wf_elements_from(es, i + 1)
    }
}

/// Every member value from position `i` on is well-formed.
pub open spec fn wf_members_from(ms: Seq<(Seq<char>, JsonV)>, i: int) -> bool
    decreases ms, ms.len() - i, 1int,
    via wf_members_from_decreases
{
    if i < 0 || i >= ms.len() {
        true
    } else {
        wf(ms[i].1) && wf_members_from(ms, i + 1)
    }
}

#[via_fn]
proof fn wf_decreases(j: JsonV) {
    match j {
        JsonV::Arr(es) => {
            assert(decreases_to!(j => es));
        },
        JsonV::Obj(ms) => {
            assert(decreases_to!(j => ms));
        },
        _ => {},
    }
}

#[via_fn]
proof fn wf_elements_from_decreases(es: Seq<JsonV>, i: int) {
    if 0 <= i < es.len() {
        assert(decreases_to!(es => es[i]));
    }
}

#[via_fn]
proof fn wf_members_from_decreases(ms: Seq<(Seq<char>, JsonV)>, i: int) {
    if 0 <= i < ms.len() {
        assert(decreases_to!(ms => ms[i]));
        assert(decreases_to!(ms[i] => ms[i].1));
    }
}

/// The characters that may legitimately follow a printed value.
pub open spec fn is_delim(c: char) -> bool {
    c == ',' || c == ']' || c == '}'
}

/// Whitespace skipping does nothing where no whitespace leads.
proof fn lemma_sp_ws_noop(s: Seq<char>)
    ensures
        s.len() == 0 || !is_ws(s[0]) ==> sp_ws(s) == s,
{
}

/// The first character of a printed value: never whitespace, never a
/// closing delimiter, comma or colon.
proof fn lemma_print_first_char(j: JsonV)
    requires
        wf(j),
    ensures
        print_value(j).len() > 0,
        !is_ws(print_value(j)[0]),
        !is_delim(print_value(j)[0]),
        print_value(j)[0] != ':',
{
    match j {
        JsonV::Null => {
            assert(print_value(j)[0] == 'n');
        },
        JsonV::Bool(b) => {
            if b {
                assert(print_value(j)[0] == 't');
            } else {
                assert(print_value(j)[0] == 'f');
            }
        },
        JsonV::Num(_) => {},
        JsonV::Str(s) => {
            assert(print_value(j) == print_string(s));
            assert(print_value(j)[0] == '"');
        },
        JsonV::Arr(es) => {
            assert(print_value(j)[0] == '[');
        },
        JsonV::Obj(ms) => {
            assert(print_value(j)[0] == '{');
        },
    }
}

/// The printed hexadecimal digit of a value under 16 reads back as
/// that value.
proof fn lemma_hex_char_value(d: int)
    requires
        0 <= d <= 15,
    ensures
        is_hex(spec_hex_char(d)),
        spec_hex_value(spec_hex_char(d)) == d,
{
}

/// Parsing a printed string body: the decoded content is the original
/// string and the remainder begins after the closing quote, whatever
/// follows it.
#[verifier::rlimit(100)]
#[verifier::spinoff_prover]
proof fn lemma_parse_print_string(s: Seq<char>, rest: Seq<char>)
    ensures
        sp_string_body(print_string_body(s) + seq!['"'] + rest) == Some((s, rest)),
    decreases s.len(),
{
    if s.len() == 0 {
        let input = print_string_body(s) + seq!['"'] + rest;
        assert(input =~= seq!['"'] + rest);
        assert(input[0] == '"');
        assert(input.drop_first() =~= rest);
    } else {
        let c = s[0];
        let tail = print_string_body(s.drop_first()) + seq!['"'] + rest;
        let input = print_string_body(s) + seq!['"'] + rest;
        assert(input =~= esc_char(c) + tail);
        lemma_parse_print_string(s.drop_first(), rest);
        if c == '"' {
            assert(input[0] == '\\');
            assert(input.drop_first() =~= seq!['"'] + tail);
            assert((seq!['"'] + tail)[0] == '"');
            assert((seq!['"'] + tail).drop_first() =~= tail);
            assert(sp_escape(input.drop_first()) == Some((c, tail)));
            assert(tail.len() < input.len());
            assert(Some((seq![c] + s.drop_first(), rest)) == Some((s, rest))) by {
                assert(seq![c] + s.drop_first() =~= s);
            }
        } else if c == '\\' {
            assert(input[0] == '\\');
            assert(input.drop_first() =~= seq!['\\'] + tail);
            assert((seq!['\\'] + tail)[0] == '\\');
            assert((seq!['\\'] + tail).drop_first() =~= tail);
            assert(sp_escape(input.drop_first()) == Some((c, tail)));
            assert(tail.len() < input.len());
            assert(seq![c] + s.drop_first() =~= s);
        } else if (c as u32) < 0x20 {
            let hi = c as u32 as int / 16;
            let lo = c as u32 as int % 16;
            lemma_hex_char_value(hi);
            lemma_hex_char_value(lo);
            assert(esc_char(c) =~= seq!['\\', 'u', '0', '0', spec_hex_char(hi), spec_hex_char(lo)]);
            assert(input[0] == '\\');
            let after_bs = input.drop_first();
            assert(after_bs =~= seq!['u', '0', '0', spec_hex_char(hi), spec_hex_char(lo)] + tail);
            assert(after_bs[0] == 'u');
            let after_u = after_bs.drop_first();
            assert(after_u =~= seq!['0', '0', spec_hex_char(hi), spec_hex_char(lo)] + tail);
            assert(after_u.len() >= 4);
            assert(after_u[0] == '0' && after_u[1] == '0' && after_u[2] == spec_hex_char(hi)
                && after_u[3] == spec_hex_char(lo));
            assert(is_hex('0') && spec_hex_value('0') == 0);
            let h = (spec_hex_value(after_u[0]) * 0x1000 + spec_hex_value(after_u[1]) * 0x100
                + spec_hex_value(after_u[2]) * 0x10 + spec_hex_value(after_u[3])) as u32;
            assert(h == hi * 16 + lo);
            assert(h == c as u32);
            assert(after_u.skip(4) =~= tail);
            assert(sp_hex4(after_u) == Some((h, tail)));
            assert(h < 0xD800);
            vstd::utf8::char_u32_cast(c, h);
            assert(h as char == c);
            assert(sp_unicode_escape(after_u) == Some((c, tail)));
            assert(sp_escape(input.drop_first()) == Some((c, tail)));
            assert(tail.len() < input.len());
            assert(seq![c] + s.drop_first() =~= s);
        } else {
            assert(input[0] == c);
            assert(input.drop_first() =~= tail);
            assert(seq![c] + s.drop_first() =~= s);
        }
    }
}

/// Parsing a printed value consumes exactly the printed text and
/// yields the value back, whenever a closing delimiter or the end of
/// input follows.
#[verifier::rlimit(100)]
#[verifier::spinoff_prover]
pub proof fn lemma_parse_print(j: JsonV, rest: Seq<char>)
    requires
        wf(j),
        rest.len() == 0 || is_delim(rest[0]),
    ensures
        sp_value(print_value(j) + rest) == Some((j, rest)),
    decreases j, 0int,
{
    let input = print_value(j) + rest;
    lemma_print_first_char(j);
    assert(input[0] == print_value(j)[0]);
    lemma_sp_ws_noop(input);
    match j {
        JsonV::Null => {
            assert(input =~= seq!['n', 'u', 'l', 'l'] + rest);
            assert(input[0] == 'n' && input[1] == 'u' && input[2] == 'l' && input[3] == 'l');
            assert(input.skip(4) =~= rest);
        },
        JsonV::Bool(b) => {
            if b {
                assert(input =~= seq!['t', 'r', 'u', 'e'] + rest);
                assert(input[0] == 't' && input[1] == 'r' && input[2] == 'u' && input[3] == 'e');
                assert(input.skip(4) =~= rest);
            } else {
                assert(input =~= seq!['f', 'a', 'l', 's', 'e'] + rest);
                assert(input[0] == 'f' && input[1] == 'a' && input[2] == 'l' && input[3] == 's'
                    && input[4] == 'e');
                assert(input.skip(5) =~= rest);
            }
        },
        JsonV::Num(_) => {},
        JsonV::Str(s) => {
            assert(input[0] == '"');
            assert(input.drop_first() =~= print_string_body(s) + seq!['"'] + rest);
            lemma_parse_print_string(s, rest);
        },
        JsonV::Arr(es) => {
            assert(input[0] == '[');
            let inner = print_elements_from(es, 0) + seq![']'] + rest;
            assert(input.drop_first() =~= inner);
            if es.len() == 0 {
                assert(print_elements_from(es, 0) =~= Seq::<char>::empty());
                assert(inner =~= seq![']'] + rest);
                lemma_sp_ws_noop(inner);
                assert(inner[0] == ']');
                assert(inner.drop_first() =~= rest);
                assert(es =~= Seq::<JsonV>::empty());
            } else {
                assert(wf(es[0]));
                lemma_print_first_char(es[0]);
                assert(print_elements_from(es, 0)[0] == print_value(es[0])[0]);
                assert(inner[0] == print_value(es[0])[0]);
                lemma_sp_ws_noop(inner);
                assert(inner[0] != ']');
                assert(decreases_to!(j => es));
                lemma_parse_print_elements(es, 0, rest);
                assert(es.skip(0) =~= es);
            }
        },
        JsonV::Obj(ms) => {
            assert(input[0] == '{');
            let inner = print_members_from(ms, 0) + seq!['}'] + rest;
            assert(input.drop_first() =~= inner);
            if ms.len() == 0 {
                assert(print_members_from(ms, 0) =~= Seq::<char>::empty());
                assert(inner =~= seq!['}'] + rest);
                lemma_sp_ws_noop(inner);
                assert(inner[0] == '}');
                assert(inner.drop_first() =~= rest);
                assert(ms =~= Seq::<(Seq<char>, JsonV)>::empty());
            } else {
                assert(print_members_from(ms, 0)[0] == print_string(ms[0].0)[0]);
                assert(print_string(ms[0].0)[0] == '"');
                assert(inner[0] == '"');
                lemma_sp_ws_noop(inner);
                assert(inner[0] != '}');
                assert(decreases_to!(j => ms));
                lemma_parse_print_members(ms, 0, rest);
                assert(ms.skip(0) =~= ms);
            }
        },
    }
}

/// Parsing printed array elements from position `i` on consumes them
/// and the closing bracket.
#[verifier::rlimit(100)]
#[verifier::spinoff_prover]
pub proof fn lemma_parse_print_elements(es: Seq<JsonV>, i: int, rest: Seq<char>)
    requires
        0 <= i < es.len(),
        wf_elements_from(es, i),
        rest.len() == 0 || is_delim(rest[0]),
    ensures
        sp_elements(print_elements_from(es, i) + seq![']'] + rest) == Some((es.skip(i), rest)),
    decreases es, es.len() - i, 1int,
{
    assert(decreases_to!(es => es[i]));
    let input = print_elements_from(es, i) + seq![']'] + rest;
    assert(wf(es[i]));
    lemma_print_first_char(es[i]);
    if i == es.len() - 1 {
        let rest1 = seq![']'] + rest;
        assert(input =~= print_value(es[i]) + rest1);
        assert(rest1[0] == ']');
        lemma_parse_print(es[i], rest1);
        lemma_sp_ws_noop(rest1);
        assert(rest1.len() < input.len());
        assert(rest1.drop_first() =~= rest);
        assert(seq![es[i]] =~= es.skip(i));
    } else {
        let tail2 = print_elements_from(es, i + 1) + seq![']'] + rest;
        let rest1 = seq![','] + tail2;
        assert(print_elements_from(es, i) =~= print_value(es[i]) + seq![',']
            + print_elements_from(es, i + 1));
        assert(input =~= print_value(es[i]) + rest1);
        assert(rest1[0] == ',');
        lemma_parse_print(es[i], rest1);
        lemma_sp_ws_noop(rest1);
        assert(rest1.len() < input.len());
        assert(rest1.drop_first() =~= tail2);
        lemma_parse_print_elements(es, i + 1, rest);
        assert(seq![es[i]] + es.skip(i + 1) =~= es.skip(i));
    }
}

/// Parsing printed object members from position `i` on consumes them
/// and the closing brace.
#[verifier::rlimit(100)]
#[verifier::spinoff_prover]
pub proof fn lemma_parse_print_members(ms: Seq<(Seq<char>, JsonV)>, i: int, rest: Seq<char>)
    requires
        0 <= i < ms.len(),
        wf_members_from(ms, i),
        rest.len() == 0 || is_delim(rest[0]),
    ensures
        sp_members(print_members_from(ms, i) + seq!['}'] + rest) == Some((ms.skip(i), rest)),
    decreases ms, ms.len() - i, 1int,
{
    assert(decreases_to!(ms => ms[i]));
    assert(decreases_to!(ms[i] => ms[i].1));
    let k = ms[i].0;
    let v = ms[i].1;
    assert(wf(v));
    lemma_print_first_char(v);
    let input = print_members_from(ms, i) + seq!['}'] + rest;
    let rest2: Seq<char> = if i == ms.len() - 1 {
        seq!['}'] + rest
    } else {
        seq![','] + (print_members_from(ms, i + 1) + seq!['}'] + rest)
    };
    assert(rest2[0] == '}' || rest2[0] == ',');
    let key_rest = seq![':'] + (print_value(v) + rest2);
    if i == ms.len() - 1 {
        assert(input =~= (seq!['"'] + print_string_body(k) + seq!['"']) + key_rest);
    } else {
        assert(print_members_from(ms, i) =~= print_string(k) + seq![':'] + print_value(v)
            + seq![','] + print_members_from(ms, i + 1));
        assert(input =~= (seq!['"'] + print_string_body(k) + seq!['"']) + key_rest);
    }
    assert(input[0] == '"');
    lemma_sp_ws_noop(input);
    assert(input.drop_first() =~= print_string_body(k) + seq!['"'] + key_rest);
    lemma_parse_print_string(k, key_rest);
    assert(key_rest.len() < input.len());
    assert(key_rest[0] == ':');
    lemma_sp_ws_noop(key_rest);
    assert(key_rest.drop_first() =~= print_value(v) + rest2);
    lemma_parse_print(v, rest2);
    assert(rest2.len() < input.len());
    lemma_sp_ws_noop(rest2);
    if i == ms.len() - 1 {
        assert(rest2[0] == '}');
        assert(rest2.drop_first() =~= rest);
        assert((k, v) == ms[i]);
        assert(seq![(k, v)] =~= ms.skip(i));
    } else {
        assert(rest2[0] == ',');
        assert(rest2.drop_first() =~= print_members_from(ms, i + 1) + seq!['}'] + rest);
        lemma_parse_print_members(ms, i + 1, rest);
        assert(seq![(k, v)] + ms.skip(i + 1) =~= ms.skip(i));
    }
}

/// A printed well-formed value parses back as a complete document.
pub proof fn lemma_parse_print_document(j: JsonV)
    requires
        wf(j),
    ensures
        sp_document(print_value(j)) == Some(j),
{
    lemma_parse_print(j, Seq::empty());
    assert(print_value(j) + Seq::<char>::empty() =~= print_value(j));
    assert(sp_ws(Seq::<char>::empty()).len() == 0);
}

} // verus!
