//! Reading the registrar's response envelopes out of a JSON value.
//!
//! Every envelope is an object read field by field, by name: a field's
//! position in the object never matters.  The failure envelope shape
//! (`status` and `message`, both strings) is shared by every endpoint
//! and lives here; the success shapes are per endpoint.

use vstd::prelude::*;

use crate::json::value::{json_view, lookup, member_views_of, Json, JsonV};
use crate::text::{chars_eq_str, clone_chars};

verus! {

broadcast use vstd::seq::group_seq_axioms, vstd::std_specs::vec::group_vec_axioms;

/// The failure envelope: an object with string fields `status` and
/// `message`, whatever else it carries.
pub open spec fn failure_of(j: JsonV) -> Option<(Seq<char>, Seq<char>)> {
    match j {
        JsonV::Obj(ms) => match (lookup(ms, "status"@), lookup(ms, "message"@)) {
            (Some(JsonV::Str(st)), Some(JsonV::Str(m))) => Some((st, m)),
            _ => None,
        },
        _ => None,
    }
}

/// The first member named `key`, if any: exactly what [`lookup`] finds.
pub fn find_field<'a>(ms: &'a Vec<(Vec<char>, Json)>, key: &str) -> (r: Option<&'a Json>)
    ensures
        r matches Some(j) ==> lookup(member_views_of(ms@), key@) == Some(j@),
        r is None ==> lookup(member_views_of(ms@), key@) is None,
{
    let ghost mv = member_views_of(ms@);
    proof {
        assert(mv.skip(0) =~= mv);
    }
    let mut k: usize = 0;
    while k < ms.len()
        invariant
            k <= ms@.len(),
            mv == member_views_of(ms@),
            lookup(mv, key@) == lookup(mv.skip(k as int), key@),
        decreases ms@.len() - k,
    {
        proof {
            assert(mv.skip(k as int)[0] == mv[k as int]);
            assert(mv.skip(k as int).drop_first() =~= mv.skip(k + 1));
        }
        if chars_eq_str(&ms[k].0, key) {
            return Some(&ms[k].1);
        }
        k = k + 1;
    }
    proof {
        assert(mv.skip(k as int).len() == 0);
    }
    None
}

/// The content of the string field named `key`: `Some` exactly where
/// the object holds such a member and it is a string.
pub fn str_field(ms: &Vec<(Vec<char>, Json)>, key: &str) -> (r: Option<Vec<char>>)
    ensures
        r matches Some(v) ==> lookup(member_views_of(ms@), key@) == Some(JsonV::Str(v@)),
        r is None ==> !(lookup(member_views_of(ms@), key@) matches Some(JsonV::Str(_))),
{
    match find_field(ms, key) {
        None => None,
        Some(j) => match j {
            Json::Str(s) => Some(clone_chars(s)),
            _ => None,
        },
    }
}

} // verus!
