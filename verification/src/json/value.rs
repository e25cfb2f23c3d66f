//! JSON values: the executable tree and its mathematical model.

use vstd::prelude::*;

verus! {

broadcast use vstd::seq::group_seq_axioms, vstd::std_specs::vec::group_vec_axioms;

/// The mathematical model of a JSON value.
///
/// A number is kept as its unparsed lexeme: the protocol transmits every
/// integer of interest as a *string*, so the library never interprets a
/// raw JSON number, it only carries one through.  Object members keep
/// their wire order.
#[verifier::ext_equal]
pub enum JsonV {
    Null,
    Bool(bool),
    Num(Seq<char>),
    Str(Seq<char>),
    Arr(Seq<JsonV>),
    Obj(Seq<(Seq<char>, JsonV)>),
}

/// An executable JSON value, mirroring [`JsonV`].
pub enum Json {
    Null,
    Bool(bool),
    Num(Vec<char>),
    Str(Vec<char>),
    Arr(Vec<Json>),
    Obj(Vec<(Vec<char>, Json)>),
}

/// The model of an executable JSON value.
pub open spec fn json_view(j: Json) -> JsonV
    decreases j, 0int,
    via json_view_decreases
{
    match j {
        Json::Null => JsonV::Null,
        Json::Bool(b) => JsonV::Bool(b),
        Json::Num(s) => JsonV::Num(s@),
        Json::Str(s) => JsonV::Str(s@),
        Json::Arr(v) => JsonV::Arr(element_views_from(v@, 0)),
        Json::Obj(v) => JsonV::Obj(member_views_from(v@, 0)),
    }
}

/// The models of the elements of `s` from position `i` on.
pub open spec fn element_views_from(s: Seq<Json>, i: int) -> Seq<JsonV>
    decreases s, s.len() - i, 1int,
    via element_views_from_decreases
{
    if i < 0 || i >= s.len() {
        Seq::empty()
    } else {
        seq![json_view(s[i])] + element_views_from(s, i + 1)
    }
}

/// The models of the members of `s` from position `i` on.
pub open spec fn member_views_from(s: Seq<(Vec<char>, Json)>, i: int) -> Seq<(Seq<char>, JsonV)>
    decreases s, s.len() - i, 1int,
    via member_views_from_decreases
{
    if i < 0 || i >= s.len() {
        Seq::empty()
    } else {
        seq![(s[i].0@, json_view(s[i].1))] + member_views_from(s, i + 1)
    }
}

#[via_fn]
proof fn json_view_decreases(j: Json) {
    match j {
        Json::Arr(v) => {
            assert(decreases_to!(j => v));
            assert(decreases_to!(v => v@));
        },
        Json::Obj(v) => {
            assert(decreases_to!(j => v));
            assert(decreases_to!(v => v@));
        },
        _ => {},
    }
}

#[via_fn]
proof fn element_views_from_decreases(s: Seq<Json>, i: int) {
    if 0 <= i < s.len() {
        assert(decreases_to!(s => s[i]));
    }
}

#[via_fn]
proof fn member_views_from_decreases(s: Seq<(Vec<char>, Json)>, i: int) {
    if 0 <= i < s.len() {
        assert(decreases_to!(s => s[i]));
        assert(decreases_to!(s[i] => s[i].1));
    }
}

/// The views of a sequence of executable values, in order.
pub open spec fn views_of(es: Seq<Json>) -> Seq<JsonV> {
    Seq::new(es.len(), |i: int| json_view(es[i]))
}

/// The views of a sequence of executable object members, in order.
pub open spec fn member_views_of(ms: Seq<(Vec<char>, Json)>) -> Seq<(Seq<char>, JsonV)> {
    Seq::new(ms.len(), |i: int| (ms[i].0@, json_view(ms[i].1)))
}

proof fn lemma_element_views_from(s: Seq<Json>, i: int)
    requires
        0 <= i <= s.len(),
    ensures
        element_views_from(s, i).len() == s.len() - i,
        forall|k: int|
            i <= k < s.len() ==> element_views_from(s, i)[k - i] == json_view(#[trigger] s[k]),
    decreases s.len() - i,
{
    if i < s.len() {
        lemma_element_views_from(s, i + 1);
    }
}

proof fn lemma_member_views_from(s: Seq<(Vec<char>, Json)>, i: int)
    requires
        0 <= i <= s.len(),
    ensures
        member_views_from(s, i).len() == s.len() - i,
        forall|k: int|
            i <= k < s.len() ==> member_views_from(s, i)[k - i] == (
            #[trigger] s[k].0@,
            json_view(s[k].1),
            ),
    decreases s.len() - i,
{
    if i < s.len() {
        lemma_member_views_from(s, i + 1);
    }
}

/// An array's model is the pointwise model of its elements.
pub broadcast proof fn lemma_json_view_arr(v: Vec<Json>)
    ensures
        #[trigger] json_view(Json::Arr(v)) == JsonV::Arr(views_of(v@)),
{
    lemma_element_views_from(v@, 0);
    assert(element_views_from(v@, 0) =~= views_of(v@));
}

/// An object's model is the pointwise model of its members.
pub broadcast proof fn lemma_json_view_obj(v: Vec<(Vec<char>, Json)>)
    ensures
        #[trigger] json_view(Json::Obj(v)) == JsonV::Obj(member_views_of(v@)),
{
    lemma_member_views_from(v@, 0);
    assert(member_views_from(v@, 0) =~= member_views_of(v@));
}

impl View for Json {
    type V = JsonV;

    open spec fn view(&self) -> JsonV {
        json_view(*self)
    }
}

/// The first member of `membs` named `key`, if any.  Envelope decoding
/// reads objects only through this lookup, so a member's position never
/// matters, only its name.
pub open spec fn lookup(membs: Seq<(Seq<char>, JsonV)>, key: Seq<char>) -> Option<JsonV>
    decreases membs.len(),
{
    if membs.len() == 0 {
        None
    } else if membs[0].0 == key {
        Some(membs[0].1)
    } else {
        lookup(membs.drop_first(), key)
    }
}

/// Looking a key up finds the member at `i` when no earlier member
/// has that name.
pub proof fn lemma_lookup_at(membs: Seq<(Seq<char>, JsonV)>, key: Seq<char>, i: int)
    requires
        0 <= i < membs.len(),
        membs[i].0 == key,
        forall|j: int| 0 <= j < i ==> (#[trigger] membs[j]).0 != key,
    ensures
        lookup(membs, key) == Some(membs[i].1),
    decreases i,
{
    if i > 0 {
        lemma_lookup_at(membs.drop_first(), key, i - 1);
    }
}

} // verus!
