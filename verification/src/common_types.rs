//! Shared protocol types: credentials and the wire record-type set.

use vstd::prelude::*;

use crate::json::print::{print_json, print_value};
use crate::json::value::{lemma_json_view_obj, member_views_of, Json, JsonV};
use crate::text::{chars_string, str_chars};

verus! {

broadcast use
    vstd::seq::group_seq_axioms,
    vstd::std_specs::vec::group_vec_axioms,
    lemma_json_view_obj,
;

/// The API key/secret pair the registrar authenticates with.  On the
/// wire the pair travels under the names `apikey` and `secretapikey`.
/// Never logged, never persisted.
#[derive(Debug)]
pub struct Credentials {
    pub api_key: String,
    pub secret_key: String,
}

/// The record types the retrieve endpoint may deliver.  This is the
/// wire-side superset; the configuration-side set is narrower.
#[derive(Debug, Clone, Copy, PartialEq, Eq, Structural)]
pub enum RecordType {
    A,
    MX,
    CNAME,
    ALIAS,
    TXT,
    NS,
    AAAA,
    SRV,
    TLSA,
    CAA,
}

/// The wire name of a record type.
pub open spec fn record_type_name(t: RecordType) -> Seq<char> {
    match t {
        RecordType::A => seq!['A'],
        RecordType::MX => seq!['M', 'X'],
        RecordType::CNAME => seq!['C', 'N', 'A', 'M', 'E'],
        RecordType::ALIAS => seq!['A', 'L', 'I', 'A', 'S'],
        RecordType::TXT => seq!['T', 'X', 'T'],
        RecordType::NS => seq!['N', 'S'],
        RecordType::AAAA => seq!['A', 'A', 'A', 'A'],
        RecordType::SRV => seq!['S', 'R', 'V'],
        RecordType::TLSA => seq!['T', 'L', 'S', 'A'],
        RecordType::CAA => seq!['C', 'A', 'A'],
    }
}

/// The record type a wire name denotes, if any.
pub open spec fn record_type_of_name(s: Seq<char>) -> Option<RecordType> {
    if s == record_type_name(RecordType::A) {
        Some(RecordType::A)
    } else if s == record_type_name(RecordType::MX) {
        Some(RecordType::MX)
    } else if s == record_type_name(RecordType::CNAME) {
        Some(RecordType::CNAME)
    } else if s == record_type_name(RecordType::ALIAS) {
        Some(RecordType::ALIAS)
    } else if s == record_type_name(RecordType::TXT) {
        Some(RecordType::TXT)
    } else if s == record_type_name(RecordType::NS) {
        Some(RecordType::NS)
    } else if s == record_type_name(RecordType::AAAA) {
        Some(RecordType::AAAA)
    } else if s == record_type_name(RecordType::SRV) {
        Some(RecordType::SRV)
    } else if s == record_type_name(RecordType::TLSA) {
        Some(RecordType::TLSA)
    } else if s == record_type_name(RecordType::CAA) {
        Some(RecordType::CAA)
    } else {
        None
    }
}

/// Naming a record type and reading the name back is the identity.
pub proof fn lemma_record_type_roundtrip(t: RecordType)
    ensures
        record_type_of_name(record_type_name(t)) == Some(t),
{
    let na = record_type_name(RecordType::A);
    let nmx = record_type_name(RecordType::MX);
    let ncname = record_type_name(RecordType::CNAME);
    let nalias = record_type_name(RecordType::ALIAS);
    let ntxt = record_type_name(RecordType::TXT);
    let nns = record_type_name(RecordType::NS);
    let naaaa = record_type_name(RecordType::AAAA);
    let nsrv = record_type_name(RecordType::SRV);
    let ntlsa = record_type_name(RecordType::TLSA);
    let ncaa = record_type_name(RecordType::CAA);
    assert(na.len() == 1 && na[0] == 'A');
    assert(nmx.len() == 2 && nmx[0] == 'M');
    assert(ncname.len() == 5 && ncname[0] == 'C');
    assert(nalias.len() == 5 && nalias[0] == 'A');
    assert(ntxt.len() == 3 && ntxt[0] == 'T');
    assert(nns.len() == 2 && nns[0] == 'N');
    assert(naaaa.len() == 4 && naaaa[0] == 'A');
    assert(nsrv.len() == 3 && nsrv[0] == 'S');
    assert(ntlsa.len() == 4 && ntlsa[0] == 'T');
    assert(ncaa.len() == 3 && ncaa[0] == 'C');
}

/// Decode a wire record-type name.
pub fn parse_record_type(v: &Vec<char>) -> (r: Option<RecordType>)
    ensures
        r == record_type_of_name(v@),
{
    let n = v.len();
    let r: Option<RecordType> = if n == 1 && v[0] == 'A' {
        Some(RecordType::A)
    } else if n == 2 && v[0] == 'M' && v[1] == 'X' {
        Some(RecordType::MX)
    } else if n == 5 && v[0] == 'C' && v[1] == 'N' && v[2] == 'A' && v[3] == 'M' && v[4] == 'E' {
        Some(RecordType::CNAME)
    } else if n == 5 && v[0] == 'A' && v[1] == 'L' && v[2] == 'I' && v[3] == 'A' && v[4] == 'S' {
        Some(RecordType::ALIAS)
    } else if n == 3 && v[0] == 'T' && v[1] == 'X' && v[2] == 'T' {
        Some(RecordType::TXT)
    } else if n == 2 && v[0] == 'N' && v[1] == 'S' {
        Some(RecordType::NS)
    } else if n == 4 && v[0] == 'A' && v[1] == 'A' && v[2] == 'A' && v[3] == 'A' {
        Some(RecordType::AAAA)
    } else if n == 3 && v[0] == 'S' && v[1] == 'R' && v[2] == 'V' {
        Some(RecordType::SRV)
    } else if n == 4 && v[0] == 'T' && v[1] == 'L' && v[2] == 'S' && v[3] == 'A' {
        Some(RecordType::TLSA)
    } else if n == 3 && v[0] == 'C' && v[1] == 'A' && v[2] == 'A' {
        Some(RecordType::CAA)
    } else {
        None
    };
    proof {
        match r {
            Some(t) => {
                assert(v@ =~= record_type_name(t));
            },
            None => {},
        }
    }
    r
}

/// The wire name of a record type, as characters.
pub fn record_type_chars(t: &RecordType) -> (v: Vec<char>)
    ensures
        v@ == record_type_name(*t),
{
    let mut v: Vec<char> = Vec::new();
    match t {
        RecordType::A => {
            v.push('A');
        },
        RecordType::MX => {
            v.push('M');
            v.push('X');
        },
        RecordType::CNAME => {
            v.push('C');
            v.push('N');
            v.push('A');
            v.push('M');
            v.push('E');
        },
        RecordType::ALIAS => {
            v.push('A');
            v.push('L');
            v.push('I');
            v.push('A');
            v.push('S');
        },
        RecordType::TXT => {
            v.push('T');
            v.push('X');
            v.push('T');
        },
        RecordType::NS => {
            v.push('N');
            v.push('S');
        },
        RecordType::AAAA => {
            v.push('A');
            v.push('A');
            v.push('A');
            v.push('A');
        },
        RecordType::SRV => {
            v.push('S');
            v.push('R');
            v.push('V');
        },
        RecordType::TLSA => {
            v.push('T');
            v.push('L');
            v.push('S');
            v.push('A');
        },
        RecordType::CAA => {
            v.push('C');
            v.push('A');
            v.push('A');
        },
    }
    proof {
        assert(v@ =~= record_type_name(*t));
    }
    v
}

/// The wire name of the API key field.
pub open spec fn apikey_key() -> Seq<char> {
    seq!['a', 'p', 'i', 'k', 'e', 'y']
}

/// The wire name of the API secret field.
pub open spec fn secretapikey_key() -> Seq<char> {
    seq!['s', 'e', 'c', 'r', 'e', 't', 'a', 'p', 'i', 'k', 'e', 'y']
}

/// The request envelope every call posts: the credential pair under
/// its wire names, in wire order.
pub open spec fn credentials_json(api_key: Seq<char>, secret_key: Seq<char>) -> JsonV {
    JsonV::Obj(
        seq![
            (apikey_key(), JsonV::Str(api_key)),
            (secretapikey_key(), JsonV::Str(secret_key)),
        ],
    )
}

/// Serialize the request envelope: exactly the canonical print of
/// [`credentials_json`].
pub fn request_body(c: &Credentials) -> (s: String)
    ensures
        s@ == print_value(credentials_json(c.api_key@, c.secret_key@)),
{
    let mut key1: Vec<char> = Vec::new();
    key1.push('a');
    key1.push('p');
    key1.push('i');
    key1.push('k');
    key1.push('e');
    key1.push('y');
    let mut key2: Vec<char> = Vec::new();
    key2.push('s');
    key2.push('e');
    key2.push('c');
    key2.push('r');
    key2.push('e');
    key2.push('t');
    key2.push('a');
    key2.push('p');
    key2.push('i');
    key2.push('k');
    key2.push('e');
    key2.push('y');
    proof {
        assert(key1@ =~= apikey_key());
        assert(key2@ =~= secretapikey_key());
    }
    let mut ms: Vec<(Vec<char>, Json)> = Vec::new();
    ms.push((key1, Json::Str(str_chars(c.api_key.as_str()))));
    ms.push((key2, Json::Str(str_chars(c.secret_key.as_str()))));
    let ghost msv = ms@;
    let j = Json::Obj(ms);
    proof {
        assert(member_views_of(msv) =~= seq![
            (apikey_key(), JsonV::Str(c.api_key@)),
            (secretapikey_key(), JsonV::Str(c.secret_key@)),
        ]);
        assert(j@ == credentials_json(c.api_key@, c.secret_key@));
    }
    let mut out: Vec<char> = Vec::new();
    print_json(&j, &mut out);
    chars_string(out)
}

} // verus!
