//! The retrieve-records-by-domain endpoint.
//!
//! One POST of the credentials envelope to `{retrieve-base}/{domain}`;
//! the response is one JSON body in one of two shapes.  The success
//! shape is tried first, the failure shape second: the failure shape is
//! a structural prefix of success shapes, so the other order would
//! accept successes spuriously.  The `status` string itself never
//! drives control flow.  The integer fields of a record travel as
//! decimal strings and go through the one coercion helper in
//! [`crate::wire`].

use vstd::prelude::*;

use crate::client::HttpClient;
use crate::common_types::{
    parse_record_type, record_type_chars, record_type_of_name, request_body, Credentials,
    RecordType,
};
use crate::constants::retrieve_url;
use crate::envelope::{failure_of, find_field, str_field};
use crate::json::parse::{parse_document, sp_document};
use crate::json::print::{print_json, print_value};
use crate::json::roundtrip::{lemma_parse_print_document, wf, wf_elements_from, wf_members_from};
use crate::json::value::{
    json_view, lemma_json_view_arr, lemma_json_view_obj, lemma_lookup_at, lookup, member_views_of,
    views_of, Json, JsonV,
};
use crate::text::{chars_eq_str, chars_string, str_chars};
use crate::wire::{i32_to_wire, parse_wire_i32, wire_i32_spec};

verus! {

broadcast use
    vstd::seq::group_seq_axioms,
    vstd::std_specs::vec::group_vec_axioms,
    lemma_json_view_arr,
    lemma_json_view_obj,
;

/// One DNS record as the registrar delivers it, with its integer
/// fields already coerced.
#[derive(Debug, PartialEq)]
pub struct RetrieveRecord {
    pub id: i32,
    pub name: String,
    pub record_type: RecordType,
    pub content: String,
    pub ttl: i32,
    pub prio: Option<i32>,
    pub notes: Option<String>,
}

/// The model of a decoded record.
pub struct RecordV {
    pub id: i32,
    pub name: Seq<char>,
    pub record_type: RecordType,
    pub content: Seq<char>,
    pub ttl: i32,
    pub prio: Option<i32>,
    pub notes: Option<Seq<char>>,
}

impl View for RetrieveRecord {
    type V = RecordV;

    open spec fn view(&self) -> RecordV {
        RecordV {
            id: self.id,
            name: self.name@,
            record_type: self.record_type,
            content: self.content@,
            ttl: self.ttl,
            prio: self.prio,
            notes: match self.notes {
                Some(ref s) => Some(s@),
                None => None,
            },
        }
    }
}

/// Whether the domain is fronted by Cloudflare at the registrar.
#[derive(Debug, Clone, Copy, PartialEq, Eq, Structural)]
pub enum CloudFlareStatus {
    Enabled,
    Disabled,
}

/// A decoded success envelope: the `status` string (informational
/// only), the Cloudflare flag, and the records in server order.
#[derive(Debug, PartialEq)]
pub struct RetrieveSuccessResponse {
    pub status: String,
    pub cloudflare_status: CloudFlareStatus,
    pub records: Vec<RetrieveRecord>,
}

/// The model of a decoded success envelope.
pub struct SuccessV {
    pub status: Seq<char>,
    pub cloudflare_status: CloudFlareStatus,
    pub records: Seq<RecordV>,
}

impl View for RetrieveSuccessResponse {
    type V = SuccessV;

    open spec fn view(&self) -> SuccessV {
        SuccessV {
            status: self.status@,
            cloudflare_status: self.cloudflare_status,
            records: Seq::new(self.records@.len(), |i: int| self.records@[i]@),
        }
    }
}

/// A decoded failure envelope.
#[derive(Debug, PartialEq)]
pub struct RetrieveErrorResponse {
    pub status: String,
    pub message: String,
}

/// The error taxonomy of the retrieve endpoint.  The first six kinds
/// come from the exact-message table; the last three are the
/// decoder's and the transport's own.
#[derive(Debug, Clone, Copy, PartialEq, Eq, Structural)]
pub enum RetrieveError {
    InvalidCredentials,
    MissingAPIKey,
    InvalidAPIKey,
    InvalidSecretKey,
    InvalidDomain,
    InvalidPermissions,
    Unknown,
    ResponseDecodeError,
    TransportError,
}

/// The raw decode of a retrieve response body, before error mapping:
/// one of the two envelope shapes.
#[derive(Debug)]
pub enum RetrieveResponse {
    Success(RetrieveSuccessResponse),
    Failure(RetrieveErrorResponse),
}

/// An optional wire-integer field: `Some(None)` where the field is
/// absent or null, `Some(Some(v))` where it is a string that coerces,
/// `None` where the decode must fail.
pub open spec fn opt_i32_field(ms: Seq<(Seq<char>, JsonV)>, key: Seq<char>) -> Option<Option<i32>> {
    match lookup(ms, key) {
        None => Some(None),
        Some(JsonV::Null) => Some(None),
        Some(JsonV::Str(s)) => match wire_i32_spec(s) {
            Some(v) => Some(Some(v)),
            None => None,
        },
        Some(_) => None,
    }
}

/// An optional string field: absent and null are both *unset*; an
/// empty string stays an empty string.
pub open spec fn opt_str_field(ms: Seq<(Seq<char>, JsonV)>, key: Seq<char>) -> Option<
    Option<Seq<char>>,
> {
    match lookup(ms, key) {
        None => Some(None),
        Some(JsonV::Null) => Some(None),
        Some(JsonV::Str(s)) => Some(Some(s)),
        Some(_) => None,
    }
}

/// One record object: every required field present with the right
/// shape, integers coerced, the record type drawn from the wire set.
pub open spec fn record_of(j: JsonV) -> Option<RecordV> {
    match j {
        JsonV::Obj(ms) => match (
            lookup(ms, "id"@),
            lookup(ms, "name"@),
            lookup(ms, "type"@),
            lookup(ms, "content"@),
            lookup(ms, "ttl"@),
        ) {
            (
                Some(JsonV::Str(ids)),
                Some(JsonV::Str(nm)),
                Some(JsonV::Str(ts)),
                Some(JsonV::Str(ct)),
                Some(JsonV::Str(ttls)),
            ) => match (wire_i32_spec(ids), record_type_of_name(ts), wire_i32_spec(ttls)) {
                (Some(id), Some(rt), Some(ttl)) => match (
                    opt_i32_field(ms, "prio"@),
                    opt_str_field(ms, "notes"@),
                ) {
                    (Some(prio), Some(notes)) => Some(
                        RecordV {
                            id: id,
                            name: nm,
                            record_type: rt,
                            content: ct,
                            ttl: ttl,
                            prio: prio,
                            notes: notes,
                        },
                    ),
                    _ => None,
                },
                _ => None,
            },
            _ => None,
        },
        _ => None,
    }
}

/// A record list, in order; one bad record fails the whole list.
pub open spec fn records_of(es: Seq<JsonV>) -> Option<Seq<RecordV>>
    decreases es.len(),
{
    if es.len() == 0 {
        Some(Seq::empty())
    } else {
        match record_of(es[0]) {
            None => None,
            Some(r) => match records_of(es.drop_first()) {
                None => None,
                Some(rs) => Some(seq![r] + rs),
            },
        }
    }
}

/// The Cloudflare flag's wire form, lowercase.
pub open spec fn cloudflare_of(s: Seq<char>) -> Option<CloudFlareStatus> {
    if s == "enabled"@ {
        Some(CloudFlareStatus::Enabled)
    } else if s == "disabled"@ {
        Some(CloudFlareStatus::Disabled)
    } else {
        None
    }
}

/// The success envelope: string `status`, the Cloudflare flag, and an
/// array of well-formed records.
pub open spec fn success_of(j: JsonV) -> Option<SuccessV> {
    match j {
        JsonV::Obj(ms) => match (
            lookup(ms, "status"@),
            lookup(ms, "cloudflare"@),
            lookup(ms, "records"@),
        ) {
            (Some(JsonV::Str(st)), Some(JsonV::Str(cf)), Some(JsonV::Arr(es))) => match (
                cloudflare_of(cf),
                records_of(es),
            ) {
                (Some(flag), Some(rs)) => Some(
                    SuccessV { status: st, cloudflare_status: flag, records: rs },
                ),
                _ => None,
            },
            _ => None,
        },
        _ => None,
    }
}

/// The model of a raw decode: which envelope the body held.
pub enum RetrieveResponseV {
    Success(SuccessV),
    Failure(Seq<char>, Seq<char>),
}

impl View for RetrieveResponse {
    type V = RetrieveResponseV;

    open spec fn view(&self) -> RetrieveResponseV {
        match self {
            RetrieveResponse::Success(s) => RetrieveResponseV::Success(s@),
            RetrieveResponse::Failure(f) => RetrieveResponseV::Failure(f.status@, f.message@),
        }
    }
}

/// The raw decode of a body: the success shape is tried first, the
/// failure shape second; a body in neither shape is undecodable.
pub open spec fn retrieve_envelope_of(body: Seq<char>) -> Option<RetrieveResponseV> {
    match sp_document(body) {
        None => None,
        Some(j) => match success_of(j) {
            Some(s) => Some(RetrieveResponseV::Success(s)),
            None => match failure_of(j) {
                Some((st, m)) => Some(RetrieveResponseV::Failure(st, m)),
                None => None,
            },
        },
    }
}

/// The exact-message table of the endpoint: each listed message to its
/// kind, any other message to `Unknown`.  No substring matching, no
/// case folding.
pub open spec fn retrieve_error_of_message(m: Seq<char>) -> RetrieveError {
    if m == "All API requests must provide minimal required data."@ {
        RetrieveError::InvalidCredentials
    } else if m == "All API requests require an API key."@ {
        RetrieveError::MissingAPIKey
    } else if m == "Invalid API key. (001)"@ {
        RetrieveError::InvalidAPIKey
    } else if m == "Invalid API key. (002)"@ {
        RetrieveError::InvalidSecretKey
    } else if m == "Invalid domain."@ {
        RetrieveError::InvalidDomain
    } else if m == "Domain is not opted in to API access."@ {
        RetrieveError::InvalidPermissions
    } else {
        RetrieveError::Unknown
    }
}

/// What a retrieve call returns for a given response body, whatever
/// the transport: the decoded success, the mapped failure message, or
/// `ResponseDecodeError` for a body in neither shape.
pub open spec fn retrieve_body_outcome(body: Seq<char>) -> Result<SuccessV, RetrieveError> {
    match retrieve_envelope_of(body) {
        None => Err(RetrieveError::ResponseDecodeError),
        Some(RetrieveResponseV::Success(s)) => Ok(s),
        Some(RetrieveResponseV::Failure(st, m)) => Err(retrieve_error_of_message(m)),
    }
}

/// The model of an executable retrieve result.
pub open spec fn retrieve_result_view(r: Result<RetrieveSuccessResponse, RetrieveError>) -> Result<
    SuccessV,
    RetrieveError,
> {
    match r {
        Ok(s) => Ok(s@),
        Err(e) => Err(e),
    }
}

/// Decode one record object.
fn decode_record(j: &Json) -> (r: Option<RetrieveRecord>)
    ensures
        r matches Some(rec) ==> record_of(j@) == Some(rec@),
        r is None ==> record_of(j@) is None,
{
    match j {
        Json::Obj(ms) => {
            let ids = match str_field(ms, "id") {
                Some(v) => v,
                None => {
                    return None;
                },
            };
            let nm = match str_field(ms, "name") {
                Some(v) => v,
                None => {
                    return None;
                },
            };
            let ts = match str_field(ms, "type") {
                Some(v) => v,
                None => {
                    return None;
                },
            };
            let ct = match str_field(ms, "content") {
                Some(v) => v,
                None => {
                    return None;
                },
            };
            let ttls = match str_field(ms, "ttl") {
                Some(v) => v,
                None => {
                    return None;
                },
            };
            let id = match parse_wire_i32(ids.as_slice()) {
                Some(x) => x,
                None => {
                    return None;
                },
            };
            let rt = match parse_record_type(&ts) {
                Some(x) => x,
                None => {
                    return None;
                },
            };
            let ttl = match parse_wire_i32(ttls.as_slice()) {
                Some(x) => x,
                None => {
                    return None;
                },
            };
            let prio: Option<i32> = match find_field(ms, "prio") {
                None => None,
                Some(pj) => match pj {
                    Json::Null => None,
                    Json::Str(s) => match parse_wire_i32(s.as_slice()) {
                        Some(p) => Some(p),
                        None => {
                            return None;
                        },
                    },
                    _ => {
                        return None;
                    },
                },
            };
            let notes: Option<String> = match find_field(ms, "notes") {
                None => None,
                Some(nj) => match nj {
                    Json::Null => None,
                    Json::Str(s) => Some(chars_string(crate::text::clone_chars(s))),
                    _ => {
                        return None;
                    },
                },
            };
            let rec = RetrieveRecord {
                id: id,
                name: chars_string(nm),
                record_type: rt,
                content: chars_string(ct),
                ttl: ttl,
                prio: prio,
                notes: notes,
            };
            Some(rec)
        },
        _ => None,
    }
}

/// The models of decoded records, in order.
pub open spec fn record_views(rs: Seq<RetrieveRecord>) -> Seq<RecordV> {
    Seq::new(rs.len(), |i: int| rs[i]@)
}

/// Decode a record array, in order.
fn decode_records(arr: &Vec<Json>) -> (r: Option<Vec<RetrieveRecord>>)
    ensures
        r matches Some(out) ==> records_of(views_of(arr@)) == Some(record_views(out@)),
        r is None ==> records_of(views_of(arr@)) is None,
{
    let ghost elems = views_of(arr@);
    let mut out: Vec<RetrieveRecord> = Vec::new();
    let mut k: usize = 0;
    proof {
        assert(elems.skip(0) =~= elems);
    }
    while k < arr.len()
        invariant
            k <= arr@.len(),
            elems == views_of(arr@),
            elems.len() == arr@.len(),
            out@.len() == k,
            (match records_of(elems.skip(k as int)) {
                None => records_of(elems) is None,
                Some(tail) => records_of(elems) == Some(record_views(out@) + tail),
            }),
        decreases arr@.len() - k,
    {
        proof {
            assert(elems.skip(k as int)[0] == elems[k as int]);
            assert(elems[k as int] == json_view(arr@[k as int]));
            assert(elems.skip(k as int).drop_first() =~= elems.skip(k + 1));
        }
        match decode_record(&arr[k]) {
            None => {
                return None;
            },
            Some(rec) => {
                let ghost out_pre = out@;
                out.push(rec);
                proof {
                    if records_of(elems.skip(k + 1)) is Some {
                        let tail2 = records_of(elems.skip(k + 1))->Some_0;
                        assert(record_views(out_pre) + (seq![rec@] + tail2) =~= record_views(out@)
                            + tail2);
                    }
                }
            },
        }
        k = k + 1;
    }
    proof {
        assert(elems.skip(k as int).len() == 0);
        assert(records_of(elems.skip(k as int)) == Some(Seq::<RecordV>::empty()));
        assert(record_views(out@) + Seq::<RecordV>::empty() =~= record_views(out@));
    }
    Some(out)
}

/// Decode the success envelope shape.
fn decode_success(j: &Json) -> (r: Option<RetrieveSuccessResponse>)
    ensures
        r matches Some(s) ==> success_of(j@) == Some(s@),
        r is None ==> success_of(j@) is None,
{
    match j {
        Json::Obj(ms) => {
            let st = match str_field(ms, "status") {
                Some(v) => v,
                None => {
                    return None;
                },
            };
            let cf = match str_field(ms, "cloudflare") {
                Some(v) => v,
                None => {
                    return None;
                },
            };
            let flag: CloudFlareStatus = if chars_eq_str(&cf, "enabled") {
                CloudFlareStatus::Enabled
            } else if chars_eq_str(&cf, "disabled") {
                CloudFlareStatus::Disabled
            } else {
                return None;
            };
            match find_field(ms, "records") {
                None => None,
                Some(rj) => match rj {
                    Json::Arr(arr) => match decode_records(arr) {
                        None => None,
                        Some(records) => {
                            let resp = RetrieveSuccessResponse {
                                status: chars_string(st),
                                cloudflare_status: flag,
                                records: records,
                            };
                            proof {
                                assert(resp@.records =~= record_views(resp.records@));
                            }
                            Some(resp)
                        },
                    },
                    _ => None,
                },
            }
        },
        _ => None,
    }
}

/// Decode a response body into one of the two envelope shapes, the
/// success shape first: exactly what [`retrieve_envelope_of`] says.
pub fn parse_retrieve_response(body: &str) -> (r: Option<RetrieveResponse>)
    ensures
        r matches Some(resp) ==> retrieve_envelope_of(body@) == Some(resp@),
        r is None ==> retrieve_envelope_of(body@) is None,
{
    let chars = str_chars(body);
    let doc = match parse_document(&chars) {
        None => {
            return None;
        },
        Some(j) => j,
    };
    match decode_success(&doc) {
        Some(s) => Some(RetrieveResponse::Success(s)),
        None => match &doc {
            Json::Obj(ms) => {
                let st = match str_field(ms, "status") {
                    Some(v) => v,
                    None => {
                        return None;
                    },
                };
                let m = match str_field(ms, "message") {
                    Some(v) => v,
                    None => {
                        return None;
                    },
                };
                Some(
                    RetrieveResponse::Failure(
                        RetrieveErrorResponse { status: chars_string(st), message: chars_string(m) },
                    ),
                )
            },
            _ => None,
        },
    }
}

/// Map a failure message to its error kind: exactly the table of
/// [`retrieve_error_of_message`].
pub fn map_failure_message(message: &str) -> (e: RetrieveError)
    ensures
        e == retrieve_error_of_message(message@),
{
    let m = str_chars(message);
    if chars_eq_str(&m, "All API requests must provide minimal required data.") {
        RetrieveError::InvalidCredentials
    } else if chars_eq_str(&m, "All API requests require an API key.") {
        RetrieveError::MissingAPIKey
    } else if chars_eq_str(&m, "Invalid API key. (001)") {
        RetrieveError::InvalidAPIKey
    } else if chars_eq_str(&m, "Invalid API key. (002)") {
        RetrieveError::InvalidSecretKey
    } else if chars_eq_str(&m, "Invalid domain.") {
        RetrieveError::InvalidDomain
    } else if chars_eq_str(&m, "Domain is not opted in to API access.") {
        RetrieveError::InvalidPermissions
    } else {
        RetrieveError::Unknown
    }
}

/// Interpret a retrieve response body: exactly what
/// [`retrieve_body_outcome`] says, for every body.
pub fn interpret_retrieve_body(body: &str) -> (r: Result<RetrieveSuccessResponse, RetrieveError>)
    ensures
        retrieve_result_view(r) == retrieve_body_outcome(body@),
{
    match parse_retrieve_response(body) {
        None => Err(RetrieveError::ResponseDecodeError),
        Some(RetrieveResponse::Success(s)) => Ok(s),
        Some(RetrieveResponse::Failure(f)) => Err(map_failure_message(f.message.as_str())),
    }
}

/// Retrieve the records of `domain`.
///
/// The URL is the retrieve base, one `/`, and the domain in its
/// literal form; the body is the credentials envelope.  Whatever text
/// the transport hands back, the result is exactly the outcome of
/// [`retrieve_body_outcome`] on it; a transport failure is
/// `TransportError`.
pub fn retrieve_records_by_domain<C: HttpClient>(
    client: &C,
    credentials: &Credentials,
    domain: &str,
) -> (r: Result<RetrieveSuccessResponse, RetrieveError>)
    ensures
        r matches Ok(s) ==> success_fields_ok(s@) && (exists|body: Seq<char>|
            retrieve_body_outcome(body) == Ok::<SuccessV, RetrieveError>(s@)),
        r matches Err(e) ==> e == RetrieveError::TransportError || exists|body: Seq<char>|
            retrieve_body_outcome(body) == Err::<SuccessV, RetrieveError>(e),
{
    let mut url = retrieve_url();
    url.append("/");
    url.append(domain);
    let body = request_body(credentials);
    match client.post_json(url.as_str(), body.as_str()) {
        Err(_) => Err(RetrieveError::TransportError),
        Ok(text) => {
            let r = interpret_retrieve_body(text.as_str());
            proof {
                let b = text@;
                match r {
                    Ok(ref s) => {
                        assert(retrieve_body_outcome(b) == Ok::<SuccessV, RetrieveError>(s@));
                        lemma_no_negative_integer_fields(b);
                    },
                    Err(e) => {
                        assert(retrieve_body_outcome(b) == Err::<SuccessV, RetrieveError>(e));
                    },
                }
            }
            r
        },
    }
}

/// The exact-message table is exact both ways: each listed kind comes
/// back for its listed message and for no other, so no substring
/// collision or folding can reach a listed kind.
pub proof fn lemma_message_mapping_exact(m: Seq<char>)
    ensures
        retrieve_error_of_message(m) == RetrieveError::InvalidCredentials <==> m
            == "All API requests must provide minimal required data."@,
        retrieve_error_of_message(m) == RetrieveError::MissingAPIKey <==> m
            == "All API requests require an API key."@,
        retrieve_error_of_message(m) == RetrieveError::InvalidAPIKey <==> m
            == "Invalid API key. (001)"@,
        retrieve_error_of_message(m) == RetrieveError::InvalidSecretKey <==> m
            == "Invalid API key. (002)"@,
        retrieve_error_of_message(m) == RetrieveError::InvalidDomain <==> m == "Invalid domain."@,
        retrieve_error_of_message(m) == RetrieveError::InvalidPermissions <==> m
            == "Domain is not opted in to API access."@,
{
    reveal_strlit("All API requests must provide minimal required data.");
    reveal_strlit("All API requests require an API key.");
    reveal_strlit("Invalid API key. (001)");
    reveal_strlit("Invalid API key. (002)");
    reveal_strlit("Invalid domain.");
    reveal_strlit("Domain is not opted in to API access.");
    assert("All API requests must provide minimal required data."@.len() == 52);
    assert("All API requests require an API key."@.len() == 36);
    assert("Invalid API key. (001)"@.len() == 22);
    assert("Invalid API key. (002)"@.len() == 22);
    assert("Invalid domain."@.len() == 15);
    assert("Domain is not opted in to API access."@.len() == 37);
    assert("Invalid API key. (001)"@[20] == '1');
    assert("Invalid API key. (002)"@[20] == '2');
}

/// For any failure response the error kind depends on the `message`
/// field alone: two failure bodies with the same message map to the
/// same kind, whatever their `status` strings say.
pub proof fn lemma_error_kind_ignores_status(b1: Seq<char>, b2: Seq<char>)
    requires
        retrieve_envelope_of(b1) matches Some(RetrieveResponseV::Failure(st1, m1)),
        retrieve_envelope_of(b2) matches Some(RetrieveResponseV::Failure(st2, m2)),
        (retrieve_envelope_of(b1)->Some_0->Failure_1) == (retrieve_envelope_of(b2)->Some_0
            ->Failure_1),
    ensures
        retrieve_body_outcome(b1) == retrieve_body_outcome(b2),
{
}

proof fn lemma_records_nonneg(es: Seq<JsonV>)
    ensures
        records_of(es) matches Some(rs) ==> forall|k: int|
            0 <= k < rs.len() ==> (#[trigger] rs[k]).id >= 0 && rs[k].ttl >= 0 && (rs[k].prio
                matches Some(p) ==> p >= 0),
    decreases es.len(),
{
    if es.len() > 0 {
        lemma_records_nonneg(es.drop_first());
        match record_of(es[0]) {
            Some(r) => {
                match es[0] {
                    JsonV::Obj(ms) => {
                        match lookup(ms, "id"@) {
                            Some(JsonV::Str(ids)) => {
                                crate::wire::lemma_wire_i32_nonneg(ids);
                            },
                            _ => {},
                        }
                        match lookup(ms, "ttl"@) {
                            Some(JsonV::Str(ttls)) => {
                                crate::wire::lemma_wire_i32_nonneg(ttls);
                            },
                            _ => {},
                        }
                        match lookup(ms, "prio"@) {
                            Some(JsonV::Str(ps)) => {
                                crate::wire::lemma_wire_i32_nonneg(ps);
                            },
                            _ => {},
                        }
                    },
                    _ => {},
                }
            },
            None => {},
        }
    }
}

/// No successful retrieve produces a negative integer field: the wire
/// coercion only accepts unsigned decimal strings.
pub proof fn lemma_no_negative_integer_fields(body: Seq<char>)
    ensures
        retrieve_body_outcome(body) matches Ok(s) ==> forall|k: int|
            0 <= k < s.records.len() ==> (#[trigger] s.records[k]).id >= 0 && s.records[k].ttl >= 0
                && (s.records[k].prio matches Some(p) ==> p >= 0),
{
    match retrieve_envelope_of(body) {
        Some(RetrieveResponseV::Success(s)) => {
            match sp_document(body) {
                Some(j) => match j {
                    JsonV::Obj(ms) => match lookup(ms, "records"@) {
                        Some(JsonV::Arr(es)) => {
                            lemma_records_nonneg(es);
                        },
                        _ => {},
                    },
                    _ => {},
                },
                None => {},
            }
        },
        _ => {},
    }
}

/// A `prio` that is JSON null and a `prio` that is absent both decode
/// to an *unset* optional.
pub proof fn lemma_prio_null_or_absent_unset(ms: Seq<(Seq<char>, JsonV)>)
    ensures
        lookup(ms, "prio"@) is None || lookup(ms, "prio"@) == Some(JsonV::Null) ==> opt_i32_field(
            ms,
            "prio"@,
        ) == Some(None::<i32>),
{
}

/// `notes` that is null or absent decodes to *unset*; a present string
/// is kept exactly, so the empty string stays the empty string.
pub proof fn lemma_notes_wire_distinctions(ms: Seq<(Seq<char>, JsonV)>)
    ensures
        lookup(ms, "notes"@) is None || lookup(ms, "notes"@) == Some(JsonV::Null) ==> opt_str_field(
            ms,
            "notes"@,
        ) == Some(None::<Seq<char>>),
        forall|s: Seq<char>|
            lookup(ms, "notes"@) == Some(JsonV::Str(s)) ==> opt_str_field(ms, "notes"@) == Some(
                Some(s),
            ),
{
}

/// The wire form of the Cloudflare flag.
pub open spec fn cloudflare_name(c: CloudFlareStatus) -> Seq<char> {
    match c {
        CloudFlareStatus::Enabled => "enabled"@,
        CloudFlareStatus::Disabled => "disabled"@,
    }
}

/// The JSON value a decoded record re-serializes to: integer fields
/// back in their decimal-string wire form, unset optionals as null.
pub open spec fn encode_record_json(r: RecordV) -> JsonV {
    JsonV::Obj(
        seq![
            ("id"@, JsonV::Str(crate::wire::spec_decimal_digits(r.id as int))),
            ("name"@, JsonV::Str(r.name)),
            ("type"@, JsonV::Str(crate::common_types::record_type_name(r.record_type))),
            ("content"@, JsonV::Str(r.content)),
            ("ttl"@, JsonV::Str(crate::wire::spec_decimal_digits(r.ttl as int))),
            (
                "prio"@,
                match r.prio {
                    Some(p) => JsonV::Str(crate::wire::spec_decimal_digits(p as int)),
                    None => JsonV::Null,
                },
            ),
            (
                "notes"@,
                match r.notes {
                    Some(n) => JsonV::Str(n),
                    None => JsonV::Null,
                },
            ),
        ],
    )
}

/// The JSON values a decoded record list re-serializes to, in order.
pub open spec fn encode_records_json(rs: Seq<RecordV>) -> Seq<JsonV> {
    Seq::new(rs.len(), |i: int| encode_record_json(rs[i]))
}

/// The JSON value a decoded success envelope re-serializes to.
pub open spec fn encode_success_json(s: SuccessV) -> JsonV {
    JsonV::Obj(
        seq![
            ("status"@, JsonV::Str(s.status)),
            ("cloudflare"@, JsonV::Str(cloudflare_name(s.cloudflare_status))),
            ("records"@, JsonV::Arr(encode_records_json(s.records))),
        ],
    )
}

/// The re-serialized text of a decoded success envelope.
pub open spec fn serialize_success(s: SuccessV) -> Seq<char> {
    print_value(encode_success_json(s))
}

/// Every integer field of every record is non-negative: what any
/// decoded success envelope satisfies.
pub open spec fn success_fields_ok(s: SuccessV) -> bool {
    forall|k: int|
        0 <= k < s.records.len() ==> (#[trigger] s.records[k]).id >= 0 && s.records[k].ttl >= 0 && (
        s.records[k].prio matches Some(p) ==> p >= 0)
}

proof fn lemma_encode_record_wf(r: RecordV)
    ensures
        wf(encode_record_json(r)),
{
    let ms = encode_record_json(r)->Obj_0;
    match r.prio {
        Some(p) => {
            assert(ms[5].1 == JsonV::Str(crate::wire::spec_decimal_digits(p as int)));
            assert(wf(ms[5].1));
        },
        None => {
            assert(ms[5].1 == JsonV::Null);
            assert(wf(ms[5].1));
        },
    }
    match r.notes {
        Some(n) => {
            assert(ms[6].1 == JsonV::Str(n));
            assert(wf(ms[6].1));
        },
        None => {
            assert(ms[6].1 == JsonV::Null);
            assert(wf(ms[6].1));
        },
    }
    assert(ms[0].1 is Str && ms[1].1 is Str && ms[2].1 is Str && ms[3].1 is Str && ms[4].1
        is Str);
    assert(wf(ms[0].1));
    assert(wf(ms[1].1));
    assert(wf(ms[2].1));
    assert(wf(ms[3].1));
    assert(wf(ms[4].1));
    assert(wf_members_from(ms, 7));
    assert(wf_members_from(ms, 6));
    assert(wf_members_from(ms, 5));
    assert(wf_members_from(ms, 4));
    assert(wf_members_from(ms, 3));
    assert(wf_members_from(ms, 2));
    assert(wf_members_from(ms, 1));
    assert(wf_members_from(ms, 0));
}

proof fn lemma_encode_records_wf(rs: Seq<RecordV>, i: int)
    requires
        0 <= i <= rs.len(),
    ensures
        wf_elements_from(encode_records_json(rs), i),
    decreases rs.len() - i,
{
    if i < rs.len() {
        lemma_encode_record_wf(rs[i]);
        lemma_encode_records_wf(rs, i + 1);
    }
}

proof fn lemma_encode_success_wf(s: SuccessV)
    ensures
        wf(encode_success_json(s)),
{
    lemma_encode_records_wf(s.records, 0);
    let ms = encode_success_json(s)->Obj_0;
    assert(ms[0].1 is Str && ms[1].1 is Str);
    assert(wf(ms[0].1));
    assert(wf(ms[1].1));
    assert(ms[2].1 == JsonV::Arr(encode_records_json(s.records)));
    assert(wf(ms[2].1));
    assert(wf_members_from(ms, 3));
    assert(wf_members_from(ms, 2));
    assert(wf_members_from(ms, 1));
    assert(wf_members_from(ms, 0));
}

proof fn reveal_record_keys()
    ensures
        "id"@.len() == 2,
        "name"@.len() == 4,
        "type"@.len() == 4,
        "content"@.len() == 7,
        "ttl"@.len() == 3,
        "prio"@.len() == 4,
        "notes"@.len() == 5,
        "name"@[0] == 'n',
        "type"@[0] == 't',
        "prio"@[0] == 'p',
{
    reveal_strlit("id");
    reveal_strlit("name");
    reveal_strlit("type");
    reveal_strlit("content");
    reveal_strlit("ttl");
    reveal_strlit("prio");
    reveal_strlit("notes");
}

#[verifier::rlimit(100)]
#[verifier::spinoff_prover]
proof fn lemma_record_decode_encode(r: RecordV)
    requires
        r.id >= 0,
        r.ttl >= 0,
        r.prio matches Some(p) ==> p >= 0,
    ensures
        record_of(encode_record_json(r)) == Some(r),
{
    reveal_record_keys();
    let ms = encode_record_json(r)->Obj_0;
    lemma_lookup_at(ms, "id"@, 0);
    lemma_lookup_at(ms, "name"@, 1);
    lemma_lookup_at(ms, "type"@, 2);
    lemma_lookup_at(ms, "content"@, 3);
    lemma_lookup_at(ms, "ttl"@, 4);
    lemma_lookup_at(ms, "prio"@, 5);
    lemma_lookup_at(ms, "notes"@, 6);
    crate::wire::lemma_decimal_digits_value(r.id as int);
    crate::wire::lemma_decimal_digits_value(r.ttl as int);
    match r.prio {
        Some(p) => {
            crate::wire::lemma_decimal_digits_value(p as int);
        },
        None => {},
    }
    crate::common_types::lemma_record_type_roundtrip(r.record_type);
}

proof fn lemma_records_decode_encode(rs: Seq<RecordV>)
    requires
        forall|k: int|
            0 <= k < rs.len() ==> (#[trigger] rs[k]).id >= 0 && rs[k].ttl >= 0 && (rs[k].prio
                matches Some(p) ==> p >= 0),
    ensures
        records_of(encode_records_json(rs)) == Some(rs),
    decreases rs.len(),
{
    let enc = encode_records_json(rs);
    if rs.len() == 0 {
        assert(enc =~= Seq::<JsonV>::empty());
    } else {
        lemma_record_decode_encode(rs[0]);
        assert(enc[0] == encode_record_json(rs[0]));
        assert(enc.drop_first() =~= encode_records_json(rs.drop_first()));
        lemma_records_decode_encode(rs.drop_first());
        assert(seq![rs[0]] + rs.drop_first() =~= rs);
    }
}

proof fn lemma_success_decode_encode(s: SuccessV)
    requires
        success_fields_ok(s),
    ensures
        success_of(encode_success_json(s)) == Some(s),
{
    reveal_strlit("status");
    reveal_strlit("cloudflare");
    reveal_strlit("records");
    reveal_strlit("enabled");
    reveal_strlit("disabled");
    assert("status"@.len() == 6 && "cloudflare"@.len() == 10 && "records"@.len() == 7);
    let ms = encode_success_json(s)->Obj_0;
    lemma_lookup_at(ms, "status"@, 0);
    lemma_lookup_at(ms, "cloudflare"@, 1);
    lemma_lookup_at(ms, "records"@, 2);
    assert("enabled"@.len() == 7 && "disabled"@.len() == 8);
    assert(cloudflare_of(cloudflare_name(s.cloudflare_status)) == Some(s.cloudflare_status));
    lemma_records_decode_encode(s.records);
}

/// Round trip: a success envelope any body decodes to, re-serialized
/// and decoded again, is the same envelope.
pub proof fn lemma_retrieve_roundtrip(body: Seq<char>)
    ensures
        retrieve_body_outcome(body) matches Ok(s) ==> retrieve_body_outcome(serialize_success(s))
            == Ok::<SuccessV, RetrieveError>(s),
{
    match retrieve_body_outcome(body) {
        Ok(s) => {
            lemma_no_negative_integer_fields(body);
            assert(success_fields_ok(s));
            lemma_encode_success_wf(s);
            lemma_parse_print_document(encode_success_json(s));
            lemma_success_decode_encode(s);
        },
        Err(_) => {},
    }
}

/// Re-serialize a record into its wire JSON value.
fn encode_record(rec: &RetrieveRecord) -> (j: Json)
    requires
        rec.id >= 0,
        rec.ttl >= 0,
        rec.prio matches Some(p) ==> p >= 0,
    ensures
        j@ == encode_record_json(rec@),
{
    let mut ms: Vec<(Vec<char>, Json)> = Vec::new();
    ms.push((str_chars("id"), Json::Str(i32_to_wire(rec.id))));
    ms.push((str_chars("name"), Json::Str(str_chars(rec.name.as_str()))));
    ms.push((str_chars("type"), Json::Str(record_type_chars(&rec.record_type))));
    ms.push((str_chars("content"), Json::Str(str_chars(rec.content.as_str()))));
    ms.push((str_chars("ttl"), Json::Str(i32_to_wire(rec.ttl))));
    let prio_val: Json = match rec.prio {
        Some(p) => Json::Str(i32_to_wire(p)),
        None => Json::Null,
    };
    ms.push((str_chars("prio"), prio_val));
    let notes_val: Json = match &rec.notes {
        Some(n) => Json::Str(str_chars(n.as_str())),
        None => Json::Null,
    };
    ms.push((str_chars("notes"), notes_val));
    let ghost msv = ms@;
    let j = Json::Obj(ms);
    proof {
        let target = encode_record_json(rec@)->Obj_0;
        assert(member_views_of(msv) =~= target);
    }
    j
}

/// Re-serialize a decoded success envelope into the wire text it came
/// from, canonically printed: exactly [`serialize_success`].
pub fn serialize_retrieve_success(resp: &RetrieveSuccessResponse) -> (s: String)
    requires
        forall|k: int|
            0 <= k < resp.records@.len() ==> (#[trigger] resp.records@[k]).id >= 0
                && resp.records@[k].ttl >= 0 && (resp.records@[k].prio matches Some(p) ==> p >= 0),
    ensures
        s@ == serialize_success(resp@),
{
    let mut elems: Vec<Json> = Vec::new();
    let mut k: usize = 0;
    while k < resp.records.len()
        invariant
            k <= resp.records@.len(),
            elems@.len() == k,
            forall|i: int|
                0 <= i < resp.records@.len() ==> (#[trigger] resp.records@[i]).id >= 0
                    && resp.records@[i].ttl >= 0 && (resp.records@[i].prio matches Some(p) ==> p
                    >= 0),
            forall|i: int|
                0 <= i < k ==> json_view(#[trigger] elems@[i]) == encode_record_json(
                    resp.records@[i]@,
                ),
        decreases resp.records@.len() - k,
    {
        elems.push(encode_record(&resp.records[k]));
        k = k + 1;
    }
    let mut ms: Vec<(Vec<char>, Json)> = Vec::new();
    ms.push((str_chars("status"), Json::Str(str_chars(resp.status.as_str()))));
    let flag_chars: Vec<char> = match resp.cloudflare_status {
        CloudFlareStatus::Enabled => str_chars("enabled"),
        CloudFlareStatus::Disabled => str_chars("disabled"),
    };
    ms.push((str_chars("cloudflare"), Json::Str(flag_chars)));
    let ghost elemsv = elems@;
    ms.push((str_chars("records"), Json::Arr(elems)));
    let ghost msv = ms@;
    let j = Json::Obj(ms);
    proof {
        assert(views_of(elemsv) =~= encode_records_json(resp@.records));
        let target = encode_success_json(resp@)->Obj_0;
        assert(member_views_of(msv) =~= target);
    }
    let mut out: Vec<char> = Vec::new();
    print_json(&j, &mut out);
    chars_string(out)
}

impl RetrieveError {
    /// A short human-readable description of the error kind.
    pub fn describe(&self) -> (s: String)
        ensures
            s@ == self.spec_describe(),
    {
        match self {
            RetrieveError::InvalidCredentials => String::from_str("Invalid credentials"),
            RetrieveError::MissingAPIKey => String::from_str("Missing API key"),
            RetrieveError::InvalidAPIKey => String::from_str("Invalid API key"),
            RetrieveError::InvalidSecretKey => String::from_str("Invalid secret key"),
            RetrieveError::InvalidDomain => String::from_str("Invalid domain"),
            RetrieveError::InvalidPermissions => String::from_str("Invalid permissions"),
            RetrieveError::Unknown => String::from_str("Unknown error"),
            RetrieveError::ResponseDecodeError => String::from_str("Response decode error"),
            RetrieveError::TransportError => String::from_str("Transport error"),
        }
    }

    /// The description of each error kind.
    pub open spec fn spec_describe(&self) -> Seq<char> {
        match self {
            RetrieveError::InvalidCredentials => "Invalid credentials"@,
            RetrieveError::MissingAPIKey => "Missing API key"@,
            RetrieveError::InvalidAPIKey => "Invalid API key"@,
            RetrieveError::InvalidSecretKey => "Invalid secret key"@,
            RetrieveError::InvalidDomain => "Invalid domain"@,
            RetrieveError::InvalidPermissions => "Invalid permissions"@,
            RetrieveError::Unknown => "Unknown error"@,
            RetrieveError::ResponseDecodeError => "Response decode error"@,
            RetrieveError::TransportError => "Transport error"@,
        }
    }
}

} // verus!
