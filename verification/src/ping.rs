//! The ping endpoint: discover the caller's public IPv4.
//!
//! One POST of the credentials envelope; a success envelope echoes the
//! caller's address in `yourIp`, a failure envelope carries a message.
//! Ping reuses the retrieve endpoint's exact-message table and
//! collapses its key errors into `InvalidCredentials`, its own legacy
//! error surface.

use vstd::prelude::*;

use crate::client::HttpClient;
use crate::common_types::request_body;
use crate::constants::ping_url;
use crate::envelope::str_field;
use crate::json::parse::{parse_document, sp_document};
use crate::json::value::{lemma_json_view_obj, lookup, Json, JsonV};
use crate::retrieve::{map_failure_message, retrieve_error_of_message, RetrieveError};
use crate::text::{chars_string, str_chars};

pub use crate::common_types::Credentials;

verus! {

broadcast use
    vstd::seq::group_seq_axioms,
    vstd::std_specs::vec::group_vec_axioms,
    lemma_json_view_obj,
;

/// A decoded ping success envelope.
#[derive(Debug, PartialEq)]
pub struct PingSuccessResponse {
    pub status: String,
    pub your_ip: String,
}

/// A decoded ping failure envelope.
#[derive(Debug, PartialEq)]
pub struct PingFailureResponse {
    pub status: String,
    pub message: String,
}

/// The raw decode of a ping response body: one of the two shapes.
#[derive(Debug)]
pub enum PingResponse {
    Success(PingSuccessResponse),
    Failure(PingFailureResponse),
}

/// The error surface of the ping endpoint.
#[derive(Debug, Clone, Copy, PartialEq, Eq, Structural)]
pub enum PingError {
    InvalidCredentials,
    Unknown,
    ResponseDecodeError,
    TransportError,
}

/// The model of a raw ping decode: the fields of whichever envelope
/// the body held, as character sequences.
pub enum PingResponseV {
    Success(Seq<char>, Seq<char>),
    Failure(Seq<char>, Seq<char>),
}

impl View for PingResponse {
    type V = PingResponseV;

    open spec fn view(&self) -> PingResponseV {
        match self {
            PingResponse::Success(s) => PingResponseV::Success(s.status@, s.your_ip@),
            PingResponse::Failure(f) => PingResponseV::Failure(f.status@, f.message@),
        }
    }
}

/// The ping success envelope: an object with string fields `status`
/// and `yourIp`.
pub open spec fn ping_success_of(j: JsonV) -> Option<(Seq<char>, Seq<char>)> {
    match j {
        JsonV::Obj(ms) => match (lookup(ms, "status"@), lookup(ms, "yourIp"@)) {
            (Some(JsonV::Str(st)), Some(JsonV::Str(ip))) => Some((st, ip)),
            _ => None,
        },
        _ => None,
    }
}

/// The raw decode of a ping body: the success shape first, the
/// failure shape second.
pub open spec fn ping_envelope_of(body: Seq<char>) -> Option<PingResponseV> {
    match sp_document(body) {
        None => None,
        Some(j) => match ping_success_of(j) {
            Some((st, ip)) => Some(PingResponseV::Success(st, ip)),
            None => match crate::envelope::failure_of(j) {
                Some((st, m)) => Some(PingResponseV::Failure(st, m)),
                None => None,
            },
        },
    }
}

/// Ping's view of the shared message table: the two credential-key
/// kinds collapse into `InvalidCredentials`, every other message is
/// `Unknown`.
pub open spec fn ping_error_of_message(m: Seq<char>) -> PingError {
    match retrieve_error_of_message(m) {
        RetrieveError::InvalidSecretKey => PingError::InvalidCredentials,
        RetrieveError::InvalidCredentials => PingError::InvalidCredentials,
        _ => PingError::Unknown,
    }
}

/// What a ping call returns for a given response body, whatever the
/// transport: the echoed address (never empty), the mapped failure
/// message, or `ResponseDecodeError`.  A success envelope with an
/// empty `yourIp` is treated as undecodable: no successful ping
/// produces an empty address.
pub open spec fn ping_body_outcome(body: Seq<char>) -> Result<Seq<char>, PingError> {
    match ping_envelope_of(body) {
        None => Err(PingError::ResponseDecodeError),
        Some(PingResponseV::Success(st, ip)) => if ip.len() > 0 {
            Ok(ip)
        } else {
            Err(PingError::ResponseDecodeError)
        },
        Some(PingResponseV::Failure(st, m)) => Err(ping_error_of_message(m)),
    }
}

/// The model of an executable ping result.
pub open spec fn ping_result_view(r: Result<String, PingError>) -> Result<Seq<char>, PingError> {
    match r {
        Ok(s) => Ok(s@),
        Err(e) => Err(e),
    }
}

/// Decode a ping response body into one of the two envelope shapes,
/// the success shape first: exactly what [`ping_envelope_of`] says.
pub fn parse_ping_response(body: &str) -> (r: Option<PingResponse>)
    ensures
        r matches Some(resp) ==> ping_envelope_of(body@) == Some(resp@),
        r is None ==> ping_envelope_of(body@) is None,
{
    let chars = str_chars(body);
    let doc = match parse_document(&chars) {
        None => {
            return None;
        },
        Some(j) => j,
    };
    match &doc {
        Json::Obj(ms) => {
            let st = match str_field(ms, "status") {
                Some(v) => v,
                None => {
                    return None;
                },
            };
            match str_field(ms, "yourIp") {
                Some(ip) => Some(
                    PingResponse::Success(
                        PingSuccessResponse {
                            status: chars_string(st),
                            your_ip: chars_string(ip),
                        },
                    ),
                ),
                None => match str_field(ms, "message") {
                    Some(m) => Some(
                        PingResponse::Failure(
                            PingFailureResponse {
                                status: chars_string(st),
                                message: chars_string(m),
                            },
                        ),
                    ),
                    None => None,
                },
            }
        },
        _ => None,
    }
}

/// Collapse a retrieve-table error kind into ping's error surface.
fn ping_error_from(e: RetrieveError) -> (p: PingError)
    ensures
        p == (match e {
            RetrieveError::InvalidSecretKey => PingError::InvalidCredentials,
            RetrieveError::InvalidCredentials => PingError::InvalidCredentials,
            _ => PingError::Unknown,
        }),
{
    match e {
        RetrieveError::InvalidSecretKey => PingError::InvalidCredentials,
        RetrieveError::InvalidCredentials => PingError::InvalidCredentials,
        _ => PingError::Unknown,
    }
}

/// Interpret a ping response body: exactly what [`ping_body_outcome`]
/// says, for every body.
pub fn interpret_ping_body(body: &str) -> (r: Result<String, PingError>)
    ensures
        ping_result_view(r) == ping_body_outcome(body@),
{
    match parse_ping_response(body) {
        None => Err(PingError::ResponseDecodeError),
        Some(PingResponse::Success(s)) => {
            if s.your_ip.as_str().unicode_len() > 0 {
                Ok(s.your_ip)
            } else {
                Err(PingError::ResponseDecodeError)
            }
        },
        Some(PingResponse::Failure(f)) => Err(
            ping_error_from(map_failure_message(f.message.as_str())),
        ),
    }
}

/// Ping the registrar: post the credentials envelope and decode the
/// echoed address.
///
/// Whatever text the transport hands back, the result is exactly the
/// outcome of [`ping_body_outcome`] on it: a returned address is never
/// empty, and every error besides `TransportError` is one some
/// response body yields.
pub fn ping<C: HttpClient>(client: &C, credentials: &Credentials) -> (r: Result<String, PingError>)
    ensures
        r matches Ok(ip) ==> ip@.len() > 0 && (exists|body: Seq<char>|
            ping_body_outcome(body) == Ok::<Seq<char>, PingError>(ip@)),
        r matches Err(e) ==> e == PingError::TransportError || (exists|body: Seq<char>|
            ping_body_outcome(body) == Err::<Seq<char>, PingError>(e)),
{
    let url = ping_url();
    let body = request_body(credentials);
    match client.post_json(url.as_str(), body.as_str()) {
        Err(_) => Err(PingError::TransportError),
        Ok(text) => {
            let r = interpret_ping_body(text.as_str());
            proof {
                let b = text@;
                match r {
                    Ok(ref ip) => {
                        assert(ping_body_outcome(b) == Ok::<Seq<char>, PingError>(ip@));
                    },
                    Err(e) => {
                        assert(ping_body_outcome(b) == Err::<Seq<char>, PingError>(e));
                    },
                }
            }
            r
        },
    }
}

/// The JSON value a decoded ping success envelope re-serializes to.
pub open spec fn encode_ping_success_json(status: Seq<char>, ip: Seq<char>) -> JsonV {
    JsonV::Obj(seq![("status"@, JsonV::Str(status)), ("yourIp"@, JsonV::Str(ip))])
}

/// Round trip: a ping success envelope any body decodes to,
/// re-serialized and decoded again, is the same envelope, and its
/// outcome is the same address.
pub proof fn lemma_ping_roundtrip(body: Seq<char>)
    ensures
        ping_envelope_of(body) matches Some(PingResponseV::Success(st, ip)) ==> ping_envelope_of(
            crate::json::print::print_value(encode_ping_success_json(st, ip)),
        ) == Some(PingResponseV::Success(st, ip)),
        ping_body_outcome(body) matches Ok(ip) ==> forall|st: Seq<char>|
            ping_body_outcome(
                #[trigger] crate::json::print::print_value(encode_ping_success_json(st, ip)),
            ) == Ok::<Seq<char>, PingError>(ip),
{
    match ping_envelope_of(body) {
        Some(PingResponseV::Success(st0, ip0)) => {
            lemma_ping_success_redecodes(st0, ip0);
        },
        _ => {},
    }
    match ping_body_outcome(body) {
        Ok(ip) => {
            assert forall|st: Seq<char>|
                ping_body_outcome(
                    #[trigger] crate::json::print::print_value(encode_ping_success_json(st, ip)),
                ) == Ok::<Seq<char>, PingError>(ip) by {
                lemma_ping_success_redecodes(st, ip);
            }
        },
        _ => {},
    }
}

/// A printed ping success envelope decodes back to its two fields.
proof fn lemma_ping_success_redecodes(st: Seq<char>, ip: Seq<char>)
    ensures
        ping_envelope_of(crate::json::print::print_value(encode_ping_success_json(st, ip)))
            == Some(PingResponseV::Success(st, ip)),
{
    let enc = encode_ping_success_json(st, ip);
    let ms = enc->Obj_0;
    assert(ms[0].1 is Str && ms[1].1 is Str);
    assert(crate::json::roundtrip::wf(ms[0].1));
    assert(crate::json::roundtrip::wf(ms[1].1));
    assert(crate::json::roundtrip::wf_members_from(ms, 2));
    assert(crate::json::roundtrip::wf_members_from(ms, 1));
    assert(crate::json::roundtrip::wf_members_from(ms, 0));
    assert(crate::json::roundtrip::wf(enc));
    crate::json::roundtrip::lemma_parse_print_document(enc);
    reveal_strlit("status");
    reveal_strlit("yourIp");
    assert("status"@.len() == 6 && "yourIp"@.len() == 6);
    assert("status"@[0] == 's' && "yourIp"@[0] == 'y');
    crate::json::value::lemma_lookup_at(ms, "status"@, 0);
    crate::json::value::lemma_lookup_at(ms, "yourIp"@, 1);
}

/// No successful ping produces an empty or missing address: a success
/// envelope without a non-empty string `yourIp` never decodes to `Ok`.
pub proof fn lemma_ping_ip_nonempty(body: Seq<char>)
    ensures
        ping_body_outcome(body) matches Ok(ip) ==> ip.len() > 0,
{
}

impl PingError {
    /// A short human-readable description of the error kind.
    pub fn describe(&self) -> (s: String)
        ensures
            s@ == self.spec_describe(),
    {
        match self {
            PingError::InvalidCredentials => String::from_str("Invalid credentials"),
            PingError::Unknown => String::from_str("Unknown error"),
            PingError::ResponseDecodeError => String::from_str("Response decode error"),
            PingError::TransportError => String::from_str("Transport error"),
        }
    }

    /// The description of each error kind.
    pub open spec fn spec_describe(&self) -> Seq<char> {
        match self {
            PingError::InvalidCredentials => "Invalid credentials"@,
            PingError::Unknown => "Unknown error"@,
            PingError::ResponseDecodeError => "Response decode error"@,
            PingError::TransportError => "Transport error"@,
        }
    }
}

} // verus!
