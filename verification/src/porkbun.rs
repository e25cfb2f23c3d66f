//! The first-generation ping operation.
//!
//! An earlier layer over the same endpoint with its own error surface:
//! it keeps the unmatched vendor message inside `APIError` instead of
//! collapsing it, and names transport failure `WebRequestError`.  The
//! body decode is the shared ping envelope decode.

use vstd::prelude::*;

use crate::client::HttpClient;
use crate::common_types::{request_body, Credentials};
use crate::constants::ping_url;
use crate::ping::{parse_ping_response, ping_envelope_of, PingResponse, PingResponseV};
use crate::text::chars_eq_str;

verus! {

/// The error surface of the first-generation ping operation.
#[derive(Debug, PartialEq)]
pub enum PorkbunError {
    InvalidCredentialsError,
    APIError(String),
    ResponseDecodeError,
    WebRequestError,
}

/// The model of a [`PorkbunError`].
pub enum PorkbunErrorV {
    InvalidCredentialsError,
    APIError(Seq<char>),
    ResponseDecodeError,
    WebRequestError,
}

impl View for PorkbunError {
    type V = PorkbunErrorV;

    open spec fn view(&self) -> PorkbunErrorV {
        match self {
            PorkbunError::InvalidCredentialsError => PorkbunErrorV::InvalidCredentialsError,
            PorkbunError::APIError(m) => PorkbunErrorV::APIError(m@),
            PorkbunError::ResponseDecodeError => PorkbunErrorV::ResponseDecodeError,
            PorkbunError::WebRequestError => PorkbunErrorV::WebRequestError,
        }
    }
}

/// What a first-generation ping returns for a given response body: the
/// echoed address (never empty), `InvalidCredentialsError` for the
/// secret-key message, or the raw message inside `APIError`.
pub open spec fn request_ip_outcome(body: Seq<char>) -> Result<Seq<char>, PorkbunErrorV> {
    match ping_envelope_of(body) {
        None => Err(PorkbunErrorV::ResponseDecodeError),
        Some(PingResponseV::Success(st, ip)) => if ip.len() > 0 {
            Ok(ip)
        } else {
            Err(PorkbunErrorV::ResponseDecodeError)
        },
        Some(PingResponseV::Failure(st, m)) => if m == "Invalid API key. (002)"@ {
            Err(PorkbunErrorV::InvalidCredentialsError)
        } else {
            Err(PorkbunErrorV::APIError(m))
        },
    }
}

/// The model of an executable first-generation ping result.
pub open spec fn request_ip_result_view(r: Result<String, PorkbunError>) -> Result<
    Seq<char>,
    PorkbunErrorV,
> {
    match r {
        Ok(s) => Ok(s@),
        Err(e) => Err(e@),
    }
}

/// Interpret a ping response body under the first-generation error
/// surface: exactly what [`request_ip_outcome`] says.
pub fn interpret_request_ip_body(body: &str) -> (r: Result<String, PorkbunError>)
    ensures
        request_ip_result_view(r) == request_ip_outcome(body@),
{
    match parse_ping_response(body) {
        None => Err(PorkbunError::ResponseDecodeError),
        Some(PingResponse::Success(s)) => {
            if s.your_ip.as_str().unicode_len() > 0 {
                Ok(s.your_ip)
            } else {
                Err(PorkbunError::ResponseDecodeError)
            }
        },
        Some(PingResponse::Failure(f)) => {
            let m = crate::text::str_chars(f.message.as_str());
            if chars_eq_str(&m, "Invalid API key. (002)") {
                Err(PorkbunError::InvalidCredentialsError)
            } else {
                Err(PorkbunError::APIError(f.message))
            }
        },
    }
}

/// Request the caller's public IPv4 from the registrar.
///
/// Whatever text the transport hands back, the result is exactly the
/// outcome of [`request_ip_outcome`] on it; a transport failure is
/// `WebRequestError`.
pub fn request_ip<C: HttpClient>(client: &C, credentials: &Credentials) -> (r: Result<
    String,
    PorkbunError,
>)
    ensures
        r matches Ok(ip) ==> ip@.len() > 0 && (exists|body: Seq<char>|
            request_ip_outcome(body) == Ok::<Seq<char>, PorkbunErrorV>(ip@)),
        r matches Err(e) ==> e@ == PorkbunErrorV::WebRequestError || (exists|body: Seq<char>|
            request_ip_outcome(body) == Err::<Seq<char>, PorkbunErrorV>(e@)),
{
    let url = ping_url();
    let body = request_body(credentials);
    match client.post_json(url.as_str(), body.as_str()) {
        Err(_) => Err(PorkbunError::WebRequestError),
        Ok(text) => {
            let r = interpret_request_ip_body(text.as_str());
            proof {
                let b = text@;
                match r {
                    Ok(ref ip) => {
                        assert(request_ip_outcome(b) == Ok::<Seq<char>, PorkbunErrorV>(ip@));
                    },
                    Err(ref e) => {
                        assert(request_ip_outcome(b) == Err::<Seq<char>, PorkbunErrorV>(e@));
                    },
                }
            }
            r
        },
    }
}

} // verus!
