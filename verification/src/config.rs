//! Configuration: the values an operator supplies and the rules that
//! turn raw settings into a validated `Config`.
//!
//! Reading the process environment or a mounted secrets directory is
//! the embedding program's job; it hands the raw optional strings to
//! [`build_config`], which applies the defaulting, case folding and
//! validation rules and either produces a populated configuration or
//! one structured reason.

use vstd::prelude::*;

use crate::text::{char_from_u32, chars_eq_str, chars_string, is_scalar, str_chars};

verus! {

broadcast use vstd::seq::group_seq_axioms, vstd::std_specs::vec::group_vec_axioms;

/// The record types an operator may configure.  A narrower set than
/// the wire-side [`crate::common_types::RecordType`].
#[derive(Debug, Clone, Copy, PartialEq, Eq, Structural)]
pub enum RecordType {
    A,
    AAAA,
    CNAME,
    MX,
    TXT,
    SRV,
    NS,
    PTR,
    CAA,
}

/// A validated configuration, immutable once loaded.
#[derive(Debug)]
pub struct Config {
    pub api_key: String,
    pub secret_key: String,
    pub domain_name: String,
    pub subdomain: Option<String>,
    pub record_type: RecordType,
}

/// The model of a configuration.
pub struct ConfigV {
    pub api_key: Seq<char>,
    pub secret_key: Seq<char>,
    pub domain_name: Seq<char>,
    pub subdomain: Option<Seq<char>>,
    pub record_type: RecordType,
}

impl View for Config {
    type V = ConfigV;

    open spec fn view(&self) -> ConfigV {
        ConfigV {
            api_key: self.api_key@,
            secret_key: self.secret_key@,
            domain_name: self.domain_name@,
            subdomain: match self.subdomain {
                Some(ref s) => Some(s@),
                None => None,
            },
            record_type: self.record_type,
        }
    }
}

/// The structured reasons configuration loading can fail.
#[derive(Debug, Clone, Copy, PartialEq, Eq, Structural)]
pub enum ConfigError {
    ApiKeyNotFound,
    ApiSecretNotFound,
    DomainNotFound,
    InvalidRecordType,
}

/// The structured reasons a mounted secret cannot be read.  The
/// embedding program's secret loader reports with these.
#[derive(Debug, Clone, Copy, PartialEq, Eq, Structural)]
pub enum SecretError {
    FileNotFound,
    FileReadError,
}

/// The configured record type a (already upper-case) name denotes.
pub open spec fn config_record_type_of_name(s: Seq<char>) -> Option<RecordType> {
    if s == "A"@ {
        Some(RecordType::A)
    } else if s == "AAAA"@ {
        Some(RecordType::AAAA)
    } else if s == "CNAME"@ {
        Some(RecordType::CNAME)
    } else if s == "MX"@ {
        Some(RecordType::MX)
    } else if s == "TXT"@ {
        Some(RecordType::TXT)
    } else if s == "SRV"@ {
        Some(RecordType::SRV)
    } else if s == "NS"@ {
        Some(RecordType::NS)
    } else if s == "PTR"@ {
        Some(RecordType::PTR)
    } else if s == "CAA"@ {
        Some(RecordType::CAA)
    } else {
        None
    }
}

/// ASCII upper-casing of one character: the record-type names are
/// plain ASCII, so nothing more is folded.
pub open spec fn spec_upper_char(c: char) -> char {
    if 'a' as u32 <= c as u32 && c as u32 <= 'z' as u32 {
        (((c as u32) - 32) as u32) as char
    } else {
        c
    }
}

/// ASCII upper-casing of a string.
pub open spec fn spec_ascii_upper(s: Seq<char>) -> Seq<char> {
    Seq::new(s.len(), |i: int| spec_upper_char(s[i]))
}

/// What [`to_record_type`] returns for a given name.
pub open spec fn record_type_result(s: Seq<char>) -> Result<RecordType, ConfigError> {
    match config_record_type_of_name(s) {
        Some(t) => Ok(t),
        None => Err(ConfigError::InvalidRecordType),
    }
}

/// What a configuration build returns for given raw settings: each
/// required value missing is its own reason, in order; an absent
/// record type defaults to `A`; a present one is upper-cased and must
/// name a configured type.
pub open spec fn config_outcome(
    api_key: Option<Seq<char>>,
    secret_key: Option<Seq<char>>,
    domain_name: Option<Seq<char>>,
    subdomain: Option<Seq<char>>,
    record_type: Option<Seq<char>>,
) -> Result<ConfigV, ConfigError> {
    match api_key {
        None => Err(ConfigError::ApiKeyNotFound),
        Some(ak) => match secret_key {
            None => Err(ConfigError::ApiSecretNotFound),
            Some(sk) => match domain_name {
                None => Err(ConfigError::DomainNotFound),
                Some(dn) => {
                    let name = match record_type {
                        None => "A"@,
                        Some(rt) => spec_ascii_upper(rt),
                    };
                    match config_record_type_of_name(name) {
                        None => Err(ConfigError::InvalidRecordType),
                        Some(t) => Ok(
                            ConfigV {
                                api_key: ak,
                                secret_key: sk,
                                domain_name: dn,
                                subdomain: subdomain,
                                record_type: t,
                            },
                        ),
                    }
                },
            },
        },
    }
}

/// The model of an executable configuration build.
pub open spec fn config_result_view(r: Result<Config, ConfigError>) -> Result<
    ConfigV,
    ConfigError,
> {
    match r {
        Ok(c) => Ok(c@),
        Err(e) => Err(e),
    }
}

/// Upper-case one ASCII letter.
fn upper_char(c: char) -> (r: char)
    ensures
        r == spec_upper_char(c),
{
    let u = c as u32;
    if 'a' as u32 <= u && u <= 'z' as u32 {
        match char_from_u32(u - 32) {
            Some(x) => x,
            None => {
                proof {
                    assert(is_scalar((u - 32) as u32));
                    assert(false);
                }
                c
            },
        }
    } else {
        c
    }
}

/// Upper-case a character vector.
fn upper_chars(v: &Vec<char>) -> (r: Vec<char>)
    ensures
        r@ == spec_ascii_upper(v@),
{
    let mut r: Vec<char> = Vec::new();
    let mut k: usize = 0;
    while k < v.len()
        invariant
            k <= v@.len(),
            r@ == spec_ascii_upper(v@).take(k as int),
        decreases v@.len() - k,
    {
        r.push(upper_char(v[k]));
        proof {
            assert(r@ =~= spec_ascii_upper(v@).take(k + 1));
        }
        k = k + 1;
    }
    proof {
        assert(r@ =~= spec_ascii_upper(v@));
    }
    r
}

/// Decode a configured record-type name, already upper-case.
fn parse_config_record_type(v: &Vec<char>) -> (r: Option<RecordType>)
    ensures
        r == config_record_type_of_name(v@),
{
    if chars_eq_str(v, "A") {
        Some(RecordType::A)
    } else if chars_eq_str(v, "AAAA") {
        Some(RecordType::AAAA)
    } else if chars_eq_str(v, "CNAME") {
        Some(RecordType::CNAME)
    } else if chars_eq_str(v, "MX") {
        Some(RecordType::MX)
    } else if chars_eq_str(v, "TXT") {
        Some(RecordType::TXT)
    } else if chars_eq_str(v, "SRV") {
        Some(RecordType::SRV)
    } else if chars_eq_str(v, "NS") {
        Some(RecordType::NS)
    } else if chars_eq_str(v, "PTR") {
        Some(RecordType::PTR)
    } else if chars_eq_str(v, "CAA") {
        Some(RecordType::CAA)
    } else {
        None
    }
}

/// The configured record type a name denotes, or the invalid-type
/// reason: exactly what [`record_type_result`] says.  The name is
/// taken as given: callers fold case first where they allow it.
pub fn to_record_type(record_type_string: &str) -> (r: Result<RecordType, ConfigError>)
    ensures
        r == record_type_result(record_type_string@),
{
    let v = str_chars(record_type_string);
    match parse_config_record_type(&v) {
        Some(t) => Ok(t),
        None => Err(ConfigError::InvalidRecordType),
    }
}

/// Build a configuration from raw optional settings: exactly what
/// [`config_outcome`] says.
pub fn build_config(
    api_key: Option<String>,
    secret_key: Option<String>,
    domain_name: Option<String>,
    subdomain: Option<String>,
    record_type: Option<String>,
) -> (r: Result<Config, ConfigError>)
    ensures
        config_result_view(r) == config_outcome(
            match api_key {
                Some(ref s) => Some(s@),
                None => None,
            },
            match secret_key {
                Some(ref s) => Some(s@),
                None => None,
            },
            match domain_name {
                Some(ref s) => Some(s@),
                None => None,
            },
            match subdomain {
                Some(ref s) => Some(s@),
                None => None,
            },
            match record_type {
                Some(ref s) => Some(s@),
                None => None,
            },
        ),
{
    let ak = match api_key {
        None => {
            return Err(ConfigError::ApiKeyNotFound);
        },
        Some(s) => s,
    };
    let sk = match secret_key {
        None => {
            return Err(ConfigError::ApiSecretNotFound);
        },
        Some(s) => s,
    };
    let dn = match domain_name {
        None => {
            return Err(ConfigError::DomainNotFound);
        },
        Some(s) => s,
    };
    let t: RecordType = match record_type {
        None => RecordType::A,
        Some(rt) => {
            let folded = upper_chars(&str_chars(rt.as_str()));
            match parse_config_record_type(&folded) {
                Some(t) => t,
                None => {
                    return Err(ConfigError::InvalidRecordType);
                },
            }
        },
    };
    Ok(
        Config {
            api_key: ak,
            secret_key: sk,
            domain_name: dn,
            subdomain: subdomain,
            record_type: t,
        },
    )
}

} // verus!
