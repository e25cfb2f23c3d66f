//! The registrar's endpoint URLs.

use vstd::prelude::*;

verus! {

/// The ping endpoint, IPv4 flavor: it echoes the caller's public IPv4.
pub open spec fn spec_ping_url() -> Seq<char> {
    "https://api-ipv4.porkbun.com/api/json/v3/ping"@
}

/// The ping endpoint URL.
pub fn ping_url() -> (s: String)
    ensures
        s@ == spec_ping_url(),
{
    String::from_str("https://api-ipv4.porkbun.com/api/json/v3/ping")
}

/// The base of the retrieve-records endpoint; the domain is appended
/// after one `/`.
pub open spec fn spec_retrieve_url() -> Seq<char> {
    "https://api.porkbun.com/api/json/v3/dns/retrieve"@
}

/// The retrieve endpoint base URL.
pub fn retrieve_url() -> (s: String)
    ensures
        s@ == spec_retrieve_url(),
{
    String::from_str("https://api.porkbun.com/api/json/v3/dns/retrieve")
}

} // verus!
