//! The retrieve endpoint, driven through a mock transport: the
//! seven-record fixture, the failure mappings, and the wire-coercion
//! boundaries.

use dynapork::client::{HttpClient, TransportFailure};
use dynapork::common_types::Credentials;
use dynapork::common_types::RecordType;
use dynapork::retrieve::{
    interpret_retrieve_body, retrieve_records_by_domain, serialize_retrieve_success,
    CloudFlareStatus, RetrieveError, RetrieveRecord, RetrieveSuccessResponse,
};

struct MockHttpClient {
    response_body: String,
}

impl HttpClient for MockHttpClient {
    fn post_json(&self, _url: &str, _body: &str) -> Result<String, TransportFailure> {
        Ok(self.response_body.clone())
    }
}

fn default_credentials() -> Credentials {
    Credentials {
        api_key: "AK".to_string(),
        secret_key: "SK".to_string(),
    }
}

const DEFAULT_DOMAIN: &str = "pfx.website.ext";

const SUCCESS_RESPONSE: &str = r#"
{
  "status": "SUCCESS",
  "cloudflare": "enabled",
  "records": [
    {
      "id": "1234567",
      "name": "pfx.website.ext",
      "type": "A",
      "content": "192.168.0.0",
      "ttl": "600",
      "prio": "0",
      "notes": null
    },
    {
      "id": "1234568",
      "name": "website.ext",
      "type": "NS",
      "content": "maceio.porkbun.com",
      "ttl": "86400",
      "prio": null,
      "notes": null
    },
    {
      "id": "1234569",
      "name": "website.ext",
      "type": "NS",
      "content": "salvador.porkbun.com",
      "ttl": "86400",
      "prio": null,
      "notes": null
    },
    {
      "id": "1234570",
      "name": "website.ext",
      "type": "NS",
      "content": "fortaleza.porkbun.com",
      "ttl": "86400",
      "prio": null,
      "notes": null
    },
    {
      "id": "1234571",
      "name": "website.ext",
      "type": "NS",
      "content": "curitiba.porkbun.com",
      "ttl": "86400",
      "prio": null,
      "notes": null
    },
    {
      "id": "1234572",
      "name": "_acme-challenge.website.ext",
      "type": "TXT",
      "content": "random_string",
      "ttl": "600",
      "prio": null,
      "notes": null
    },
    {
      "id": "1234573",
      "name": "_acme-challenge.website.ext",
      "type": "TXT",
      "content": "random_string",
      "ttl": "600",
      "prio": null,
      "notes": null
    }
  ]
}"#;

#[test]
fn returns_correct_result_on_success() {
    let client = MockHttpClient {
        response_body: SUCCESS_RESPONSE.to_string(),
    };

    let expected_result = RetrieveSuccessResponse {
        status: "SUCCESS".to_string(),
        cloudflare_status: CloudFlareStatus::Enabled,
        records: vec![
            RetrieveRecord {
                id: 1234567,
                name: "pfx.website.ext".to_string(),
                record_type: RecordType::A,
                content: "192.168.0.0".to_string(),
                ttl: 600,
                prio: Some(0),
                notes: None,
            },
            RetrieveRecord {
                id: 1234568,
                name: "website.ext".to_string(),
                record_type: RecordType::NS,
                content: "maceio.porkbun.com".to_string(),
                ttl: 86400,
                prio: None,
                notes: None,
            },
            RetrieveRecord {
                id: 1234569,
                name: "website.ext".to_string(),
                record_type: RecordType::NS,
                content: "salvador.porkbun.com".to_string(),
                ttl: 86400,
                prio: None,
                notes: None,
            },
            RetrieveRecord {
                id: 1234570,
                name: "website.ext".to_string(),
                record_type: RecordType::NS,
                content: "fortaleza.porkbun.com".to_string(),
                ttl: 86400,
                prio: None,
                notes: None,
            },
            RetrieveRecord {
                id: 1234571,
                name: "website.ext".to_string(),
                record_type: RecordType::NS,
                content: "curitiba.porkbun.com".to_string(),
                ttl: 86400,
                prio: None,
                notes: None,
            },
            RetrieveRecord {
                id: 1234572,
                name: "_acme-challenge.website.ext".to_string(),
                record_type: RecordType::TXT,
                content: "random_string".to_string(),
                ttl: 600,
                prio: None,
                notes: None,
            },
            RetrieveRecord {
                id: 1234573,
                name: "_acme-challenge.website.ext".to_string(),
                record_type: RecordType::TXT,
                content: "random_string".to_string(),
                ttl: 600,
                prio: None,
                notes: None,
            },
        ],
    };

    let result =
        retrieve_records_by_domain(&client, &default_credentials(), DEFAULT_DOMAIN).unwrap();

    assert_eq!(result, expected_result);
}

fn failure_body(message: &str) -> String {
    format!("{{\"status\":\"FAILURE\",\"message\":\"{}\"}}", message)
}

fn retrieve_error_for(message: &str) -> RetrieveError {
    let client = MockHttpClient {
        response_body: failure_body(message),
    };
    retrieve_records_by_domain(&client, &default_credentials(), DEFAULT_DOMAIN).unwrap_err()
}

#[test]
fn maps_missing_credentials_message() {
    assert_eq!(
        retrieve_error_for("All API requests must provide minimal required data."),
        RetrieveError::InvalidCredentials
    );
}

#[test]
fn maps_missing_api_key_message() {
    assert_eq!(
        retrieve_error_for("All API requests require an API key."),
        RetrieveError::MissingAPIKey
    );
}

#[test]
fn maps_invalid_api_key_message() {
    assert_eq!(
        retrieve_error_for("Invalid API key. (001)"),
        RetrieveError::InvalidAPIKey
    );
}

#[test]
fn maps_invalid_secret_key_message() {
    assert_eq!(
        retrieve_error_for("Invalid API key. (002)"),
        RetrieveError::InvalidSecretKey
    );
}

#[test]
fn maps_invalid_domain_message() {
    assert_eq!(
        retrieve_error_for("Invalid domain."),
        RetrieveError::InvalidDomain
    );
}

#[test]
fn maps_invalid_permissions_message() {
    assert_eq!(
        retrieve_error_for("Domain is not opted in to API access."),
        RetrieveError::InvalidPermissions
    );
}

#[test]
fn maps_unlisted_message_to_unknown() {
    assert_eq!(
        retrieve_error_for("Non-specific, unknown error (000)"),
        RetrieveError::Unknown
    );
}

#[test]
fn error_kind_ignores_status_string() {
    let client = MockHttpClient {
        response_body: "{\"status\":\"ANYTHING\",\"message\":\"Invalid domain.\"}".to_string(),
    };
    let result =
        retrieve_records_by_domain(&client, &default_credentials(), DEFAULT_DOMAIN).unwrap_err();
    assert_eq!(result, RetrieveError::InvalidDomain);
}

fn one_record_body(id: &str, ttl: &str, prio_json: &str, notes_json: &str) -> String {
    format!(
        "{{\"status\":\"SUCCESS\",\"cloudflare\":\"disabled\",\"records\":[{{\"id\":\"{}\",\"name\":\"n\",\"type\":\"A\",\"content\":\"c\",\"ttl\":\"{}\",\"prio\":{},\"notes\":{}}}]}}",
        id, ttl, prio_json, notes_json
    )
}

fn retrieve_body(body: String) -> Result<RetrieveSuccessResponse, RetrieveError> {
    let client = MockHttpClient {
        response_body: body,
    };
    retrieve_records_by_domain(&client, &default_credentials(), DEFAULT_DOMAIN)
}

#[test]
fn ttl_and_id_parse_at_i32_boundary() {
    let ok = retrieve_body(one_record_body("2147483647", "2147483647", "null", "null")).unwrap();
    assert_eq!(ok.records[0].id, 2147483647);
    assert_eq!(ok.records[0].ttl, 2147483647);
}

#[test]
fn ttl_past_i32_boundary_is_decode_error() {
    let err = retrieve_body(one_record_body("1", "2147483648", "null", "null")).unwrap_err();
    assert_eq!(err, RetrieveError::ResponseDecodeError);
}

#[test]
fn id_past_i32_boundary_is_decode_error() {
    let err = retrieve_body(one_record_body("2147483648", "600", "null", "null")).unwrap_err();
    assert_eq!(err, RetrieveError::ResponseDecodeError);
}

#[test]
fn negative_ttl_is_decode_error() {
    let err = retrieve_body(one_record_body("1", "-600", "null", "null")).unwrap_err();
    assert_eq!(err, RetrieveError::ResponseDecodeError);
}

#[test]
fn prio_null_and_absent_both_unset() {
    let with_null = retrieve_body(one_record_body("1", "600", "null", "null")).unwrap();
    assert_eq!(with_null.records[0].prio, None);

    let absent = "{\"status\":\"SUCCESS\",\"cloudflare\":\"disabled\",\"records\":[{\"id\":\"1\",\"name\":\"n\",\"type\":\"A\",\"content\":\"c\",\"ttl\":\"600\",\"notes\":null}]}";
    let without = retrieve_body(absent.to_string()).unwrap();
    assert_eq!(without.records[0].prio, None);
}

#[test]
fn notes_empty_string_is_kept_and_null_or_absent_is_unset() {
    let empty = retrieve_body(one_record_body("1", "600", "null", "\"\"")).unwrap();
    assert_eq!(empty.records[0].notes, Some("".to_string()));

    let with_null = retrieve_body(one_record_body("1", "600", "null", "null")).unwrap();
    assert_eq!(with_null.records[0].notes, None);

    let absent = "{\"status\":\"SUCCESS\",\"cloudflare\":\"disabled\",\"records\":[{\"id\":\"1\",\"name\":\"n\",\"type\":\"A\",\"content\":\"c\",\"ttl\":\"600\",\"prio\":null}]}";
    let without = retrieve_body(absent.to_string()).unwrap();
    assert_eq!(without.records[0].notes, None);
}

#[test]
fn success_round_trips_through_reserialization() {
    let first = interpret_retrieve_body(SUCCESS_RESPONSE).unwrap();
    let text = serialize_retrieve_success(&first);
    let second = interpret_retrieve_body(&text).unwrap();
    assert_eq!(first, second);
}

#[test]
fn undecodable_body_is_decode_error() {
    let err = retrieve_body("{\"status\":\"SUCCESS\"}".to_string()).unwrap_err();
    assert_eq!(err, RetrieveError::ResponseDecodeError);
}
