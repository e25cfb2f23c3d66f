//! The ping endpoint and the first-generation ping operation, driven
//! through a mock transport returning canned bodies.

use dynapork::client::{HttpClient, TransportFailure};
use dynapork::common_types::Credentials;
use dynapork::ping::{ping, PingError};
use dynapork::porkbun::{request_ip, PorkbunError};

struct MockHttpClient {
    response_body: String,
}

impl HttpClient for MockHttpClient {
    fn post_json(&self, _url: &str, _body: &str) -> Result<String, TransportFailure> {
        Ok(self.response_body.clone())
    }
}

struct FailingHttpClient;

impl HttpClient for FailingHttpClient {
    fn post_json(&self, _url: &str, _body: &str) -> Result<String, TransportFailure> {
        Err(TransportFailure)
    }
}

const IP_ADDRESS: &str = "192.168.1.1";

fn default_credentials() -> Credentials {
    Credentials {
        api_key: "AK".to_string(),
        secret_key: "SK".to_string(),
    }
}

#[test]
fn returns_ip_provided_by_api_on_success() {
    let client = MockHttpClient {
        response_body: format!("{{\"status\":\"SUCCESS\",\"yourIp\":\"{}\"}}", IP_ADDRESS),
    };

    let result = ping(&client, &default_credentials()).unwrap();

    assert_eq!(result, IP_ADDRESS);
}

#[test]
fn returns_invalid_credentials_error_on_correct_failure() {
    let client = MockHttpClient {
        response_body: "{\"status\":\"ERROR\",\"message\":\"Invalid API key. (002)\"}"
            .to_string(),
    };

    let result = ping(&client, &default_credentials()).unwrap_err();

    assert_eq!(result, PingError::InvalidCredentials);
}

#[test]
fn ping_maps_unlisted_message_to_unknown() {
    let client = MockHttpClient {
        response_body: "{\"status\":\"ERROR\",\"message\":\"Non-specific, unknown error (000)\"}"
            .to_string(),
    };

    let result = ping(&client, &default_credentials()).unwrap_err();

    assert_eq!(result, PingError::Unknown);
}

#[test]
fn ping_rejects_empty_ip() {
    let client = MockHttpClient {
        response_body: "{\"status\":\"SUCCESS\",\"yourIp\":\"\"}".to_string(),
    };

    let result = ping(&client, &default_credentials()).unwrap_err();

    assert_eq!(result, PingError::ResponseDecodeError);
}

#[test]
fn ping_reports_transport_failure() {
    let result = ping(&FailingHttpClient, &default_credentials()).unwrap_err();

    assert_eq!(result, PingError::TransportError);
}

#[test]
fn ping_reports_undecodable_body() {
    let client = MockHttpClient {
        response_body: "not json at all".to_string(),
    };

    let result = ping(&client, &default_credentials()).unwrap_err();

    assert_eq!(result, PingError::ResponseDecodeError);
}

#[test]
fn returns_expected_ip_on_success() {
    let credentials = Credentials {
        api_key: "".to_owned(),
        secret_key: "".to_owned(),
    };
    let expected_ip = String::from("192.168.1.1");
    let mock_client = MockHttpClient {
        response_body: format!("{{\"status\":\"SUCCESS\",\"yourIp\":\"{}\"}}", expected_ip),
    };

    let result = request_ip(&mock_client, &credentials).unwrap_or("failure".to_owned());

    assert_eq!(result, expected_ip);
}

#[test]
fn returns_credential_error_on_credential_failure() {
    let credentials = Credentials {
        api_key: "".to_owned(),
        secret_key: "".to_owned(),
    };
    let expected_result = PorkbunError::InvalidCredentialsError;

    let mock_client = MockHttpClient {
        response_body: "{\"status\":\"ERROR\",\"message\":\"Invalid API key. (002)\"}"
            .to_owned(),
    };

    let result = request_ip(&mock_client, &credentials).unwrap_err();

    assert_eq!(expected_result, result);
}

#[test]
fn returns_unspecified_error_on_generic_failure() {
    let credentials = Credentials {
        api_key: "".to_owned(),
        secret_key: "".to_owned(),
    };
    let expected_result = PorkbunError::APIError("Non-specific, unknown error (000)".to_owned());

    let mock_client = MockHttpClient {
        response_body: "{\"status\":\"ERROR\",\"message\":\"Non-specific, unknown error (000)\"}"
            .to_owned(),
    };

    let result = request_ip(&mock_client, &credentials).unwrap_err();

    assert_eq!(expected_result, result);
}
