//! The wire coercion helper, the request envelope, and the JSON layer
//! exercised on concrete text.

use dynapork::common_types::{request_body, Credentials};
use dynapork::ping::{interpret_ping_body, PingError};
use dynapork::wire::{i32_to_wire, parse_wire_i32};

#[test]
fn request_body_is_the_wire_envelope() {
    let c = Credentials {
        api_key: "pk1_abc".to_string(),
        secret_key: "sk1_def".to_string(),
    };
    assert_eq!(
        request_body(&c),
        "{\"apikey\":\"pk1_abc\",\"secretapikey\":\"sk1_def\"}"
    );
}

#[test]
fn request_body_escapes_quotes_and_backslashes() {
    let c = Credentials {
        api_key: "a\"b".to_string(),
        secret_key: "c\\d".to_string(),
    };
    assert_eq!(
        request_body(&c),
        "{\"apikey\":\"a\\\"b\",\"secretapikey\":\"c\\\\d\"}"
    );
}

fn chars_of(s: &str) -> Vec<char> {
    s.chars().collect()
}

#[test]
fn wire_i32_accepts_digits_only() {
    assert_eq!(parse_wire_i32(&chars_of("600")), Some(600));
    assert_eq!(parse_wire_i32(&chars_of("0")), Some(0));
    assert_eq!(parse_wire_i32(&chars_of("007")), Some(7));
    assert_eq!(parse_wire_i32(&chars_of("2147483647")), Some(2147483647));
}

#[test]
fn wire_i32_rejects_boundary_overflow_signs_and_noise() {
    assert_eq!(parse_wire_i32(&chars_of("2147483648")), None);
    assert_eq!(parse_wire_i32(&chars_of("")), None);
    assert_eq!(parse_wire_i32(&chars_of("-1")), None);
    assert_eq!(parse_wire_i32(&chars_of("+1")), None);
    assert_eq!(parse_wire_i32(&chars_of(" 600")), None);
    assert_eq!(parse_wire_i32(&chars_of("600 ")), None);
    assert_eq!(parse_wire_i32(&chars_of("6a0")), None);
}

#[test]
fn wire_i32_printing_reads_back() {
    let digits = i32_to_wire(1234567);
    let text: String = digits.iter().collect();
    assert_eq!(text, "1234567");
    assert_eq!(parse_wire_i32(&digits), Some(1234567));
}

#[test]
fn json_string_escapes_decode_in_bodies() {
    let body = "{\"status\":\"SUCCESS\",\"yourIp\":\"\\u0031.2.\\u00333.4\\t\"}";
    assert_eq!(interpret_ping_body(body).unwrap(), "1.2.33.4\t");
}

#[test]
fn json_surrogate_pair_escape_decodes() {
    let body = "{\"status\":\"SUCCESS\",\"yourIp\":\"\\uD83D\\uDE00\"}";
    assert_eq!(interpret_ping_body(body).unwrap(), "\u{1F600}");
}

#[test]
fn json_lone_surrogate_is_decode_error() {
    let body = "{\"status\":\"SUCCESS\",\"yourIp\":\"\\uD83Dx\"}";
    assert_eq!(
        interpret_ping_body(body).unwrap_err(),
        PingError::ResponseDecodeError
    );
}

#[test]
fn json_status_string_never_drives_control_flow() {
    let body = "{\"status\":\"ERROR\",\"yourIp\":\"10.0.0.1\"}";
    assert_eq!(interpret_ping_body(body).unwrap(), "10.0.0.1");
}
