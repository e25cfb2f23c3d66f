//! Configuration building: defaulting, case folding, and the
//! structured failure reasons.

use dynapork::config::{build_config, to_record_type, ConfigError, RecordType};

#[test]
fn to_record_type_accepts_each_name() {
    assert_eq!(to_record_type("A").unwrap(), RecordType::A);
    assert_eq!(to_record_type("AAAA").unwrap(), RecordType::AAAA);
    assert_eq!(to_record_type("CNAME").unwrap(), RecordType::CNAME);
    assert_eq!(to_record_type("MX").unwrap(), RecordType::MX);
    assert_eq!(to_record_type("TXT").unwrap(), RecordType::TXT);
    assert_eq!(to_record_type("SRV").unwrap(), RecordType::SRV);
    assert_eq!(to_record_type("NS").unwrap(), RecordType::NS);
    assert_eq!(to_record_type("PTR").unwrap(), RecordType::PTR);
    assert_eq!(to_record_type("CAA").unwrap(), RecordType::CAA);
}

#[test]
fn to_record_type_rejects_unknown_name() {
    assert_eq!(
        to_record_type("ALIAS").unwrap_err(),
        ConfigError::InvalidRecordType
    );
}

fn full_settings() -> (Option<String>, Option<String>, Option<String>, Option<String>) {
    (
        Some("AK".to_string()),
        Some("SK".to_string()),
        Some("example.com".to_string()),
        Some("www".to_string()),
    )
}

#[test]
fn build_config_defaults_record_type_to_a() {
    let (ak, sk, dn, sd) = full_settings();
    let config = build_config(ak, sk, dn, sd, None).unwrap();
    assert_eq!(config.record_type, RecordType::A);
    assert_eq!(config.api_key, "AK");
    assert_eq!(config.secret_key, "SK");
    assert_eq!(config.domain_name, "example.com");
    assert_eq!(config.subdomain, Some("www".to_string()));
}

#[test]
fn build_config_folds_record_type_case() {
    let (ak, sk, dn, sd) = full_settings();
    let config = build_config(ak, sk, dn, sd, Some("cname".to_string())).unwrap();
    assert_eq!(config.record_type, RecordType::CNAME);
}

#[test]
fn build_config_reports_each_missing_value() {
    let (_, sk, dn, sd) = full_settings();
    assert_eq!(
        build_config(None, sk, dn, sd, None).unwrap_err(),
        ConfigError::ApiKeyNotFound
    );
    let (ak, _, dn, sd) = full_settings();
    assert_eq!(
        build_config(ak, None, dn, sd, None).unwrap_err(),
        ConfigError::ApiSecretNotFound
    );
    let (ak, sk, _, sd) = full_settings();
    assert_eq!(
        build_config(ak, sk, None, sd, None).unwrap_err(),
        ConfigError::DomainNotFound
    );
    let (ak, sk, dn, sd) = full_settings();
    assert_eq!(
        build_config(ak, sk, dn, sd, Some("TLSA".to_string())).unwrap_err(),
        ConfigError::InvalidRecordType
    );
}

#[test]
fn build_config_without_subdomain() {
    let (ak, sk, dn, _) = full_settings();
    let config = build_config(ak, sk, dn, None, None).unwrap();
    assert_eq!(config.subdomain, None);
}
