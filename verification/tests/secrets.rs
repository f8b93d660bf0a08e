use mind_palace::ports::{SecretError, SecretsResolver};
use mind_palace::secrets::{
    looks_like_sm_arn, matches_prefix, truncate_for_error, validate_sm_reference,
    AwsSecretsManagerConfig, DenySecretsResolver,
};

const PREFIX: &str = "arn:aws:secretsmanager:us-east-1:123456789012:secret:mind-palace/*";

fn config(prefix: &str) -> AwsSecretsManagerConfig {
    AwsSecretsManagerConfig { arn_prefix: prefix.to_string() }
}

#[test]
fn valid_arn_under_prefix_ok() {
    assert!(validate_sm_reference(
        &config(PREFIX),
        "arn:aws:secretsmanager:us-east-1:123456789012:secret:mind-palace/db-abc123"
    )
    .is_ok());
}

#[test]
fn raw_secret_value_rejected() {
    let err = validate_sm_reference(&config(PREFIX), "hunter2-super-secret").unwrap_err();
    assert!(matches!(err, SecretError::InvalidReference(_)));
}

#[test]
fn arn_outside_prefix_rejected() {
    let err = validate_sm_reference(
        &config(PREFIX),
        "arn:aws:secretsmanager:us-east-1:123456789012:secret:other-app/key-xyz",
    )
    .unwrap_err();
    assert!(matches!(err, SecretError::InvalidReference(m) if m == format!("reference is outside the allowed prefix '{PREFIX}'")));
}

#[test]
fn wrong_service_arn_rejected() {
    assert!(validate_sm_reference(&config(PREFIX), "arn:aws:s3:::my-bucket/obj").is_err());
}

#[test]
fn deny_resolver_denies_everything() {
    let deny = DenySecretsResolver;
    assert!(deny.validate_reference("anything").is_ok());
    match deny.resolve("anything") {
        Ok(_) => panic!("the deny backend must never resolve"),
        Err(err) => assert!(matches!(err, SecretError::NotConfigured(_))),
    }
}

#[test]
fn exact_prefix_without_wildcard() {
    let exact = "arn:aws:secretsmanager:r:1:secret:x";
    assert!(matches_prefix(&config(exact), exact));
    assert!(!matches_prefix(&config(exact), "arn:aws:secretsmanager:r:1:secret:xy"));
    assert!(looks_like_sm_arn(exact));
    assert!(!looks_like_sm_arn("arn:aws:secretsmanager:r:1:nosecret"));
}

#[test]
fn long_references_are_shortened_in_errors() {
    assert_eq!(truncate_for_error("short"), "short");
    assert_eq!(truncate_for_error("abcdefghijklmnopqrstuvwxyz"), "abcdefghijklmnopqrstuvwx…");
    let err = validate_sm_reference(&config(PREFIX), "abcdefghijklmnopqrstuvwxyz").unwrap_err();
    assert!(matches!(err, SecretError::InvalidReference(m) if m.starts_with("'abcdefghijklmnopqrstuvwx…'")));
    assert_eq!(
        SecretError::NotConfigured("x".into()).message(),
        "secrets backend not configured: x"
    );
}

#[test]
fn secret_values_print_redacted() {
    let v = mind_palace::ports::SecretValue::new("hunter2".to_string());
    assert_eq!(v.redacted(), "SecretValue(<redacted>)");
    assert_eq!(v.expose(), "hunter2");
}
