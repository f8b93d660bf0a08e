use mind_palace::auth::{
    bearer_from, default_jwks_url, identity_from_claims, identity_from_decoded, jwt_settings, jwks_cache_hit, jwks_needs_refresh,
    resource_url, www_authenticate_value, AuthConfig, AuthError, AuthMode, ConfigError,
    ProtectedResourceMetadata, token_key_id, validate_token_with_key,
};
use jsonwebtoken::{encode, Algorithm, DecodingKey, EncodingKey, Header};
use mind_palace::tenant::Identity;

fn env(pairs: &[(&str, &str)]) -> Vec<(String, String)> {
    pairs.iter().map(|(k, v)| (k.to_string(), v.to_string())).collect()
}

/// The claims of a JSON object: each member with its text when a string.
fn claims(text: &str) -> Vec<(String, Option<String>)> {
    let v: serde_json::Value = serde_json::from_str(text).unwrap();
    v.as_object()
        .unwrap()
        .iter()
        .map(|(k, x)| (k.clone(), x.as_str().map(|t| t.to_string())))
        .collect()
}

#[test]
fn identity_prefers_email_claim() {
    let c = claims(r#"{ "email": "alice@example.com", "sub": "abc-123" }"#);
    let id = identity_from_claims(&c, "email", "sub");
    assert_eq!(id.as_deref(), Some("alice@example.com"));
}

#[test]
fn identity_falls_back_when_email_absent() {
    let c = claims(r#"{ "sub": "client-cred-123" }"#);
    let id = identity_from_claims(&c, "email", "sub");
    assert_eq!(id.as_deref(), Some("client-cred-123"));
}

#[test]
fn identity_none_when_no_usable_claim() {
    let c = claims(r#"{ "unrelated": "x" }"#);
    assert!(identity_from_claims(&c, "email", "sub").is_none());
    let empty = claims(r#"{ "email": "", "sub": "" }"#);
    assert!(identity_from_claims(&empty, "email", "sub").is_none());
    let not_text = claims(r#"{ "email": 7, "sub": "s" }"#);
    assert_eq!(identity_from_claims(&not_text, "email", "sub").as_deref(), Some("s"));
}

#[test]
fn none_mode_is_anonymous() {
    let cfg = AuthConfig { mode: AuthMode::NoAuth, token: None, token_identity: "shared-token".into(), oidc: None };
    assert_eq!(cfg.resolve_bearer(None).unwrap(), Some(Identity::Anonymous));
    assert_eq!(cfg.resolve_bearer(Some("anything")).unwrap(), Some(Identity::Anonymous));
}

#[test]
fn token_mode_matches_shared_token() {
    let cfg = AuthConfig {
        mode: AuthMode::Token,
        token: Some("s3cret".into()),
        token_identity: "team@example.com".into(),
        oidc: None,
    };
    assert_eq!(
        cfg.resolve_bearer(Some("s3cret")).unwrap(),
        Some(Identity::User { id: "team@example.com".into() })
    );
    assert!(matches!(cfg.resolve_bearer(Some("wrong")), Err(AuthError::InvalidToken)));
    assert!(matches!(cfg.resolve_bearer(None), Err(AuthError::MissingToken)));
}

#[test]
fn oidc_mode_defers_to_the_validator() {
    let cfg = AuthConfig { mode: AuthMode::Oidc, token: None, token_identity: "x".into(), oidc: None };
    assert_eq!(cfg.resolve_bearer(Some("jwt")).unwrap(), None);
    assert!(matches!(cfg.resolve_bearer(None), Err(AuthError::MissingToken)));
}

#[test]
fn config_defaults_to_none_mode() {
    let cfg = AuthConfig::from_env(&env(&[])).unwrap();
    assert_eq!(cfg.mode, AuthMode::NoAuth);
    assert!(cfg.oidc.is_none());
    assert_eq!(cfg.token_identity, "shared-token");
}

#[test]
fn config_token_mode_requires_token() {
    assert!(matches!(
        AuthConfig::from_env(&env(&[("MP_AUTH_MODE", "token")])),
        Err(ConfigError::MissingToken)
    ));
    let cfg = AuthConfig::from_env(&env(&[("MP_AUTH_MODE", "token"), ("MP_AUTH_TOKEN", "t")])).unwrap();
    assert_eq!(cfg.token.as_deref(), Some("t"));
}

#[test]
fn config_oidc_requires_issuer_and_derives_jwks() {
    assert!(matches!(
        AuthConfig::from_env(&env(&[("MP_AUTH_MODE", "oidc")])),
        Err(ConfigError::MissingOidc(v)) if v == "MP_OIDC_ISSUER"
    ));
    let cfg = AuthConfig::from_env(&env(&[
        ("MP_AUTH_MODE", "oidc"),
        ("MP_OIDC_ISSUER", "https://issuer.example/pool"),
        ("MP_OIDC_AUDIENCES", "a, b ,c,"),
    ]))
    .unwrap();
    let oidc = cfg.oidc.unwrap();
    assert_eq!(oidc.issuer, "https://issuer.example/pool");
    assert_eq!(oidc.jwks_url, "https://issuer.example/pool/.well-known/jwks.json");
    assert_eq!(oidc.auth_server_url, "https://issuer.example/pool");
    assert_eq!(oidc.audiences, vec!["a", "b", "c"]);
    assert_eq!(oidc.email_claim, "email");
    assert_eq!(oidc.fallback_claim, "sub");
}

#[test]
fn config_rejects_invalid_mode() {
    assert!(matches!(
        AuthConfig::from_env(&env(&[("MP_AUTH_MODE", "bogus")])),
        Err(ConfigError::InvalidMode(m)) if m == "bogus"
    ));
    assert_eq!(AuthMode::parse("  OIDC ").unwrap(), AuthMode::Oidc);
    assert_eq!(AuthMode::parse("").unwrap(), AuthMode::NoAuth);
    assert_eq!(
        AuthConfig::from_env(&env(&[("MP_AUTH_MODE", "   ")])).unwrap().mode,
        AuthMode::NoAuth
    );
}

#[test]
fn default_jwks_url_trims_slashes() {
    assert_eq!(default_jwks_url("https://i.example//"), "https://i.example/.well-known/jwks.json");
}

#[test]
fn www_authenticate_points_at_root_wellknown_not_mcp_path() {
    let v = www_authenticate_value("https://mp.dev.example.com");
    assert_eq!(
        v,
        "Bearer resource_metadata=\"https://mp.dev.example.com/.well-known/oauth-protected-resource\""
    );
    assert!(v.ends_with("/.well-known/oauth-protected-resource\""));
    assert!(!v.contains("/mcp"));
}

#[test]
fn www_authenticate_trims_trailing_slash_on_public_url() {
    let v = www_authenticate_value("https://mp.dev.example.com/");
    assert_eq!(
        v,
        "Bearer resource_metadata=\"https://mp.dev.example.com/.well-known/oauth-protected-resource\""
    );
}

#[test]
fn resource_url_is_public_url_plus_mcp_path() {
    let public_url = "https://mp.dev.example.com";
    let mcp_path = "/mcp";
    assert_eq!(resource_url(public_url, mcp_path), "https://mp.dev.example.com/mcp");
    assert_eq!(resource_url("https://mp.dev.example.com/", mcp_path), "https://mp.dev.example.com/mcp");
}

#[test]
fn bearer_header_parsing() {
    assert_eq!(bearer_from(Some("Bearer abc.def")).as_deref(), Some("abc.def"));
    assert_eq!(bearer_from(Some("Basic xyz")), None);
    assert_eq!(bearer_from(None), None);
    assert_eq!(bearer_from(Some("Bearer ")).as_deref(), Some(""));
}

#[test]
fn protected_resource_metadata_shape() {
    let m = ProtectedResourceMetadata::new("https://h/mcp", "https://auth");
    assert_eq!(m.resource, "https://h/mcp");
    assert_eq!(m.authorization_servers, vec!["https://auth".to_string()]);
    assert_eq!(m.bearer_methods_supported, vec!["header".to_string()]);
}

#[test]
fn jwks_refresh_policy() {
    assert!(jwks_cache_hit(Some(10), true, 3600));
    assert!(!jwks_cache_hit(Some(4000), true, 3600));
    assert!(!jwks_cache_hit(None, true, 3600));
    assert!(jwks_needs_refresh(None, false, 3600, 60));
    assert!(jwks_needs_refresh(Some(90), false, 3600, 60));
    assert!(!jwks_needs_refresh(Some(30), false, 3600, 60));
    assert!(jwks_needs_refresh(Some(3600), true, 3600, 60));
}

const HMAC_SECRET: &[u8] = b"unit-test-signing-secret";

fn hmac_keys() -> (EncodingKey, DecodingKey) {
    (EncodingKey::from_secret(HMAC_SECRET), DecodingKey::from_secret(HMAC_SECRET))
}

fn sign(claims: serde_json::Value) -> String {
    let (enc, _) = hmac_keys();
    encode(&Header::new(Algorithm::HS256), &claims, &enc).unwrap()
}

fn now() -> i64 {
    chrono::Utc::now().timestamp()
}

fn cfg() -> (String, Vec<String>) {
    ("https://issuer.example".to_string(), vec!["mp-api".to_string()])
}

fn object(pairs: &[(&str, serde_json::Value)]) -> serde_json::Value {
    let mut m = serde_json::Map::new();
    for (k, v) in pairs {
        m.insert(k.to_string(), v.clone());
    }
    serde_json::Value::Object(m)
}

fn text(s: &str) -> serde_json::Value {
    serde_json::Value::String(s.to_string())
}

fn number(n: i64) -> serde_json::Value {
    serde_json::Value::from(n)
}

#[test]
fn valid_jwt_yields_email_identity() {
    let (issuer, auds) = cfg();
    let (_, key) = hmac_keys();
    let token = sign(object(&[
        ("iss", text(&issuer)),
        ("aud", text("mp-api")),
        ("email", text("alice@example.com")),
        ("sub", text("abc")),
        ("exp", number(now() + 3600)),
    ]));
    let id = validate_token_with_key(&token, &key, Algorithm::HS256, &issuer, &auds, "email", "sub")
        .expect("valid token");
    assert_eq!(id, Identity::User { id: "alice@example.com".into() });
}

#[test]
fn m2m_client_credentials_token_uses_email_alias() {
    let (issuer, auds) = cfg();
    let (_, key) = hmac_keys();
    let token = sign(object(&[
        ("iss", text(&issuer)),
        ("aud", text("mp-api")),
        ("email", text("agent-bot@example.com")),
        ("exp", number(now() + 3600)),
    ]));
    let id = validate_token_with_key(&token, &key, Algorithm::HS256, &issuer, &auds, "email", "sub")
        .unwrap();
    assert_eq!(id, Identity::User { id: "agent-bot@example.com".into() });
}

#[test]
fn expired_jwt_is_rejected() {
    let (issuer, auds) = cfg();
    let (_, key) = hmac_keys();
    let token = sign(object(&[
        ("iss", text(&issuer)),
        ("aud", text("mp-api")),
        ("email", text("alice@example.com")),
        ("exp", number(now() - 3600)),
    ]));
    let res = validate_token_with_key(&token, &key, Algorithm::HS256, &issuer, &auds, "email", "sub");
    assert!(matches!(res, Err(AuthError::Validation(_))), "got {res:?}");
}

#[test]
fn wrong_audience_jwt_is_rejected() {
    let (issuer, auds) = cfg();
    let (_, key) = hmac_keys();
    let token = sign(object(&[
        ("iss", text(&issuer)),
        ("aud", text("some-other-api")),
        ("email", text("alice@example.com")),
        ("exp", number(now() + 3600)),
    ]));
    let res = validate_token_with_key(&token, &key, Algorithm::HS256, &issuer, &auds, "email", "sub");
    assert!(matches!(res, Err(AuthError::Validation(_))), "got {res:?}");
}

#[test]
fn wrong_issuer_jwt_is_rejected() {
    let (_, auds) = cfg();
    let (_, key) = hmac_keys();
    let token = sign(object(&[
        ("iss", text("https://evil.example")),
        ("aud", text("mp-api")),
        ("email", text("alice@example.com")),
        ("exp", number(now() + 3600)),
    ]));
    let res = validate_token_with_key(
        &token,
        &key,
        Algorithm::HS256,
        "https://issuer.example",
        &auds,
        "email",
        "sub",
    );
    assert!(matches!(res, Err(AuthError::Validation(_))), "got {res:?}");
}

#[test]
fn valid_jwt_falls_back_to_sub_when_no_email() {
    let (issuer, auds) = cfg();
    let (_, key) = hmac_keys();
    let token = sign(object(&[
        ("iss", text(&issuer)),
        ("aud", text("mp-api")),
        ("sub", text("svc-account-7")),
        ("exp", number(now() + 3600)),
    ]));
    let id = validate_token_with_key(&token, &key, Algorithm::HS256, &issuer, &auds, "email", "sub")
        .unwrap();
    assert_eq!(id, Identity::User { id: "svc-account-7".into() });
}

#[test]
fn token_without_usable_identity_has_none() {
    let (issuer, auds) = cfg();
    let (_, key) = hmac_keys();
    let token = sign(object(&[
        ("iss", text(&issuer)),
        ("aud", text("mp-api")),
        ("email", text("")),
        ("exp", number(now() + 3600)),
    ]));
    let res = validate_token_with_key(&token, &key, Algorithm::HS256, &issuer, &auds, "email", "sub");
    assert_eq!(res, Err(AuthError::NoIdentity));
}

#[test]
fn audience_unchecked_when_none_configured() {
    let (issuer, _) = cfg();
    let (_, key) = hmac_keys();
    let token = sign(object(&[
        ("iss", text(&issuer)),
        ("aud", text("anything")),
        ("email", text("bob@example.com")),
        ("exp", number(now() + 3600)),
    ]));
    let id = validate_token_with_key(&token, &key, Algorithm::HS256, &issuer, &[], "email", "sub")
        .unwrap();
    assert_eq!(id, Identity::User { id: "bob@example.com".into() });
}

#[test]
fn token_key_id_reads_the_header() {
    let (enc, _) = hmac_keys();
    let mut header = Header::new(Algorithm::HS256);
    header.kid = Some("key-1".to_string());
    let claims = object(&[("exp", number(now() + 60))]);
    let token = encode(&header, &claims, &enc).unwrap();
    let (kid, alg) = token_key_id(&token).unwrap();
    assert_eq!(kid, "key-1");
    assert_eq!(alg, Algorithm::HS256);
    let bare = sign(claims);
    assert_eq!(token_key_id(&bare), Err(AuthError::NoKid));
    assert_eq!(token_key_id("not a token"), Err(AuthError::InvalidToken));
}

#[test]
fn identity_prefers_the_email_claim_wherever_it_stands() {
    let c = vec![
        ("sub".to_string(), Some("abc".to_string())),
        ("email".to_string(), Some("a@x.com".to_string())),
    ];
    assert_eq!(identity_from_claims(&c, "email", "sub").as_deref(), Some("a@x.com"));
    assert_eq!(identity_from_claims(&c, "sub", "email").as_deref(), Some("abc"));
}

#[test]
fn decoded_claims_give_the_identity() {
    let c = vec![("email".to_string(), Some("a@x.com".to_string()))];
    assert_eq!(
        identity_from_decoded(Ok(c), "email", "sub"),
        Ok(Identity::User { id: "a@x.com".into() })
    );
    assert_eq!(identity_from_decoded(Ok(vec![]), "email", "sub"), Err(AuthError::NoIdentity));
    assert_eq!(
        identity_from_decoded(Err("ExpiredSignature".into()), "email", "sub"),
        Err(AuthError::Validation("ExpiredSignature".into()))
    );
}

#[test]
fn token_settings_check_the_audience_only_when_configured() {
    let s = jwt_settings(Algorithm::HS256, "https://issuer.example", &["mp-api".to_string()]);
    assert_eq!(s.issuer, "https://issuer.example");
    assert_eq!(s.audiences, vec!["mp-api".to_string()]);
    assert!(s.validate_aud);
    let none = jwt_settings(Algorithm::RS256, "i", &[]);
    assert!(!none.validate_aud);
    assert_eq!(none.alg, Algorithm::RS256);
}
