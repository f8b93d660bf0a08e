//! Authentication for the remote server: the configuration read from the
//! environment, how a bearer token resolves to an identity, the identity
//! taken from token claims, and the OAuth discovery values.
use vstd::prelude::*;

use crate::tenant::{Identity, IdentityView};
use crate::text::{
    ascii_lowercase, chars_of, concat2, concat3, copy_str, has_prefix, spec_ascii_lowercase, spec_split,
    spec_trim, split_char, starts_with, str_eq, string_from_chars, strip_trailing, strs_view,
    trim_end_char, trim_str,
};

verus! {

broadcast use vstd::string::group_string_axioms;

// ---------------------------------------------------------------------------
// Modes and errors
// ---------------------------------------------------------------------------

/// Which authentication mode the remote server runs in.
#[derive(Debug, Clone, Copy, PartialEq, Eq, Structural)]
pub enum AuthMode {
    /// No authentication: requests are anonymous (public pages only).
    NoAuth,
    /// A single shared bearer token.
    Token,
    /// OIDC/JWT bearer auth with a per-request identity.
    Oidc,
}

/// Why the auth configuration is unusable.
#[derive(Debug, Clone, PartialEq, Eq)]
pub enum ConfigError {
    InvalidMode(String),
    MissingToken,
    MissingOidc(String),
}

/// The mathematical value of a [`ConfigError`].
pub enum ConfigErrorView {
    InvalidMode(Seq<char>),
    MissingToken,
    MissingOidc(Seq<char>),
}

impl View for ConfigError {
    type V = ConfigErrorView;

    open spec fn view(&self) -> ConfigErrorView {
        match self {
            ConfigError::InvalidMode(m) => ConfigErrorView::InvalidMode(m@),
            ConfigError::MissingToken => ConfigErrorView::MissingToken,
            ConfigError::MissingOidc(m) => ConfigErrorView::MissingOidc(m@),
        }
    }
}

/// The mode named by a configuration value (trimmed, ASCII case ignored):
/// empty or `none`, `token`, `oidc`; anything else is invalid.
pub open spec fn spec_parse_mode(s: Seq<char>) -> Result<AuthMode, ConfigErrorView> {
    let m = spec_ascii_lowercase(spec_trim(s));
    if m == Seq::<char>::empty() || m == "none"@ {
        Ok(AuthMode::NoAuth)
    } else if m == "token"@ {
        Ok(AuthMode::Token)
    } else if m == "oidc"@ {
        Ok(AuthMode::Oidc)
    } else {
        Err(ConfigErrorView::InvalidMode(m))
    }
}

impl AuthMode {
    /// Parses a mode name (see [`spec_parse_mode`]).
    pub fn parse(s: &str) -> (r: Result<AuthMode, ConfigError>)
        ensures
            match spec_parse_mode(s@) {
                Ok(m) => r == Ok::<AuthMode, ConfigError>(m),
                Err(e) => r matches Err(x) && x@ == e,
            },
    {
        let t = trim_str(s);
        let m = ascii_lowercase(t.as_str());
        proof {
            if m@.len() == 0 {
                assert(m@ =~= Seq::<char>::empty());
            }
        }
        if m.as_str().is_empty() || str_eq(m.as_str(), "none") {
            Ok(AuthMode::NoAuth)
        } else if str_eq(m.as_str(), "token") {
            Ok(AuthMode::Token)
        } else if str_eq(m.as_str(), "oidc") {
            Ok(AuthMode::Oidc)
        } else {
            Err(ConfigError::InvalidMode(m))
        }
    }
}

/// Errors that make a request unauthenticated.
#[derive(Debug, Clone, PartialEq, Eq)]
pub enum AuthError {
    MissingToken,
    InvalidToken,
    NoKid,
    UnknownKid,
    Validation(String),
    NoIdentity,
    Jwks(String),
}

// ---------------------------------------------------------------------------
// Configuration
// ---------------------------------------------------------------------------

/// OIDC settings (only in `oidc` mode).
#[derive(Debug, Clone)]
pub struct OidcConfig {
    /// Expected `iss` claim.
    pub issuer: String,
    /// JWKS endpoint URL.
    pub jwks_url: String,
    /// Allowed audiences; empty means the audience is not checked.
    pub audiences: Vec<String>,
    /// Claim used as the identity (default `email`).
    pub email_claim: String,
    /// Claim used when the first is absent (default `sub`).
    pub fallback_claim: String,
    /// Authorization-server URL advertised in discovery metadata.
    pub auth_server_url: String,
}

/// The resolved auth configuration.
#[derive(Debug, Clone)]
pub struct AuthConfig {
    pub mode: AuthMode,
    /// Shared token (`token` mode).
    pub token: Option<String>,
    /// Identity a valid shared token maps to.
    pub token_identity: String,
    /// OIDC settings (`oidc` mode).
    pub oidc: Option<OidcConfig>,
}

/// The value of `key` in an environment snapshot (the first entry with
/// that name), when it is not blank.
pub open spec fn spec_env_opt(env: Seq<(String, String)>, key: Seq<char>) -> Option<Seq<char>> {
    match first_env_index(env, key) {
        Some(i) => if spec_trim(env[i].1@).len() == 0 {
            None
        } else {
            Some(env[i].1@)
        },
        None => None,
    }
}

/// The index of the first entry named `key`.
pub open spec fn first_env_index(env: Seq<(String, String)>, key: Seq<char>) -> Option<int>
    decreases env.len(),
{
    if env.len() == 0 {
        None
    } else if env[0].0@ == key {
        Some(0)
    } else {
        match first_env_index(env.drop_first(), key) {
            Some(i) => Some(i + 1),
            None => None,
        }
    }
}

pub proof fn lemma_first_env_index(env: Seq<(String, String)>, key: Seq<char>)
    ensures
        match first_env_index(env, key) {
            Some(i) => 0 <= i < env.len() && env[i].0@ == key && forall|j: int|
                0 <= j < i ==> (#[trigger] env[j]).0@ != key,
            None => forall|j: int| 0 <= j < env.len() ==> (#[trigger] env[j]).0@ != key,
        },
    decreases env.len(),
{
    if env.len() > 0 && env[0].0@ != key {
        lemma_first_env_index(env.drop_first(), key);
        assert forall|j: int| 1 <= j < env.len() implies env[j] == env.drop_first()[j - 1] by {}
    }
}

pub proof fn lemma_first_env_index_at(env: Seq<(String, String)>, key: Seq<char>, k: int)
    requires
        0 <= k < env.len(),
        env[k].0@ == key,
        forall|j: int| 0 <= j < k ==> (#[trigger] env[j]).0@ != key,
    ensures
        first_env_index(env, key) == Some(k),
{
    lemma_first_env_index(env, key);
    match first_env_index(env, key) {
        Some(i) => {
            if i < k {
                assert(env[i].0@ != key);
            } else if i > k {
                assert(env[k].0@ != key);
            }
        },
        None => {
            assert(env[k].0@ != key);
        },
    }
}

/// The value of a variable in an environment snapshot, unless blank.
pub fn env_opt(env: &Vec<(String, String)>, key: &str) -> (r: Option<String>)
    ensures
        match spec_env_opt(env@, key@) {
            Some(v) => r matches Some(x) && x@ == v,
            None => r is None,
        },
{
    let n = env.len();
    for i in 0..n
        invariant
            n == env@.len(),
            forall|j: int| 0 <= j < i ==> (#[trigger] env@[j]).0@ != key@,
    {
        if str_eq(env[i].0.as_str(), key) {
            proof {
                lemma_first_env_index_at(env@, key@, i as int);
            }
            let t = trim_str(env[i].1.as_str());
            if t.as_str().is_empty() {
                return None;
            }
            return Some(env[i].1.clone());
        }
    }
    proof {
        lemma_first_env_index(env@, key@);
    }
    None
}

/// The conventional JWKS URL of an issuer: trailing slashes removed, then
/// `/.well-known/jwks.json`.
pub open spec fn spec_default_jwks_url(issuer: Seq<char>) -> Seq<char> {
    strip_trailing(issuer, '/') + "/.well-known/jwks.json"@
}

/// The conventional JWKS URL of an issuer.
pub fn default_jwks_url(issuer: &str) -> (r: String)
    ensures
        r@ == spec_default_jwks_url(issuer@),
{
    let base = trim_end_char(issuer, '/');
    concat2(base.as_str(), "/.well-known/jwks.json")
}

/// The trimmed, non-empty pieces of a comma-separated list, in order.
pub open spec fn list_items(pieces: Seq<Seq<char>>) -> Seq<Seq<char>>
    decreases pieces.len(),
{
    if pieces.len() == 0 {
        Seq::empty()
    } else {
        let rest = list_items(pieces.drop_last());
        let t = spec_trim(pieces.last());
        if t.len() == 0 {
            rest
        } else {
            rest.push(t)
        }
    }
}

/// The trimmed, non-empty items of a comma-separated list.
pub fn comma_list(s: &str) -> (r: Vec<String>)
    ensures
        strs_view(r@) == list_items(spec_split(s@, ',')),
{
    let pieces = split_char(s, ',');
    let ghost ps = strs_view(pieces@);
    let mut out: Vec<String> = Vec::new();
    let n = pieces.len();
    for i in 0..n
        invariant
            n == pieces@.len(),
            ps == strs_view(pieces@),
            strs_view(out@) == list_items(ps.take(i as int)),
    {
        assert(ps.take(i + 1).drop_last() =~= ps.take(i as int));
        assert(ps.take(i + 1).last() == pieces@[i as int]@);
        let t = trim_str(pieces[i].as_str());
        if !t.as_str().is_empty() {
            let ghost before = strs_view(out@);
            out.push(t);
            assert(strs_view(out@) =~= before.push(spec_trim(pieces@[i as int]@)));
        }
    }
    assert(ps.take(n as int) =~= ps);
    out
}

/// The value of an optional string.
pub open spec fn ostr(o: Option<String>) -> Option<Seq<char>> {
    match o {
        Some(s) => Some(s@),
        None => None,
    }
}

/// `o`, or `d` when absent.
pub open spec fn or_default(o: Option<Seq<char>>, d: Seq<char>) -> Seq<char> {
    match o {
        Some(v) => v,
        None => d,
    }
}

/// What [`AuthConfig::from_env`] reads from an environment snapshot: the
/// mode from `MP_AUTH_MODE`; the shared token from `MP_AUTH_TOKEN` (needed
/// in `token` mode); in `oidc` mode the issuer from `MP_OIDC_ISSUER`
/// (needed), and the JWKS URL, audiences, claims and authorization server
/// from their variables or their defaults; the token identity from
/// `MP_AUTH_TOKEN_IDENTITY` (default `shared-token`).
pub open spec fn config_from_env(env: Seq<(String, String)>, c: AuthConfig) -> bool {
    &&& spec_parse_mode(or_default(spec_env_opt(env, "MP_AUTH_MODE"@), Seq::empty()))
        == Ok::<AuthMode, ConfigErrorView>(c.mode)
    &&& ostr(c.token) == spec_env_opt(env, "MP_AUTH_TOKEN"@)
    &&& c.token_identity@ == or_default(spec_env_opt(env, "MP_AUTH_TOKEN_IDENTITY"@), "shared-token"@)
    &&& if c.mode == AuthMode::Oidc {
        c.oidc matches Some(o) && {
            let issuer = spec_env_opt(env, "MP_OIDC_ISSUER"@);
            &&& issuer == Some(o.issuer@)
            &&& o.jwks_url@ == or_default(
                spec_env_opt(env, "MP_OIDC_JWKS_URL"@),
                spec_default_jwks_url(o.issuer@),
            )
            &&& strs_view(o.audiences@) == match spec_env_opt(env, "MP_OIDC_AUDIENCES"@) {
                Some(a) => list_items(spec_split(a, ',')),
                None => Seq::empty(),
            }
            &&& o.email_claim@ == or_default(spec_env_opt(env, "MP_OIDC_EMAIL_CLAIM"@), "email"@)
            &&& o.fallback_claim@ == or_default(spec_env_opt(env, "MP_OIDC_FALLBACK_CLAIM"@), "sub"@)
            &&& o.auth_server_url@ == or_default(
                spec_env_opt(env, "MP_OIDC_AUTH_SERVER_URL"@),
                o.issuer@,
            )
        }
    } else {
        c.oidc is None
    }
}

/// The error [`AuthConfig::from_env`] reports, if any: an invalid mode,
/// then a missing issuer in `oidc` mode, then a missing token in `token`
/// mode.
pub open spec fn config_error(env: Seq<(String, String)>) -> Option<ConfigErrorView> {
    match spec_parse_mode(or_default(spec_env_opt(env, "MP_AUTH_MODE"@), Seq::empty())) {
        Err(e) => Some(e),
        Ok(m) => if m == AuthMode::Oidc && spec_env_opt(env, "MP_OIDC_ISSUER"@) is None {
            Some(ConfigErrorView::MissingOidc("MP_OIDC_ISSUER"@))
        } else if m == AuthMode::Token && spec_env_opt(env, "MP_AUTH_TOKEN"@) is None {
            Some(ConfigErrorView::MissingToken)
        } else {
            None
        },
    }
}

/// A variable's value, or a default when absent.
fn env_or_default(env: &Vec<(String, String)>, key: &str, default: &str) -> (r: String)
    ensures
        r@ == or_default(spec_env_opt(env@, key@), default@),
{
    match env_opt(env, key) {
        Some(v) => v,
        None => copy_str(default),
    }
}

impl AuthConfig {
    /// Reads the auth configuration from an environment snapshot (name,
    /// value pairs; see [`config_from_env`] and [`config_error`]).
    pub fn from_env(env: &Vec<(String, String)>) -> (r: Result<AuthConfig, ConfigError>)
        ensures
            match config_error(env@) {
                Some(e) => r matches Err(x) && x@ == e,
                None => r matches Ok(c) && config_from_env(env@, c),
            },
    {
        proof {
            reveal_strlit("");
            assert(""@ =~= Seq::<char>::empty());
        }
        let mode_value = env_or_default(env, "MP_AUTH_MODE", "");
        let mode = match AuthMode::parse(mode_value.as_str()) {
            Ok(m) => m,
            Err(e) => return Err(e),
        };
        let token = env_opt(env, "MP_AUTH_TOKEN");
        let oidc = if mode == AuthMode::Oidc {
            let issuer = match env_opt(env, "MP_OIDC_ISSUER") {
                Some(i) => i,
                None => return Err(ConfigError::MissingOidc(String::from_str("MP_OIDC_ISSUER"))),
            };
            let jwks_url = match env_opt(env, "MP_OIDC_JWKS_URL") {
                Some(u) => u,
                None => default_jwks_url(issuer.as_str()),
            };
            let audiences = match env_opt(env, "MP_OIDC_AUDIENCES") {
                Some(a) => comma_list(a.as_str()),
                None => Vec::new(),
            };
            let email_claim = env_or_default(env, "MP_OIDC_EMAIL_CLAIM", "email");
            let fallback_claim = env_or_default(env, "MP_OIDC_FALLBACK_CLAIM", "sub");
            let auth_server_url = match env_opt(env, "MP_OIDC_AUTH_SERVER_URL") {
                Some(u) => u,
                None => issuer.clone(),
            };
            assert(strs_view(audiences@) == match spec_env_opt(env@, "MP_OIDC_AUDIENCES"@) {
                Some(a) => list_items(spec_split(a, ',')),
                None => Seq::empty(),
            }) by {
                if spec_env_opt(env@, "MP_OIDC_AUDIENCES"@) is None {
                    assert(strs_view(audiences@) =~= Seq::empty());
                }
            }
            Some(
                OidcConfig {
                    issuer,
                    jwks_url,
                    audiences,
                    email_claim,
                    fallback_claim,
                    auth_server_url,
                },
            )
        } else {
            None
        };
        if mode == AuthMode::Token && token.is_none() {
            return Err(ConfigError::MissingToken);
        }
        let token_identity = env_or_default(env, "MP_AUTH_TOKEN_IDENTITY", "shared-token");
        Ok(AuthConfig { mode, token, token_identity, oidc })
    }

    /// How a request's bearer token resolves without OIDC validation:
    /// without auth every request is anonymous; with a shared token a match
    /// is the shared user, a mismatch invalid, no token missing; in OIDC mode
    /// no token is missing and a token is left for the validator (`None`).
    pub fn resolve_bearer(&self, bearer: Option<&str>) -> (r: Result<Option<Identity>, AuthError>)
        ensures
            match self.mode {
                AuthMode::NoAuth => (r matches Ok(Some(i)) && i@ == IdentityView::Anonymous),
                AuthMode::Token => match bearer {
                    Some(t) => if t@ == or_default(ostr(self.token), Seq::empty()) {
                        r matches Ok(Some(i)) && i@ == IdentityView::User(self.token_identity@)
                    } else {
                        r == Err::<Option<Identity>, AuthError>(AuthError::InvalidToken)
                    },
                    None => r == Err::<Option<Identity>, AuthError>(AuthError::MissingToken),
                },
                AuthMode::Oidc => match bearer {
                    Some(_) => r matches Ok(None),
                    None => r == Err::<Option<Identity>, AuthError>(AuthError::MissingToken),
                },
            },
    {
        match self.mode {
            AuthMode::NoAuth => Ok(Some(Identity::Anonymous)),
            AuthMode::Token => {
                proof {
                    reveal_strlit("");
                    assert(""@ =~= Seq::<char>::empty());
                }
                let expected: &str = match &self.token {
                    Some(t) => t.as_str(),
                    None => "",
                };
                assert(expected@ == or_default(ostr(self.token), Seq::empty()));
                match bearer {
                    Some(t) => {
                        if str_eq(t, expected) {
                            Ok(Some(Identity::User { id: self.token_identity.clone() }))
                        } else {
                            Err(AuthError::InvalidToken)
                        }
                    },
                    None => Err(AuthError::MissingToken),
                }
            },
            AuthMode::Oidc => match bearer {
                Some(_) => Ok(None),
                None => Err(AuthError::MissingToken),
            },
        }
    }
}

// ---------------------------------------------------------------------------
// Identity from token claims
// ---------------------------------------------------------------------------

#[verifier::external_type_specification]
#[verifier::external_body]
pub struct ExJsonValue(serde_json::Value);

/// The identity string of a token: the primary claim's text when usable,
/// else the fallback claim's.
pub fn pick_identity(primary: Option<String>, fallback: Option<String>) -> (r: Option<String>)
    ensures
        ostr(r) == match primary {
            Some(p) => if p@.len() > 0 {
                Some(p@)
            } else {
                match fallback {
                    Some(f) => if f@.len() > 0 {
                        Some(f@)
                    } else {
                        None
                    },
                    None => None,
                }
            },
            None => match fallback {
                Some(f) => if f@.len() > 0 {
                    Some(f@)
                } else {
                    None
                },
                None => None,
            },
        },
{
    match primary {
        Some(p) => if !p.as_str().is_empty() {
            return Some(p);
        },
        None => {},
    }
    match fallback {
        Some(f) => if f.as_str().is_empty() {
            None
        } else {
            Some(f)
        },
        None => None,
    }
}

/// The view of decoded claims: each member's name, and its text when it is
/// a string.
pub open spec fn claims_view(cs: Seq<(String, Option<String>)>) -> Seq<(Seq<char>, Option<Seq<char>>)> {
    Seq::new(cs.len(), |i: int| (cs[i].0@, ostr(cs[i].1)))
}

/// The text of claim `name`, when the claims have it, it is a string, and
/// it is not empty (the first member of that name; a JSON object has one).
pub open spec fn claim_text_of(cs: Seq<(Seq<char>, Option<Seq<char>>)>, name: Seq<char>) -> Option<Seq<char>>
    decreases cs.len(),
{
    if cs.len() == 0 {
        None
    } else if cs[0].0 == name {
        match cs[0].1 {
            Some(t) => if t.len() > 0 {
                Some(t)
            } else {
                None
            },
            None => None,
        }
    } else {
        claim_text_of(cs.drop_first(), name)
    }
}

/// The identity the claims give: the email claim's text, else the
/// fallback claim's.
pub open spec fn spec_claim_identity(
    cs: Seq<(Seq<char>, Option<Seq<char>>)>,
    email_claim: Seq<char>,
    fallback_claim: Seq<char>,
) -> Option<Seq<char>> {
    match claim_text_of(cs, email_claim) {
        Some(t) => Some(t),
        None => claim_text_of(cs, fallback_claim),
    }
}

/// A claim's text, as [`claim_text_of`] says.
fn claim_text(claims: &Vec<(String, Option<String>)>, name: &str) -> (r: Option<String>)
    ensures
        ostr(r) == claim_text_of(claims_view(claims@), name@),
{
    let n = claims.len();
    let ghost cv = claims_view(claims@);
    assert(cv.subrange(0, n as int) =~= cv);
    for i in 0..n
        invariant
            n == claims@.len(),
            cv == claims_view(claims@),
            claim_text_of(cv, name@) == claim_text_of(cv.subrange(i as int, n as int), name@),
    {
        let ghost rest = cv.subrange(i as int, n as int);
        assert(rest.drop_first() =~= cv.subrange(i + 1, n as int));
        assert(rest[0] == cv[i as int]);
        if str_eq(claims[i].0.as_str(), name) {
            return match &claims[i].1 {
                Some(t) => if t.as_str().is_empty() {
                    None
                } else {
                    Some(t.clone())
                },
                None => None,
            };
        }
    }
    None
}

/// A stable identity string from decoded token claims: the configured
/// email claim when it is a non-empty string, else the fallback claim.
pub fn identity_from_claims(claims: &Vec<(String, Option<String>)>, email_claim: &str, fallback_claim: &str) -> (r: Option<
    String,
>)
    ensures
        ostr(r) == spec_claim_identity(claims_view(claims@), email_claim@, fallback_claim@),
{
    let primary = claim_text(claims, email_claim);
    let fallback = claim_text(claims, fallback_claim);
    proof {
        lemma_claim_text_nonempty(claims_view(claims@), email_claim@);
        lemma_claim_text_nonempty(claims_view(claims@), fallback_claim@);
    }
    pick_identity(primary, fallback)
}

/// The members of a JSON value, each with its text when it is a string; no
/// members when the value is not an object.
#[verifier::external_body]
pub(crate) fn string_members(v: &serde_json::Value) -> (r: Vec<(String, Option<String>)>) {
    match v.as_object() {
        Some(m) => m.iter().map(|(k, x)| (k.clone(), x.as_str().map(|t| t.to_string()))).collect(),
        None => Vec::new(),
    }
}

// ---------------------------------------------------------------------------
// Token validation
// ---------------------------------------------------------------------------

#[verifier::external_type_specification]
#[verifier::external_body]
pub struct ExDecodingKey(jsonwebtoken::DecodingKey);

#[verifier::external_type_specification]
#[verifier::external_body]
pub struct ExAlgorithm(jsonwebtoken::Algorithm);

#[verifier::external_type_specification]
#[verifier::external_body]
pub struct ExValidation(jsonwebtoken::Validation);

/// What a token is checked against: its algorithm, the one accepted
/// issuer, the accepted audiences, and whether the audience is checked.
#[derive(Debug)]
pub struct JwtSettings {
    pub alg: jsonwebtoken::Algorithm,
    pub issuer: String,
    pub audiences: Vec<String>,
    pub validate_aud: bool,
}

/// The settings of a check: the audience is checked exactly when some
/// audiences are configured.
pub fn jwt_settings(alg: jsonwebtoken::Algorithm, issuer: &str, audiences: &[String]) -> (r: JwtSettings)
    ensures
        r.alg == alg,
        r.issuer@ == issuer@,
        strs_view(r.audiences@) == strs_view(audiences@),
        r.validate_aud == (audiences@.len() > 0),
{
    let mut auds: Vec<String> = Vec::new();
    let n = audiences.len();
    for i in 0..n
        invariant
            n == audiences@.len(),
            auds@.len() == i,
            forall|k: int| 0 <= k < i ==> (#[trigger] auds@[k])@ == audiences@[k]@,
    {
        auds.push(audiences[i].clone());
    }
    assert(strs_view(auds@) =~= strs_view(audiences@));
    JwtSettings { alg, issuer: copy_str(issuer), audiences: auds, validate_aud: n > 0 }
}

/// Builds a `jsonwebtoken::Validation` from the settings:
/// `Validation::new(alg)` (which requires and checks `exp`), `set_issuer`
/// with the one issuer, `set_audience` with the audiences, and
/// `validate_aud` as given.
#[verifier::external_body]
fn validation_for(s: &JwtSettings) -> (r: jsonwebtoken::Validation) {
    let mut v = jsonwebtoken::Validation::new(s.alg);
    v.set_issuer(&[s.issuer.as_str()]);
    v.set_audience(&s.audiences);
    v.validate_aud = s.validate_aud;
    v
}

/// Calls `jsonwebtoken::decode` for JSON claims: the signature and the
/// claims are checked against `validation`, the expiry against the
/// current time. The claims, or the error's message; which of the two is
/// not stated, since it depends on the time of the call.
#[verifier::external_body]
fn jwt_decode(token: &str, key: &jsonwebtoken::DecodingKey, validation: &jsonwebtoken::Validation) -> (r: Result<
    serde_json::Value,
    String,
>) {
    match jsonwebtoken::decode::<serde_json::Value>(token, key, validation) {
        Ok(d) => Ok(d.claims),
        Err(e) => Err(e.to_string()),
    }
}

/// The identity of a decoded token, or why there is none.
pub fn identity_from_decoded(
    decoded: Result<Vec<(String, Option<String>)>, String>,
    email_claim: &str,
    fallback_claim: &str,
) -> (r: Result<Identity, AuthError>)
    ensures
        match decoded {
            Err(m) => r == Err::<Identity, AuthError>(AuthError::Validation(m)),
            Ok(cs) => match spec_claim_identity(claims_view(cs@), email_claim@, fallback_claim@) {
                Some(id) => r matches Ok(i) && i@ == IdentityView::User(id),
                None => r == Err::<Identity, AuthError>(AuthError::NoIdentity),
            },
        },
{
    match decoded {
        Err(m) => Err(AuthError::Validation(m)),
        Ok(cs) => match identity_from_claims(&cs, email_claim, fallback_claim) {
            Some(id) => Ok(Identity::User { id }),
            None => Err(AuthError::NoIdentity),
        },
    }
}

/// Validates a token against a resolved key, with the settings
/// [`jwt_settings`] makes of `alg`, `issuer` and `audiences`: the decoded
/// claims then give the identity as [`identity_from_decoded`] says.
/// Whether the decode succeeds depends on the signature and on the time.
pub fn validate_token_with_key(
    token: &str,
    key: &jsonwebtoken::DecodingKey,
    alg: jsonwebtoken::Algorithm,
    issuer: &str,
    audiences: &[String],
    email_claim: &str,
    fallback_claim: &str,
) -> (r: Result<Identity, AuthError>)
    ensures
        match r {
            Ok(i) => i@ matches IdentityView::User(u) && u.len() > 0,
            Err(e) => e is Validation || e == AuthError::NoIdentity,
        },
{
    let settings = jwt_settings(alg, issuer, audiences);
    let validation = validation_for(&settings);
    let decoded = match jwt_decode(token, key, &validation) {
        Ok(claims) => Ok(string_members(&claims)),
        Err(m) => Err(m),
    };
    let ghost dv = decoded;
    let r = identity_from_decoded(decoded, email_claim, fallback_claim);
    proof {
        if let Ok(cs) = dv {
            lemma_claim_identity_nonempty(claims_view(cs@), email_claim@, fallback_claim@);
        }
    }
    r
}

/// A claim identity is never empty.
proof fn lemma_claim_identity_nonempty(cs: Seq<(Seq<char>, Option<Seq<char>>)>, e: Seq<char>, f: Seq<char>)
    ensures
        spec_claim_identity(cs, e, f) matches Some(t) ==> t.len() > 0,
{
    lemma_claim_text_nonempty(cs, e);
    lemma_claim_text_nonempty(cs, f);
}

proof fn lemma_claim_text_nonempty(cs: Seq<(Seq<char>, Option<Seq<char>>)>, name: Seq<char>)
    ensures
        claim_text_of(cs, name) matches Some(t) ==> t.len() > 0,
    decreases cs.len(),
{
    if cs.len() > 0 && cs[0].0 != name {
        lemma_claim_text_nonempty(cs.drop_first(), name);
    }
}

/// What `jsonwebtoken::decode_header` finds of a token's key id: `None`
/// when the header does not decode, else the `kid`, if it has one.
pub uninterp spec fn spec_header_kid(token: Seq<char>) -> Option<Option<Seq<char>>>;

/// Calls `jsonwebtoken::decode_header`: the header's key id and algorithm,
/// or the error's message. The key id is named by `spec_header_kid`.
#[verifier::external_body]
fn jwt_decode_header(token: &str) -> (r: Result<(Option<String>, jsonwebtoken::Algorithm), String>)
    ensures
        match spec_header_kid(token@) {
            None => r is Err,
            Some(k) => r matches Ok((kid, _)) && ostr(kid) == k,
        },
{
    match jsonwebtoken::decode_header(token) {
        Ok(h) => Ok((h.kid, h.alg)),
        Err(e) => Err(e.to_string()),
    }
}

/// The key id and algorithm a token names: a header that does not decode
/// makes the token invalid, one without a key id is refused.
pub fn token_key_id(token: &str) -> (r: Result<(String, jsonwebtoken::Algorithm), AuthError>)
    ensures
        match spec_header_kid(token@) {
            None => r == Err::<(String, jsonwebtoken::Algorithm), AuthError>(AuthError::InvalidToken),
            Some(None) => r == Err::<(String, jsonwebtoken::Algorithm), AuthError>(AuthError::NoKid),
            Some(Some(k)) => r matches Ok((kid, _)) && kid@ == k,
        },
{
    match jwt_decode_header(token) {
        Err(_) => Err(AuthError::InvalidToken),
        Ok((None, _)) => Err(AuthError::NoKid),
        Ok((Some(kid), alg)) => Ok((kid, alg)),
    }
}

// ---------------------------------------------------------------------------
// Discovery and headers
// ---------------------------------------------------------------------------

/// The path of the OAuth protected-resource metadata document.
pub open spec fn protected_resource_path() -> Seq<char> {
    "/.well-known/oauth-protected-resource"@
}

/// The `WWW-Authenticate` challenge of a 401: it points at the metadata
/// document at the root of the public URL (trailing slashes removed).
pub open spec fn spec_www_authenticate(public_url: Seq<char>) -> Seq<char> {
    "Bearer resource_metadata=\""@ + strip_trailing(public_url, '/') + protected_resource_path()
        + "\""@
}

/// The `WWW-Authenticate` challenge of a 401 in OIDC mode.
pub fn www_authenticate_value(public_url: &str) -> (r: String)
    ensures
        r@ == spec_www_authenticate(public_url@),
{
    let base = trim_end_char(public_url, '/');
    let mut r = concat3("Bearer resource_metadata=\"", base.as_str(), "/.well-known/oauth-protected-resource");
    crate::text::append_str(&mut r, "\"");
    r
}

/// The resource clients call: the public URL (trailing slashes removed)
/// followed by the MCP path.
pub fn resource_url(public_url: &str, mcp_path: &str) -> (r: String)
    ensures
        r@ == strip_trailing(public_url@, '/') + mcp_path@,
{
    let base = trim_end_char(public_url, '/');
    concat2(base.as_str(), mcp_path)
}

/// The bearer token of an `Authorization` header value: what follows
/// `Bearer `, when it starts so.
pub fn bearer_from(authorization: Option<&str>) -> (r: Option<String>)
    ensures
        match authorization {
            Some(h) => if has_prefix(h@, "Bearer "@) {
                r matches Some(t) && t@ == h@.subrange(7, h@.len() as int)
            } else {
                r is None
            },
            None => r is None,
        },
{
    match authorization {
        None => None,
        Some(h) => {
            let cs = chars_of(h);
            let prefix = chars_of("Bearer ");
            proof {
                reveal_strlit("Bearer ");
            }
            if starts_with(&cs, &prefix) {
                let n = cs.len();
                let mut t: Vec<char> = Vec::new();
                for i in 7..n
                    invariant
                        7 <= n == cs@.len(),
                        t@ == cs@.subrange(7, i as int),
                {
                    t.push(cs[i]);
                    assert(cs@.subrange(7, i + 1) =~= cs@.subrange(7, i as int).push(cs@[i as int]));
                }
                Some(string_from_chars(t.as_slice()))
            } else {
                None
            }
        },
    }
}

/// The OAuth protected-resource metadata document.
#[derive(Debug, Clone)]
pub struct ProtectedResourceMetadata {
    /// This resource's identifier.
    pub resource: String,
    /// Authorization servers issuing tokens for it.
    pub authorization_servers: Vec<String>,
    /// Supported bearer presentation methods.
    pub bearer_methods_supported: Vec<String>,
}

impl ProtectedResourceMetadata {
    /// The metadata for `resource` with one authorization server, bearer
    /// tokens in the header.
    pub fn new(resource: &str, auth_server: &str) -> (r: ProtectedResourceMetadata)
        ensures
            r.resource@ == resource@,
            strs_view(r.authorization_servers@) == seq![auth_server@],
            strs_view(r.bearer_methods_supported@) == seq!["header"@],
    {
        let r = ProtectedResourceMetadata {
            resource: copy_str(resource),
            authorization_servers: vec![copy_str(auth_server)],
            bearer_methods_supported: vec![String::from_str("header")],
        };
        assert(strs_view(r.authorization_servers@) =~= seq![auth_server@]);
        assert(strs_view(r.bearer_methods_supported@) =~= seq!["header"@]);
        r
    }
}

// ---------------------------------------------------------------------------
// Signing-key cache
// ---------------------------------------------------------------------------

/// Whether a cached key set may answer for a key id without a refresh: it
/// is younger than the TTL and holds the key.
pub open spec fn spec_cache_hit(age_secs: Option<u64>, has_kid: bool, ttl_secs: u64) -> bool {
    match age_secs {
        Some(a) => a < ttl_secs && has_kid,
        None => false,
    }
}

/// Whether the key set must be fetched again: there is none, it is past
/// its TTL, or it lacks the key and the last fetch is at least the minimum
/// refresh interval old.
pub open spec fn spec_needs_refresh(age_secs: Option<u64>, has_kid: bool, ttl_secs: u64, min_refresh_secs: u64) -> bool {
    match age_secs {
        None => true,
        Some(a) => a >= ttl_secs || (!has_kid && a >= min_refresh_secs),
    }
}

/// Whether a cached key set answers directly (see [`spec_cache_hit`]).
pub fn jwks_cache_hit(age_secs: Option<u64>, has_kid: bool, ttl_secs: u64) -> (r: bool)
    ensures
        r == spec_cache_hit(age_secs, has_kid, ttl_secs),
{
    match age_secs {
        Some(a) => a < ttl_secs && has_kid,
        None => false,
    }
}

/// Whether the key set must be fetched again (see [`spec_needs_refresh`]).
pub fn jwks_needs_refresh(age_secs: Option<u64>, has_kid: bool, ttl_secs: u64, min_refresh_secs: u64) -> (r: bool)
    ensures
        r == spec_needs_refresh(age_secs, has_kid, ttl_secs, min_refresh_secs),
{
    match age_secs {
        None => true,
        Some(a) => a >= ttl_secs || (!has_kid && a >= min_refresh_secs),
    }
}

} // verus!
