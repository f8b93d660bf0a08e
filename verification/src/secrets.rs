//! Secrets backends: the reference check of the AWS Secrets Manager
//! adapter, and the deny-all default backend.
use vstd::prelude::*;

use vstd::string::StringSliceAdditionalSpecFns;

use crate::ports::{SecretError, SecretErrorView, SecretValue, SecretsResolver};
use crate::text::{
    append_str, chars_of, concat3, contains_chars, copy_str, has_infix, has_prefix, starts_with,
    str_eq,
};

verus! {

broadcast use vstd::string::group_string_axioms;

/// Configuration of the AWS Secrets Manager backend: the locator pattern the
/// deployment may read. A trailing `*` allows any secret under a path.
#[derive(Debug, Clone)]
pub struct AwsSecretsManagerConfig {
    pub arn_prefix: String,
}

/// Whether a reference looks like a Secrets Manager ARN: it starts with
/// `arn:aws:secretsmanager:` and holds `:secret:`.
pub open spec fn spec_looks_like_arn(r: Seq<char>) -> bool {
    has_prefix(r, "arn:aws:secretsmanager:"@) && has_infix(r, ":secret:"@)
}

/// Whether a reference looks like a Secrets Manager ARN.
pub fn looks_like_sm_arn(reference: &str) -> (r: bool)
    ensures
        r == spec_looks_like_arn(reference@),
{
    let cs = chars_of(reference);
    let p = chars_of("arn:aws:secretsmanager:");
    let m = chars_of(":secret:");
    starts_with(&cs, &p) && contains_chars(&cs, &m)
}

/// Whether a reference is allowed by the configured prefix: with a trailing
/// `*`, any reference starting with the rest; otherwise only the prefix
/// itself.
pub open spec fn spec_matches_prefix(prefix: Seq<char>, r: Seq<char>) -> bool {
    if prefix.len() > 0 && prefix.last() == '*' {
        has_prefix(r, prefix.drop_last())
    } else {
        r == prefix
    }
}

/// Whether a reference is allowed by the configured prefix.
pub fn matches_prefix(config: &AwsSecretsManagerConfig, reference: &str) -> (r: bool)
    ensures
        r == spec_matches_prefix(config.arn_prefix@, reference@),
{
    let pc = chars_of(config.arn_prefix.as_str());
    let n = pc.len();
    if n > 0 && pc[n - 1] == '*' {
        let mut stem = pc.clone();
        stem.pop();
        assert(stem@ =~= pc@.drop_last());
        let rc = chars_of(reference);
        starts_with(&rc, &stem)
    } else {
        str_eq(reference, config.arn_prefix.as_str())
    }
}

/// Whether a reference can be shortened for an error message: it is short,
/// or its 24th byte ends a character.
pub open spec fn can_truncate(r: &str) -> bool {
    r.len() <= 24 || vstd::utf8::is_char_boundary(r.spec_bytes(), 24)
}

/// A reference as echoed in an error: whole when at most 24 bytes long,
/// otherwise its first 24 bytes and an ellipsis.
pub fn truncate_for_error(reference: &str) -> (r: String)
    requires
        can_truncate(reference),
    ensures
        reference.len() <= 24 ==> r@ == reference@,
        reference.len() > 24 ==> exists|h: Seq<char>|
            #[trigger] vstd::utf8::encode_utf8(h) == reference.spec_bytes().subrange(0, 24)
                && r@ == h + "…"@,
{
    if reference.len() <= 24 {
        copy_str(reference)
    } else {
        let (head, _) = reference.split_at(24);
        let mut r = copy_str(head);
        append_str(&mut r, "…");
        let ghost h = head@;
        assert(vstd::utf8::encode_utf8(h) == reference.spec_bytes().subrange(0, 24) && r@ == h + "…"@);
        r
    }
}

/// The error a reference check gives, if any: not an ARN (the reference
/// echoed in short), then outside the allowed prefix.
pub open spec fn reference_error(prefix: Seq<char>, r: Seq<char>) -> Option<int> {
    if !spec_looks_like_arn(r) {
        Some(0)
    } else if !spec_matches_prefix(prefix, r) {
        Some(1)
    } else {
        None
    }
}

/// Checks that a reference is a Secrets Manager ARN under the configured
/// prefix; a raw secret pasted in its place is refused.
pub fn validate_sm_reference(config: &AwsSecretsManagerConfig, reference: &str) -> (r: Result<
    (),
    SecretError,
>)
    requires
        spec_looks_like_arn(reference@) || can_truncate(reference),
    ensures
        match reference_error(config.arn_prefix@, reference@) {
            None => r is Ok,
            Some(k) => r matches Err(SecretError::InvalidReference(m)) && (k == 1 ==> m@
                == "reference is outside the allowed prefix '"@ + config.arn_prefix@ + "'"@),
        },
{
    if !looks_like_sm_arn(reference) {
        let t = truncate_for_error(reference);
        return Err(
            SecretError::InvalidReference(
                concat3(
                    "'",
                    t.as_str(),
                    "' is not a Secrets Manager ARN (expected 'arn:aws:secretsmanager:…:secret:…')",
                ),
            ),
        );
    }
    if !matches_prefix(config, reference) {
        return Err(
            SecretError::InvalidReference(
                concat3("reference is outside the allowed prefix '", config.arn_prefix.as_str(), "'"),
            ),
        );
    }
    Ok(())
}

/// The safe default backend: it accepts every reference as opaque (so pages
/// can carry references for a future backend) and denies every resolution.
#[derive(Debug, Clone, Copy)]
pub struct DenySecretsResolver;

impl Default for DenySecretsResolver {
    fn default() -> (r: Self) {
        DenySecretsResolver
    }
}

/// The message a denied resolution carries.
pub open spec fn deny_message() -> Seq<char> {
    "no secrets backend is configured (set MP_SECRETS_BACKEND=aws)"@
}

impl DenySecretsResolver {
    /// Accepts any reference.
    pub fn check_reference(&self, reference: &str) -> (r: Result<(), SecretError>)
        ensures
            r is Ok,
    {
        Ok(())
    }

    /// Denies resolution: no backend is configured.
    pub fn deny(&self, reference: &str) -> (r: Result<SecretValue, SecretError>)
        ensures
            r matches Err(e) && e@ == SecretErrorView::NotConfigured(deny_message()),
    {
        Err(SecretError::NotConfigured(String::from_str("no secrets backend is configured (set MP_SECRETS_BACKEND=aws)")))
    }
}

impl SecretsResolver for DenySecretsResolver {
    /// Every reference is accepted: this backend resolves none of them.
    open spec fn accepts(&self, reference: Seq<char>) -> bool {
        true
    }

    fn validate_reference(&self, reference: &str) -> (r: Result<(), SecretError>)
        ensures
            r is Ok,
    {
        self.check_reference(reference)
    }

    fn resolve(&self, reference: &str) -> (r: Result<SecretValue, SecretError>)
        ensures
            r matches Err(e) && e@ == SecretErrorView::NotConfigured(deny_message()),
    {
        self.deny(reference)
    }
}

} // verus!
