//! Credentials and tokens: bcrypt-backed password hashing and verification,
//! and signed, time-bound identity tokens.

use crate::ident::dec_of;
use crate::ident::dec_parse;
use crate::ident::lemma_dec_of_canonical;
use crate::ident::format_u64;
use crate::ident::parse_u64;
use crate::models::StoreError;
use crate::models::TokenError;
use vstd::prelude::*;
use vstd::string::*;

verus! {

/// The claim set a token carries: the identity id in decimal text and the
/// absolute expiration instant in seconds since the epoch.
pub struct Claims {
    pub sub: String,
    pub exp: usize,
}

/// How long an issued token stays valid, in seconds: 24 hours.
pub const TOKEN_VALIDITY_SECS: usize = 86400;

/// Whether bcrypt's verification accepts `password` against the stored
/// secret `hashed`; the outcome depends on the two arguments alone.
pub uninterp spec fn bcrypt_matches(password: Seq<char>, hashed: Seq<char>) -> bool;

/// Whether `hashed` is a well-formed bcrypt secret: one that bcrypt's
/// verification parses and checks against, for any password, instead of
/// reporting a malformed secret. A property of the string alone.
pub uninterp spec fn bcrypt_wf(hashed: Seq<char>) -> bool;

#[verifier::external_type_specification]
#[verifier::external_body]
pub struct ExBcryptError(bcrypt::BcryptError);

/// Relies on bcrypt::hash: a salted, deliberately slow one-way transform.
/// Whatever salt is drawn, the output is a 60-character bcrypt secret with
/// an in-range cost, so bcrypt::verify parses it back, and recomputing the
/// digest from its salt and cost accepts the password that was hashed.
#[verifier::external_body]
pub fn hash_password(password: &str) -> (r: Result<String, bcrypt::BcryptError>)
    ensures
        r matches Ok(h) ==> bcrypt_matches(password@, h@) && bcrypt_wf(h@) && h@.len() == 60,
{
    bcrypt::hash(password, bcrypt::DEFAULT_COST)
}

/// Relies on bcrypt::verify: parses the stored secret, recomputes the digest
/// with its salt and cost, and compares; deterministic in its arguments. It
/// errs exactly on a malformed stored secret, whatever the password — a
/// mismatch yields `false`, never an error.
#[verifier::external_body]
pub fn verify_password(password: &str, hash: &str) -> (r: Result<bool, bcrypt::BcryptError>)
    ensures
        r matches Ok(b) ==> b == bcrypt_matches(password@, hash@),
        r is Ok <==> bcrypt_wf(hash@),
{
    bcrypt::verify(password, hash)
}

/// Hashing then verifying with the same password: whenever the hash call
/// succeeds, verification succeeds on its output and accepts the password —
/// whatever salt was drawn.
pub fn credential_round_trip(password: &str) -> (r: Option<bool>)
    ensures
        r matches Some(b) ==> b,
{
    match hash_password(password) {
        Err(_) => None,
        Ok(h) => match verify_password(password, h.as_str()) {
            Err(_) => None,
            Ok(b) => Some(b),
        },
    }
}

/// The signed token embedding a subject string and an expiration instant
/// under a signing secret; HS256 signing makes it a function of the three.
pub uninterp spec fn jwt_token_of(sub: Seq<char>, exp: usize, secret: Seq<char>) -> Seq<char>;

#[verifier::external_type_specification]
#[verifier::external_body]
pub struct ExJwtError(jsonwebtoken::errors::Error);

/// Relies on jsonwebtoken::encode with the default HS256 header: the token
/// is a deterministic function of the claim fields and the secret. The call
/// cannot fail — HS256 keys of any length are accepted, HMAC signing has no
/// error path, and serializing these plain claims cannot fail.
#[verifier::external_body]
fn jwt_encode(claims: &Claims, secret: &str) -> (r: Result<
    String,
    jsonwebtoken::errors::Error,
>)
    ensures
        r is Ok,
        r matches Ok(t) ==> t@ == jwt_token_of(claims.sub@, claims.exp, secret@),
{
    let mut m = serde_json::Map::new();
    m.insert("sub".to_string(), serde_json::Value::String(claims.sub.clone()));
    m.insert("exp".to_string(), serde_json::Value::from(claims.exp as u64));
    jsonwebtoken::encode(
        &jsonwebtoken::Header::default(),
        &serde_json::Value::Object(m),
        &jsonwebtoken::EncodingKey::from_secret(secret.as_bytes()),
    )
}

/// The decode outcome `r` agrees with whatever claim set the token was
/// encoded from under `secret`: if the token is the encoding of a subject
/// and an expiration, decoding succeeds and returns exactly those claims.
pub open spec fn decodes_issued(
    r: Result<Claims, jsonwebtoken::errors::Error>,
    token: Seq<char>,
    secret: Seq<char>,
) -> bool {
    forall|sub: Seq<char>, exp: usize|
        token == #[trigger] jwt_token_of(sub, exp, secret) ==> (r matches Ok(c) && c.sub@ == sub
            && c.exp == exp)
}

/// Relies on jsonwebtoken::decode over HS256, signature checking on and the
/// clock-dependent checks off: a token that jsonwebtoken::encode produced
/// from a subject, an expiration and the same secret decodes back to exactly
/// those claims.
#[verifier::external_body]
fn jwt_decode(token: &str, secret: &str) -> (r: Result<Claims, jsonwebtoken::errors::Error>)
    ensures
        decodes_issued(r, token@, secret@),
{
    let mut v = jsonwebtoken::Validation::new(jsonwebtoken::Algorithm::HS256);
    v.validate_exp = false;
    v.required_spec_claims = std::collections::HashSet::new();
    let key = jsonwebtoken::DecodingKey::from_secret(secret.as_bytes());
    let data = jsonwebtoken::decode::<serde_json::Value>(token, &key, &v)?;
    let sub = data.claims.get("sub").and_then(serde_json::Value::as_str).map(str::to_string);
    let exp = data.claims.get("exp").and_then(serde_json::Value::as_u64);
    match (sub, exp) {
        (Some(sub), Some(e)) => Ok(Claims { sub, exp: e as usize }),
        _ => Err(jsonwebtoken::errors::ErrorKind::InvalidToken.into()),
    }
}

/// Issues a signed token asserting identity `user_id`, expiring 24 hours
/// after `now` (seconds since the epoch). Issuing always succeeds.
pub fn create_jwt(user_id: u64, secret: &str, now: usize) -> (r: Result<
    String,
    jsonwebtoken::errors::Error,
>)
    requires
        now + TOKEN_VALIDITY_SECS <= usize::MAX,
    ensures
        r is Ok,
        r matches Ok(t) ==> t@ == jwt_token_of(
            dec_of(user_id as nat),
            (now + TOKEN_VALIDITY_SECS) as usize,
            secret@,
        ),
{
    let claims = Claims { sub: format_u64(user_id), exp: now + TOKEN_VALIDITY_SECS };
    jwt_encode(&claims, secret)
}

/// What validating a claim set at instant `now` yields: expiry is checked
/// first, then the subject must be a canonical identity id.
pub open spec fn claims_outcome(sub: Seq<char>, exp: usize, now: usize) -> Result<
    u64,
    TokenError,
> {
    if now >= exp {
        Err(TokenError::Expired)
    } else {
        match dec_parse(sub) {
            Some(id) => Ok(id),
            None => Err(TokenError::Malformed),
        }
    }
}

/// Checks the signature and the expiry and extracts the identity id: a token
/// issued for an id under the same secret validates to that id while it
/// lasts, reports `Expired` from its expiration instant on, and `Malformed`
/// if its subject is not a well-formed id. Anything else is `Invalid`.
pub fn validate_jwt(token: &str, secret: &str, now: usize) -> (r: Result<u64, TokenError>)
    ensures
        forall|sub: Seq<char>, exp: usize|
            token@ == #[trigger] jwt_token_of(sub, exp, secret@) ==> r == claims_outcome(
                sub,
                exp,
                now,
            ),
{
    match jwt_decode(token, secret) {
        Err(_) => Err(TokenError::Invalid),
        Ok(claims) => {
            if now >= claims.exp {
                Err(TokenError::Expired)
            } else {
                match parse_u64(claims.sub.as_str()) {
                    Some(id) => Ok(id),
                    None => Err(TokenError::Malformed),
                }
            }
        },
    }
}

/// Whether a character sequence starts with the bearer marker `"Bearer "`.
pub open spec fn has_bearer_prefix(s: Seq<char>) -> bool {
    &&& s.len() >= 7
    &&& s[0] == 'B'
    &&& s[1] == 'e'
    &&& s[2] == 'a'
    &&& s[3] == 'r'
    &&& s[4] == 'e'
    &&& s[5] == 'r'
    &&& s[6] == ' '
}

/// The header value with every leading bearer marker removed.
pub open spec fn strip_bearer_spec(s: Seq<char>) -> Seq<char>
    decreases s.len(),
{
    if has_bearer_prefix(s) {
        strip_bearer_spec(s.skip(7))
    } else {
        s
    }
}

fn has_bearer(s: &str) -> (r: bool)
    ensures
        r == has_bearer_prefix(s@),
{
    let len = s.unicode_len();
    len >= 7 && s.get_char(0) == 'B' && s.get_char(1) == 'e' && s.get_char(2) == 'a'
        && s.get_char(3) == 'r' && s.get_char(4) == 'e' && s.get_char(5) == 'r' && s.get_char(6)
        == ' '
}

fn strip_bearer(s: &str) -> (r: &str)
    ensures
        r@ == strip_bearer_spec(s@),
{
    let mut t = s;
    loop
        invariant
            strip_bearer_spec(t@) == strip_bearer_spec(s@),
        decreases t@.len(),
    {
        if has_bearer(t) {
            let len = t.unicode_len();
            let u = t.substring_char(7, len);
            proof {
                assert(u@ =~= t@.skip(7));
            }
            t = u;
        } else {
            return t;
        }
    }
}

/// Strips the bearer marker from the raw header value and validates what is
/// left. An unexpired token issued for an id is accepted as that id; an
/// issued token whose claims do not validate — expired, or a subject that is
/// no well-formed id — is rejected. Every failure is the same
/// `Unauthorized`: the cause is not leaked.
pub fn extract_user_id_from_token(token: &str, secret: &str, now: usize) -> (r: Result<
    u64,
    StoreError,
>)
    ensures
        forall|id: u64, exp: usize|
            strip_bearer_spec(token@) == #[trigger] jwt_token_of(dec_of(id as nat), exp, secret@)
                && now < exp ==> r == Ok::<u64, StoreError>(id),
        forall|sub: Seq<char>, exp: usize|
            strip_bearer_spec(token@) == #[trigger] jwt_token_of(sub, exp, secret@)
                && claims_outcome(sub, exp, now) is Err ==> r == Err::<u64, StoreError>(
                StoreError::Unauthorized,
            ),
        r is Err ==> r == Err::<u64, StoreError>(StoreError::Unauthorized),
{
    let t = strip_bearer(token);
    let v = validate_jwt(t, secret, now);
    let r: Result<u64, StoreError> = match v {
        Ok(id) => Ok(id),
        Err(_) => Err(StoreError::Unauthorized),
    };
    proof {
        assert forall|id: u64, exp: usize|
            strip_bearer_spec(token@) == #[trigger] jwt_token_of(dec_of(id as nat), exp, secret@)
                && now < exp implies r == Ok::<u64, StoreError>(id) by {
            lemma_dec_of_canonical(id);
        }
    }
    r
}

/// Issuing then validating: the claim set of a token issued for `id` at
/// `issue_now` validates to `Ok(id)` at any instant before its expiry, and
/// reports `Expired` at any instant from the expiry on.
pub proof fn lemma_issue_then_validate(id: u64, issue_now: usize, check_now: usize)
    requires
        issue_now + TOKEN_VALIDITY_SECS <= usize::MAX,
    ensures
        check_now < issue_now + TOKEN_VALIDITY_SECS ==> claims_outcome(
            dec_of(id as nat),
            (issue_now + TOKEN_VALIDITY_SECS) as usize,
            check_now,
        ) == Ok::<u64, TokenError>(id),
        check_now >= issue_now + TOKEN_VALIDITY_SECS ==> claims_outcome(
            dec_of(id as nat),
            (issue_now + TOKEN_VALIDITY_SECS) as usize,
            check_now,
        ) == Err::<u64, TokenError>(TokenError::Expired),
{
    lemma_dec_of_canonical(id);
}

} // verus!
