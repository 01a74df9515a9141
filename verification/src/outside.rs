//! Outside types that the library carries without looking inside.
use vstd::prelude::*;
use rand::Rng;
use base64::Engine;
use ed25519_dalek::Verifier;
use jsonwebtoken::errors::ErrorKind;
use jsonwebtoken::{decode, encode, Algorithm, DecodingKey, EncodingKey, Header, Validation};

verus! {

/// `uuid::Uuid`, the id of a user or of a Campaign team; only carried.
#[verifier::external_type_specification]
#[verifier::external_body]
pub struct ExUuid(uuid::Uuid);

/// Whether `c` is an ASCII letter or digit.
pub open spec fn is_ascii_alphanumeric(c: char) -> bool {
    ('A' <= c && c <= 'Z') || ('a' <= c && c <= 'z') || ('0' <= c && c <= '9')
}

/// `len` characters drawn by `rand::thread_rng()` from
/// `rand::distributions::Alphanumeric`, which samples uniformly from the 62
/// ASCII letters and digits. Claimed: the length and that every character is
/// an ASCII letter or digit; which ones come out is left free, being random.
#[verifier::external_body]
pub(crate) fn random_alphanumeric(len: usize) -> (s: String)
    ensures
        s@.len() == len,
        forall|i: int| 0 <= i < len ==> is_ascii_alphanumeric(#[trigger] s@[i]),
{
    rand::thread_rng().sample_iter(&rand::distributions::Alphanumeric).take(len).map(char::from).collect()
}

/// What `bs58::decode` (Bitcoin alphabet) gives for the UTF-8 bytes of a
/// string: the decoded bytes, or `None` when the text is not valid base58.
pub uninterp spec fn base58_decoding(text: Seq<char>) -> Option<Seq<u8>>;

/// `bs58::decode(text).into_vec()`, with its error mapped to `None`.
/// Claimed: the result is `base58_decoding` of the text.
#[verifier::external_body]
pub(crate) fn decode_base58(text: &str) -> (r: Option<Vec<u8>>)
    ensures
        match r {
            Some(bytes) => base58_decoding(text@) == Some(bytes@),
            None => base58_decoding(text@) is None,
        },
{
    bs58::decode(text).into_vec().ok()
}

/// What `base64::engine::general_purpose::STANDARD.decode` (standard
/// alphabet, padding required) gives for the UTF-8 bytes of a string: the
/// decoded bytes, or `None` when the text is not valid base64.
pub uninterp spec fn base64_decoding(text: Seq<char>) -> Option<Seq<u8>>;

/// `base64::engine::general_purpose::STANDARD.decode(text)`, with its error
/// mapped to `None`. Claimed: the result is `base64_decoding` of the text.
#[verifier::external_body]
pub(crate) fn decode_base64(text: &str) -> (r: Option<Vec<u8>>)
    ensures
        match r {
            Some(bytes) => base64_decoding(text@) == Some(bytes@),
            None => base64_decoding(text@) is None,
        },
{
    base64::engine::general_purpose::STANDARD.decode(text).ok()
}

/// Whether `ed25519_dalek::VerifyingKey::from_bytes` accepts 32 bytes, that
/// is, whether they decompress to a curve point.
pub uninterp spec fn ed25519_key_accepted(key: Seq<u8>) -> bool;

/// `ed25519_dalek::VerifyingKey::from_bytes(key).is_ok()` for a 32-byte key.
/// Claimed: the result is `ed25519_key_accepted` of the bytes.
#[verifier::external_body]
pub(crate) fn ed25519_key_is_valid(key: &[u8]) -> (r: bool)
    requires
        key@.len() == 32,
    ensures
        r == ed25519_key_accepted(key@),
{
    match <[u8; 32]>::try_from(key) {
        Ok(bytes) => ed25519_dalek::VerifyingKey::from_bytes(&bytes).is_ok(),
        Err(_) => false,
    }
}

/// Whether ed25519-dalek's `Verifier::verify` of `VerifyingKey` (plain
/// RFC 8032 verification with SHA-512) accepts a 64-byte signature of a
/// message under a 32-byte public key.
pub uninterp spec fn ed25519_signature_accepted(key: Seq<u8>, message: Seq<u8>, signature: Seq<u8>) -> bool;

/// `VerifyingKey::from_bytes(key)?.verify(message, &Signature::from_bytes(signature)).is_ok()`,
/// for a key that `from_bytes` accepts. Claimed: the result is
/// `ed25519_signature_accepted` of the three byte strings.
#[verifier::external_body]
pub(crate) fn ed25519_verify(key: &[u8], message: &[u8], signature: &[u8]) -> (r: bool)
    requires
        key@.len() == 32,
        signature@.len() == 64,
        ed25519_key_accepted(key@),
    ensures
        r == ed25519_signature_accepted(key@, message@, signature@),
{
    match (<[u8; 32]>::try_from(key), <[u8; 64]>::try_from(signature)) {
        (Ok(k), Ok(s)) => match ed25519_dalek::VerifyingKey::from_bytes(&k) {
            Ok(vk) => vk.verify(message, &ed25519_dalek::Signature::from_bytes(&s)).is_ok(),
            Err(_) => false,
        },
        _ => false,
    }
}

/// Why an HS256 login token was not read.
#[derive(PartialEq, Eq, Structural, Clone, Copy)]
pub enum JwtRefusal {
    /// The token is not three dot-separated parts.
    InvalidToken,
    /// The signature does not match the key.
    InvalidSignature,
    /// Any other failure: bad encoding, bad JSON, a wrong algorithm, or no
    /// string `sub` or no unsigned `exp` claim.
    Other,
}

/// What `jsonwebtoken::decode` gives for a token and an HMAC key when only the
/// HS256 algorithm is allowed, an `exp` claim is required, and neither its
/// expiry nor an audience is checked: the claims' `sub` (a string) and `exp`
/// (an unsigned integer), or why the token was refused. It depends on the
/// token and the key alone.
pub uninterp spec fn hs256_claims(token: Seq<char>, key: Seq<u8>) -> Result<(Seq<char>, int), JwtRefusal>;

/// `jsonwebtoken::decode::<serde_json::Value>` with
/// `Validation::new(Algorithm::HS256)`, `validate_exp = false` and
/// `validate_aud = false`, then the
/// claims `sub` and `exp` moved out; the error kinds `InvalidToken` and
/// `InvalidSignature` are kept and every other failure is `Other`. Claimed:
/// the result is `hs256_claims` of the token and the key.
#[verifier::external_body]
pub(crate) fn decode_hs256_claims(token: &str, key: &[u8]) -> (r: Result<(String, u64), JwtRefusal>)
    ensures
        match r {
            Ok((sub, exp)) => hs256_claims(token@, key@) == Ok::<(Seq<char>, int), JwtRefusal>((sub@, exp as int)),
            Err(k) => hs256_claims(token@, key@) == Err::<(Seq<char>, int), JwtRefusal>(k),
        },
{
    let mut validation = Validation::new(Algorithm::HS256);
    validation.validate_exp = false;
    validation.validate_aud = false;
    match decode::<serde_json::Value>(token, &DecodingKey::from_secret(key), &validation) {
        Ok(d) => match (d.claims.get("sub").and_then(|v| v.as_str()), d.claims.get("exp").and_then(|v| v.as_u64())) {
            (Some(sub), Some(exp)) => Ok((sub.to_string(), exp)),
            _ => Err(JwtRefusal::Other),
        },
        Err(e) => match e.kind() {
            ErrorKind::InvalidToken => Err(JwtRefusal::InvalidToken),
            ErrorKind::InvalidSignature => Err(JwtRefusal::InvalidSignature),
            _ => Err(JwtRefusal::Other),
        },
    }
}

/// Whether `jsonwebtoken::decode` with `Validation::new(Algorithm::HS256)`
/// and `validate_exp = false` refuses a token with `InvalidAudience`: it does
/// so when the token is otherwise accepted and its claims carry an `aud` (a
/// string or a list of strings), since the validation names no audience. It
/// depends on the token and the key alone.
pub uninterp spec fn hs256_audience_refused(token: Seq<char>, key: Seq<u8>) -> bool;

/// `jsonwebtoken::decode::<serde_json::Value>` with
/// `Validation::new(Algorithm::HS256)` and `validate_exp = false`, telling
/// whether its error kind is `InvalidAudience`. Claimed: the result is
/// `hs256_audience_refused` of the token and the key.
#[verifier::external_body]
pub(crate) fn hs256_rejects_audience(token: &str, key: &[u8]) -> (r: bool)
    ensures
        r == hs256_audience_refused(token@, key@),
{
    let mut validation = Validation::new(Algorithm::HS256);
    validation.validate_exp = false;
    match decode::<serde_json::Value>(token, &DecodingKey::from_secret(key), &validation) {
        Err(e) => matches!(e.kind(), ErrorKind::InvalidAudience),
        Ok(_) => false,
    }
}

/// What `jsonwebtoken::encode` gives with `Header::default()` (HS256) for the
/// claims `{"exp": exp, "sub": sub}` under an HMAC key. HMAC signing and the
/// JSON of these claims are deterministic, so it depends on its arguments
/// alone.
pub uninterp spec fn hs256_token(sub: Seq<char>, exp: int, key: Seq<u8>) -> Seq<char>;

/// `jsonwebtoken::encode(&Header::default(), claims, &EncodingKey::from_secret(key))`
/// for the JSON object with `sub` and `exp`, its error mapped to `None`.
/// Claimed: it succeeds (`encode` fails only when the key's family differs
/// from the header's algorithm, and an HMAC key is of the HS256 family; the
/// header and a string-keyed map always serialise; HMAC signing cannot fail);
/// the token is `hs256_token` of the arguments; and reading it back with the
/// same key (`decode` verifies the HMAC it signed; see the crate's own
/// encode-then-decode tests) gives the same `sub` and `exp`, with no audience
/// to refuse since none was written.
#[verifier::external_body]
pub(crate) fn encode_hs256_token(sub: &str, exp: u64, key: &[u8]) -> (r: Option<String>)
    ensures
        r is Some,
        r matches Some(t) ==> {
            &&& t@ == hs256_token(sub@, exp as int, key@)
            &&& hs256_claims(t@, key@) == Ok::<(Seq<char>, int), JwtRefusal>((sub@, exp as int))
            &&& !hs256_audience_refused(t@, key@)
        },
{
    let mut claims = serde_json::Map::new();
    claims.insert("sub".to_string(), serde_json::Value::String(sub.to_string()));
    claims.insert("exp".to_string(), serde_json::Value::from(exp));
    encode(&Header::default(), &claims, &EncodingKey::from_secret(key)).ok()
}

} // verus!