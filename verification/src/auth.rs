//! Wallet login: one-time nonces, ed25519 signature checks on Solana
//! wallet addresses, token claims and the bearer-token header.
use vstd::prelude::*;
use vstd::string::*;
use crate::outside::{
    random_alphanumeric, is_ascii_alphanumeric, decode_base58, base58_decoding, decode_base64, base64_decoding,
    ed25519_key_is_valid, ed25519_key_accepted, ed25519_verify, ed25519_signature_accepted, decode_hs256_claims,
    hs256_claims, JwtRefusal, hs256_rejects_audience, hs256_audience_refused, encode_hs256_token, hs256_token,
};
use crate::text::{text_equals, text_strip_prefix, occurs_at};

verus! {

pub struct NonceRequest {
    pub wallet: String,
}

pub struct VerifyRequest {
    /// The wallet's base58 public key.
    pub wallet: String,
    /// The base64 ed25519 signature of the wallet's current nonce.
    pub signature: String,
}

pub struct NonceResponse {
    pub nonce: String,
}

/// The claims of a login token: the wallet and the expiry (Unix seconds).
pub struct JwtClaims {
    pub sub: String,
    pub exp: usize,
}

/// Length of a login nonce.
pub const NONCE_LENGTH: usize = 32;
/// A login token is valid for 24 hours.
pub const TOKEN_LIFETIME_SECS: i64 = 86400;

/// A fresh nonce for a wallet to sign: 32 random ASCII letters and digits.
pub fn issue_nonce() -> (r: NonceResponse)
    ensures
        r.nonce@.len() == 32,
        forall|i: int| 0 <= i < 32 ==> is_ascii_alphanumeric(#[trigger] r.nonce@[i]),
{
    NonceResponse { nonce: random_alphanumeric(NONCE_LENGTH) }
}

/// Why a login or a token was refused.
#[derive(PartialEq, Eq, Structural)]
pub enum AuthError {
    /// The wallet address is not valid base58.
    InvalidAddress,
    /// The decoded address is not 32 bytes long.
    InvalidPublicKeyLength,
    /// The 32 bytes are not an ed25519 public key.
    InvalidPublicKey,
    /// The signature is not valid base64.
    InvalidSignatureEncoding,
    /// The decoded signature is not 64 bytes long.
    InvalidSignatureLength,
    /// The signature does not sign the nonce under the wallet's key.
    VerificationFailed,
    /// No `Authorization` header.
    NoToken,
    /// The header does not start with "Bearer ".
    InvalidTokenFormat,
    /// The token expired more than the leeway ago.
    TokenExpired,
    /// The token is not a JWT.
    InvalidToken,
    /// The token was not signed with the service's key.
    InvalidTokenSignature,
    /// The token could not be read otherwise.
    Unauthorized,
}

/// The wallet's public key from its base58 decoding: the decoding must have
/// succeeded and give 32 bytes.
pub fn public_key_bytes(decoded: Option<Vec<u8>>) -> (r: Result<Vec<u8>, AuthError>)
    ensures
        match decoded {
            None => r == Err::<Vec<u8>, AuthError>(AuthError::InvalidAddress),
            Some(v) => if v@.len() == 32 {
                r matches Ok(k) && k@ == v@
            } else {
                r == Err::<Vec<u8>, AuthError>(AuthError::InvalidPublicKeyLength)
            },
        },
{
    match decoded {
        None => Err(AuthError::InvalidAddress),
        Some(v) => if v.len() == 32 {
            Ok(v)
        } else {
            Err(AuthError::InvalidPublicKeyLength)
        },
    }
}

/// The signature from its base64 decoding: the decoding must have succeeded
/// and give 64 bytes.
pub fn signature_bytes(decoded: Option<Vec<u8>>) -> (r: Result<Vec<u8>, AuthError>)
    ensures
        match decoded {
            None => r == Err::<Vec<u8>, AuthError>(AuthError::InvalidSignatureEncoding),
            Some(v) => if v@.len() == 64 {
                r matches Ok(s) && s@ == v@
            } else {
                r == Err::<Vec<u8>, AuthError>(AuthError::InvalidSignatureLength)
            },
        },
{
    match decoded {
        None => Err(AuthError::InvalidSignatureEncoding),
        Some(v) => if v.len() == 64 {
            Ok(v)
        } else {
            Err(AuthError::InvalidSignatureLength)
        },
    }
}

/// The outcome of a login attempt, given the decodings and the ed25519
/// judgements: address, key length, key, signature encoding, signature
/// length, and finally the signature itself, checked in that order.
pub open spec fn login_verdict(wallet: Seq<char>, signature: Seq<char>, nonce_bytes: Seq<u8>) -> Result<(), AuthError> {
    match base58_decoding(wallet) {
        None => Err(AuthError::InvalidAddress),
        Some(key) => if key.len() != 32 {
            Err(AuthError::InvalidPublicKeyLength)
        } else if !ed25519_key_accepted(key) {
            Err(AuthError::InvalidPublicKey)
        } else {
            match base64_decoding(signature) {
                None => Err(AuthError::InvalidSignatureEncoding),
                Some(sig) => if sig.len() != 64 {
                    Err(AuthError::InvalidSignatureLength)
                } else if !ed25519_signature_accepted(key, nonce_bytes, sig) {
                    Err(AuthError::VerificationFailed)
                } else {
                    Ok(())
                },
            }
        },
    }
}

/// Checks that `req.signature` is the wallet's ed25519 signature of the
/// UTF-8 bytes of its nonce, the wallet being a base58 public key.
pub fn verify_wallet_signature(req: &VerifyRequest, nonce: &str) -> (r: Result<(), AuthError>)
    ensures
        r == login_verdict(req.wallet@, req.signature@, nonce.spec_bytes()),
{
    let key = public_key_bytes(decode_base58(req.wallet.as_str()))?;
    if !ed25519_key_is_valid(key.as_slice()) {
        return Err(AuthError::InvalidPublicKey);
    }
    let sig = signature_bytes(decode_base64(req.signature.as_str()))?;
    if !ed25519_verify(key.as_slice(), nonce.as_bytes(), sig.as_slice()) {
        return Err(AuthError::VerificationFailed);
    }
    Ok(())
}

/// The claims of a login token issued at `now` (Unix seconds): the wallet,
/// expiring 24 hours later.
pub fn token_claims(wallet: String, now: i64) -> (c: JwtClaims)
    requires
        now <= i64::MAX - TOKEN_LIFETIME_SECS,
    ensures
        c.sub@ == wallet@,
        c.exp == (now + 86400) as usize,
{
    JwtClaims { sub: wallet, exp: (now + TOKEN_LIFETIME_SECS) as usize }
}

pub open spec fn bearer_prefix() -> Seq<char> {
    seq!['B', 'e', 'a', 'r', 'e', 'r', ' ']
}

/// The token of an `Authorization` header: the header must be present and
/// start with "Bearer ".
pub fn bearer_token(header: Option<String>) -> (r: Result<String, AuthError>)
    ensures
        match header {
            None => r == Err::<String, AuthError>(AuthError::NoToken),
            Some(h) => if occurs_at(h@, bearer_prefix(), 0) {
                r matches Ok(t) && t@ == h@.skip(7)
            } else {
                r == Err::<String, AuthError>(AuthError::InvalidTokenFormat)
            },
        },
{
    let h = match header {
        Some(h) => h,
        None => {
            return Err(AuthError::NoToken);
        },
    };
    proof {
        reveal_strlit("Bearer ");
        assert("Bearer "@ =~= bearer_prefix());
    }
    match text_strip_prefix(h.as_str(), "Bearer ") {
        Some(t) => Ok(t),
        None => Err(AuthError::InvalidTokenFormat),
    }
}

/// Tokens are still accepted this many seconds after they expire.
pub const TOKEN_LEEWAY_SECS: u64 = 60;

/// The error for a token that could not be read.
pub open spec fn refusal_error(k: JwtRefusal) -> AuthError {
    match k {
        JwtRefusal::InvalidToken => AuthError::InvalidToken,
        JwtRefusal::InvalidSignature => AuthError::InvalidTokenSignature,
        JwtRefusal::Other => AuthError::Unauthorized,
    }
}

/// The wallet that a token signed with `key` vouches for at time `now` (Unix
/// seconds): its `sub` claim, unless it expired more than
/// `TOKEN_LEEWAY_SECS` before `now`, or (checked after expiry) it names an
/// audience, which the service does not accept.
pub open spec fn token_wallet(token: Seq<char>, key: Seq<u8>, now: int) -> Result<Seq<char>, AuthError> {
    match hs256_claims(token, key) {
        Err(k) => Err(refusal_error(k)),
        Ok((wallet, exp)) => if exp + 60 < now {
            Err(AuthError::TokenExpired)
        } else if hs256_audience_refused(token, key) {
            Err(AuthError::Unauthorized)
        } else {
            Ok(wallet)
        },
    }
}

/// The text of an optional header.
pub open spec fn header_text(header: Option<String>) -> Option<Seq<char>> {
    match header {
        Some(h) => Some(h@),
        None => None,
    }
}

/// The wallet that an `Authorization` header vouches for at time `now`: it
/// must be present and be "Bearer " followed by a token that `token_wallet`
/// accepts.
pub open spec fn header_wallet(header: Option<Seq<char>>, key: Seq<u8>, now: int) -> Result<Seq<char>, AuthError> {
    match header {
        None => Err(AuthError::NoToken),
        Some(h) => if !occurs_at(h, bearer_prefix(), 0) {
            Err(AuthError::InvalidTokenFormat)
        } else {
            token_wallet(h.skip(7), key, now)
        },
    }
}

/// The wallet that a request's `Authorization` header vouches for at time
/// `now` (Unix seconds): the header must be "Bearer " followed by an HS256
/// token signed with `key`, holding a `sub` and an `exp` claim, not expired
/// more than a minute ago, and naming no audience.
pub fn authenticate(header: Option<String>, key: &[u8], now: u64) -> (r: Result<String, AuthError>)
    ensures
        match header_wallet(header_text(header), key@, now as int) {
            Ok(w) => r matches Ok(s) && s@ == w,
            Err(e) => r == Err::<String, AuthError>(e),
        },
{
    let token = match bearer_token(header) {
        Ok(t) => t,
        Err(e) => {
            return Err(e);
        },
    };
    match decode_hs256_claims(token.as_str(), key) {
        Ok((wallet, exp)) => if now > exp && now - exp > TOKEN_LEEWAY_SECS {
            Err(AuthError::TokenExpired)
        } else if hs256_rejects_audience(token.as_str(), key) {
            Err(AuthError::Unauthorized)
        } else {
            Ok(wallet)
        },
        Err(JwtRefusal::InvalidToken) => Err(AuthError::InvalidToken),
        Err(JwtRefusal::InvalidSignature) => Err(AuthError::InvalidTokenSignature),
        Err(JwtRefusal::Other) => Err(AuthError::Unauthorized),
    }
}

/// A login token for `wallet` issued at `now` (Unix seconds) and signed with
/// `key`, carrying the claims of `token_claims`. It is accepted as "Bearer "
/// plus the token by `authenticate` with the same key, naming the wallet, at
/// every time up to a minute after it expires.
pub fn issue_token(wallet: String, now: i64, key: &[u8]) -> (t: String)
    requires
        now <= i64::MAX - TOKEN_LIFETIME_SECS,
    ensures
        ({
            let exp = (now + 86400) as usize as int;
            &&& t@ == hs256_token(wallet@, exp, key@)
            &&& forall|later: int| later <= exp + 60 ==> #[trigger] header_wallet(
                Some(bearer_prefix() + t@),
                key@,
                later,
            ) == Ok::<Seq<char>, AuthError>(wallet@)
        }),
{
    let claims = token_claims(wallet, now);
    let t = encode_hs256_token(claims.sub.as_str(), claims.exp as u64, key).unwrap();
    proof {
        let h = bearer_prefix() + t@;
        assert(h.subrange(0, 7) =~= bearer_prefix());
        assert(h.skip(7) =~= t@);
    }
    t
}

/// How requests are authenticated.
pub enum AuthMode {
    /// Local development: every request acts as this wallet.
    Dev { wallet: String },
    /// Every request must carry a valid bearer token.
    Token,
}

pub open spec fn true_text() -> Seq<char> {
    seq!['t', 'r', 'u', 'e']
}

pub open spec fn dev_wallet_text() -> Seq<char> {
    seq!['d', 'e', 'v', '_', 'w', 'a', 'l', 'l', 'e', 't']
}

/// The authentication mode from the `DEV_MODE` and `DEV_USER_WALLET`
/// settings: development mode only when `DEV_MODE` is exactly "true", acting
/// as `DEV_USER_WALLET` or, when that is unset, "dev_wallet".
pub fn auth_mode(dev_mode: Option<String>, dev_wallet: Option<String>) -> (m: AuthMode)
    ensures
        (dev_mode matches Some(d) && d@ == true_text()) ==> (m matches AuthMode::Dev { wallet } && wallet@ == match dev_wallet {
            Some(w) => w@,
            None => dev_wallet_text(),
        }),
        !(dev_mode matches Some(d) && d@ == true_text()) ==> m is Token,
{
    proof {
        reveal_strlit("true");
        reveal_strlit("dev_wallet");
        assert("true"@ =~= true_text());
        assert("dev_wallet"@ =~= dev_wallet_text());
    }
    let is_dev = match &dev_mode {
        Some(d) => text_equals(d.as_str(), "true"),
        None => false,
    };
    if !is_dev {
        return AuthMode::Token;
    }
    let wallet = match dev_wallet {
        Some(w) => w,
        None => String::from_str("dev_wallet"),
    };
    AuthMode::Dev { wallet }
}

/// What a user is told when a login or a token is refused.
pub open spec fn auth_error_text(e: AuthError) -> Seq<char> {
    match e {
        AuthError::InvalidAddress => "Invalid address"@,
        AuthError::InvalidPublicKeyLength => "Invalid public key length"@,
        AuthError::InvalidPublicKey => "Invalid public key"@,
        AuthError::InvalidSignatureEncoding => "Invalid signature encoding"@,
        AuthError::InvalidSignatureLength => "Invalid signature length"@,
        AuthError::VerificationFailed => "Verification failed"@,
        AuthError::NoToken => "No token"@,
        AuthError::InvalidTokenFormat => "Invalid token format"@,
        AuthError::TokenExpired => "Token expired"@,
        AuthError::InvalidToken => "Invalid token"@,
        AuthError::InvalidTokenSignature => "Invalid signature"@,
        AuthError::Unauthorized => "Unauthorized"@,
    }
}

impl AuthError {
    /// What a user is told.
    pub fn message(&self) -> (s: &'static str)
        ensures
            s@ == auth_error_text(*self),
    {
        match self {
            AuthError::InvalidAddress => "Invalid address",
            AuthError::InvalidPublicKeyLength => "Invalid public key length",
            AuthError::InvalidPublicKey => "Invalid public key",
            AuthError::InvalidSignatureEncoding => "Invalid signature encoding",
            AuthError::InvalidSignatureLength => "Invalid signature length",
            AuthError::VerificationFailed => "Verification failed",
            AuthError::NoToken => "No token",
            AuthError::InvalidTokenFormat => "Invalid token format",
            AuthError::TokenExpired => "Token expired",
            AuthError::InvalidToken => "Invalid token",
            AuthError::InvalidTokenSignature => "Invalid signature",
            AuthError::Unauthorized => "Unauthorized",
        }
    }
}

} // verus!
