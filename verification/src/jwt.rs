//! Session tokens: HS256-signed JSON Web Tokens carrying a user id and an
//! administrator flag.

use vstd::prelude::*;

verus! {

/// Declares jsonwebtoken's error type, the error side of `encode`.
#[verifier::external_type_specification]
#[verifier::external_body]
pub struct ExJwtError(jsonwebtoken::errors::Error);

/// The compact JWT that `jsonwebtoken::encode` produces with the default
/// header (HS256) for the claims `{"id_user": id_user, "admin": admin}`,
/// in that order, signed with the HMAC secret `secret`.
pub uninterp spec fn hs256_jwt(id_user: i32, admin: bool, secret: Seq<u8>) -> Seq<char>;

/// A character of the URL-safe base64 alphabet.
pub open spec fn is_base64url_char(c: char) -> bool {
    ||| ('A' as u32) <= (c as u32) <= ('Z' as u32)
    ||| ('a' as u32) <= (c as u32) <= ('z' as u32)
    ||| ('0' as u32) <= (c as u32) <= ('9' as u32)
    ||| c == '-'
    ||| c == '_'
}

/// A text made only of URL-safe base64 characters.
pub open spec fn is_base64url_text(t: Seq<char>) -> bool {
    forall|i: int| 0 <= i < t.len() ==> is_base64url_char(#[trigger] t[i])
}

/// The first segment of every token: the header `{"typ":"JWT","alg":"HS256"}`
/// in URL-safe base64 without padding.
pub open spec fn hs256_header_segment() -> Seq<char> {
    "eyJ0eXAiOiJKV1QiLCJhbGciOiJIUzI1NiJ9"@
}

/// The layout of a compact HS256 token: the fixed header segment, a dot, the
/// claims segment, a dot, and the 43-character signature segment, both
/// segments in URL-safe base64.
pub open spec fn is_hs256_layout(t: Seq<char>) -> bool {
    exists|claims: Seq<char>, signature: Seq<char>|
        is_base64url_text(claims) && is_base64url_text(signature) && signature.len() == 43
        && t == #[trigger] (hs256_header_segment() + seq!['.'] + claims + seq!['.'] + signature)
}

/// Calls `jsonwebtoken::encode` with `Header::default()`, the claims
/// `{"id_user": id_user, "admin": admin}` (a `serde_json::Map` that keeps
/// insertion order) and `EncodingKey::from_secret(secret)`.
///
/// Trusted: the result is the token named by `hs256_jwt` on these arguments,
/// and it is `Ok`. The crate's source shows why: the default header's
/// algorithm is HS256, a key made by `from_secret` is of the HMAC family, so
/// the family check passes, HMAC signing returns `Ok`, and serializing the
/// header and a map of string keys to a number and a boolean cannot fail.
/// The token's layout is what `encode` builds: the header and the claims
/// serialized to JSON and encoded with `URL_SAFE_NO_PAD`, joined by a dot,
/// then a dot and the same encoding of the 32-byte HMAC-SHA256 tag. The
/// default header serializes as `{"typ":"JWT","alg":"HS256"}`, since its
/// other fields are `None` and skipped.
#[verifier::external_body]
fn encode_claims(id_user: i32, admin: bool, secret: &[u8]) -> (r: Result<String, jsonwebtoken::errors::Error>)
    ensures
        r is Ok,
        r matches Ok(token) ==> token@ == hs256_jwt(id_user, admin, secret@),
        r matches Ok(token) ==> is_hs256_layout(token@),
{
    let mut claims = serde_json::Map::new();
    claims.insert("id_user".to_string(), serde_json::Value::from(id_user));
    claims.insert("admin".to_string(), serde_json::Value::from(admin));
    let key = jsonwebtoken::EncodingKey::from_secret(secret);
    jsonwebtoken::encode(&jsonwebtoken::Header::default(), &claims, &key)
}

/// The signing secret of session tokens: the bytes of the text `secret`.
pub open spec fn token_secret() -> Seq<u8> {
    seq![115u8, 101u8, 99u8, 114u8, 101u8, 116u8]
}

/// The session token of user `id_user`, marking whether the user is an
/// administrator. It depends on these two values alone, so equal arguments
/// give equal tokens.
pub fn create_token(id_user: i32, admin: bool) -> (token: String)
    ensures
        token@ == hs256_jwt(id_user, admin, token_secret()),
        is_hs256_layout(token@),
{
    let secret: Vec<u8> = vec![115u8, 101u8, 99u8, 114u8, 101u8, 116u8];
    assert(secret@ =~= token_secret());
    match encode_claims(id_user, admin, secret.as_slice()) {
        Ok(token) => token,
        Err(_) => {
            proof { assert(false); }
            String::new()
        },
    }
}

/// The answer to a login attempt of user `id_user` whose password check gave
/// `checked`: whether the login succeeded, and the session token to set when
/// it did.
pub fn auth_reply(id_user: i32, admin: bool, checked: bool) -> (r: (bool, Option<String>))
    ensures
        r.0 == checked,
        checked ==> (r.1 matches Some(t) && t@ == hs256_jwt(id_user, admin, token_secret())),
        !checked ==> r.1 is None,
{
    if checked {
        (true, Some(create_token(id_user, admin)))
    } else {
        (false, None)
    }
}

} // verus!
