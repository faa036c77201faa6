//! JSON web tokens signed with HS256, made and checked by `jsonwebtoken`.
//!
//! A token carries two claims: `sub`, the user it was issued to, and `exp`,
//! when it expires (seconds since the Unix epoch).
use jsonwebtoken::errors::Error as JwtError;
use vstd::prelude::*;

verus! {

/// `jsonwebtoken::errors::Error`, why a token could not be made or checked.
#[verifier::external_type_specification]
#[verifier::external_body]
pub struct ExJwtError(JwtError);

/// The HS256 token, under `secret`, whose claims are `sub` and `exp`.
pub uninterp spec fn hs256_jwt(sub: Seq<char>, exp: u64, secret: Seq<char>) -> Seq<char>;

/// The HS256 signature of `message` under `secret`: the URL-safe base64
/// text, without padding, of the HMAC-SHA256 of the message.
pub uninterp spec fn hs256_signature(message: Seq<char>, secret: Seq<char>) -> Seq<char>;

/// `text` holds a dot.
pub open spec fn has_dot(text: Seq<char>) -> bool {
    text.contains('.')
}

/// `left` and `right` joined by a dot.
pub open spec fn dotted(left: Seq<char>, right: Seq<char>) -> Seq<char> {
    left + seq!['.'] + right
}

/// `token` is `message`, a dot and `signature`, where the message holds a
/// dot (the encoded header, a dot, the encoded claims) and the signature
/// holds none.
pub open spec fn signed_parts(token: Seq<char>, message: Seq<char>, signature: Seq<char>) -> bool {
    &&& has_dot(message)
    &&& !has_dot(signature)
    &&& token == dotted(message, signature)
}

/// `token` is signed under `secret`: a message and the HS256 signature of
/// that message under `secret`, joined as `signed_parts` says.
pub open spec fn signed_under(token: Seq<char>, secret: Seq<char>) -> bool {
    exists|message: Seq<char>|
        #[trigger] signed_parts(token, message, hs256_signature(message, secret))
}

/// What is known of `decoded`, the answer of `jwt_decode` on `token` under
/// `secret`: a token that passed the check is signed under the secret, and
/// a token made by `jwt_encode` under that secret, when it passed, gives
/// back the claims it was made of.
pub open spec fn decode_facts(
    token: Seq<char>,
    secret: Seq<char>,
    decoded: Result<(Option<String>, Option<u64>), JwtError>,
) -> bool {
    &&& decoded is Ok ==> signed_under(token, secret)
    &&& forall|sub: Seq<char>, exp: u64|
        #![trigger hs256_jwt(sub, exp, secret)]
        token == hs256_jwt(sub, exp, secret) && decoded is Ok ==> {
            &&& decoded->Ok_0.0 matches Some(s) && s@ == sub
            &&& decoded->Ok_0.1 == Some(exp)
        }
}

/// Signs the claims `sub` and `exp`, in that order, with
/// `jsonwebtoken::encode` (header `{"typ":"JWT","alg":"HS256"}`, key
/// `secret`). The claim is that the result
/// is `hs256_jwt(sub, exp, secret)`, joined as `encode` joins it (the two
/// encoded parts, a dot, and the signature of that message): with an HMAC
/// key and algorithm the families agree, a map of a string and a number
/// always serializes, and HMAC signing cannot fail, so `encode` never fails
/// on these arguments.
#[verifier::external_body]
pub(crate) fn jwt_encode(sub: &str, exp: u64, secret: &str) -> (r: Result<String, JwtError>)
    ensures
        r is Ok,
        r->Ok_0@ == hs256_jwt(sub@, exp, secret@),
        exists|message: Seq<char>|
            #[trigger] signed_parts(r->Ok_0@, message, hs256_signature(message, secret@)),
{
    let mut claims = serde_json::Map::new();
    claims.insert("sub".to_owned(), serde_json::Value::from(sub));
    claims.insert("exp".to_owned(), serde_json::Value::from(exp));
    jsonwebtoken::encode(
        &jsonwebtoken::Header::new(jsonwebtoken::Algorithm::HS256),
        &claims,
        &jsonwebtoken::EncodingKey::from_secret(secret.as_bytes()),
    )
}

/// Checks `token` with `jsonwebtoken::decode` (HS256 signature under
/// `secret`, `exp` present and not past by more than a minute of leeway)
/// and reads its `sub` (a string) and `exp` (an unsigned number) claims,
/// `None` for one that is absent or of another type. Whether the check
/// passes depends on the clock, so success is not claimed. The claims are
/// `decode_facts`: `decode` splits the token at its last dot and the message
/// before it at its last dot, and accepts it only when the part after the
/// last dot equals the HS256 signature of the message under `secret`; and a
/// token made by `jwt_encode` under the same secret, when the check passes,
/// gives back the claims it was made of (the claims travel as JSON text,
/// which gives back strings and unsigned numbers exactly).
#[verifier::external_body]
pub(crate) fn jwt_decode(token: &str, secret: &str) -> (r: Result<(Option<String>, Option<u64>), JwtError>)
    ensures
        decode_facts(token@, secret@, r),
{
    let data = jsonwebtoken::decode::<serde_json::Map<String, serde_json::Value>>(
        token,
        &jsonwebtoken::DecodingKey::from_secret(secret.as_bytes()),
        &jsonwebtoken::Validation::default(),
    )?;
    let sub = data.claims.get("sub").and_then(serde_json::Value::as_str).map(str::to_owned);
    let exp = data.claims.get("exp").and_then(serde_json::Value::as_u64);
    Ok((sub, exp))
}

} // verus!
