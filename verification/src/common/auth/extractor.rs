//! Authentication of a request from its `Authorization` header.
use vstd::prelude::*;
use crate::common::auth::jwt::{hs256_payload, JwtConfig};
use crate::common::auth::role::AccountRole;
use crate::common::auth::jwt::claims_json;
use crate::common::error::AppError;
use crate::common::text::literal_at;

verus! {

/// The account that a request was authenticated as.
#[derive(Debug, Clone)]
pub struct AuthenticatedUser {
    pub account_id: i64,
    pub roles: Vec<AccountRole>,
}

/// A byte that a header value may show as text: visible ASCII or a tab.
pub open spec fn is_visible_ascii(b: u8) -> bool {
    (32 <= b && b < 127) || b == 9
}

/// The header bytes read as characters, one per byte.
pub open spec fn header_chars(b: Seq<u8>) -> Seq<char> {
    Seq::new(b.len(), |i: int| b[i] as char)
}

/// The token of a header value of the form `Bearer <token>` with a non-empty
/// token, all of it visible text; `None` for any other value.
pub open spec fn bearer_token(b: Seq<u8>) -> Option<Seq<char>> {
    let t = header_chars(b);
    if (forall|k: int| 0 <= k < b.len() ==> is_visible_ascii(#[trigger] b[k])) && t.len() > 7
        && t.subrange(0, 7) == "Bearer "@ {
        Some(t.subrange(7, t.len() as int))
    } else {
        None
    }
}

/// The token, checked under `secret`, holds claims for account `sub` with these roles.
pub open spec fn carries(token: Seq<char>, secret: Seq<char>, sub: i64, roles: Seq<AccountRole>) -> bool {
    exists|exp: nat, iat: nat|
        hs256_payload(token, secret) == Some(#[trigger] claims_json(sub, exp, iat, roles))
}

/// A header value as text: `axum::http::HeaderValue::from_bytes` then
/// `HeaderValue::to_str`. Claimed (from the `http` source): it succeeds exactly
/// when every byte is visible ASCII or a tab, and the text is those bytes.
#[verifier::external_body]
fn header_text(bytes: &[u8]) -> (r: Option<String>)
    ensures
        r is Some <==> forall|k: int| 0 <= k < bytes@.len() ==> is_visible_ascii(#[trigger] bytes@[k]),
        r matches Some(t) ==> t@ == header_chars(bytes@),
{
    let value = axum::http::HeaderValue::from_bytes(bytes).ok()?;
    value.to_str().ok().map(|s| s.to_string())
}

/// The token of an `Authorization` header of the form `Bearer <token>`; any
/// other header, or none, is `Unauthorized`.
pub fn bearer_token_from_header(auth_header: Option<&[u8]>) -> (r: Result<String, AppError>)
    ensures
        match auth_header {
            None => r matches Err(AppError::Unauthorized),
            Some(b) => match bearer_token(b@) {
                None => r matches Err(AppError::Unauthorized),
                Some(t) => r matches Ok(s) && s@ == t,
            },
        },
{
    let bytes = match auth_header {
        Some(b) => b,
        None => {
            return Err(AppError::Unauthorized);
        },
    };
    let text = match header_text(bytes) {
        Some(t) => t,
        None => {
            return Err(AppError::Unauthorized);
        },
    };
    let n = text.as_str().unicode_len();
    proof {
        reveal_strlit("Bearer ");
    }
    if !literal_at(text.as_str(), 0, "Bearer ") || n == 7 {
        return Err(AppError::Unauthorized);
    }
    let token = text.as_str().substring_char(7, n);
    proof {
        let t = header_chars(bytes@);
        assert(t == text@);
        assert(forall|k: int| 0 <= k < bytes@.len() ==> is_visible_ascii(#[trigger] bytes@[k]));
        assert(bearer_token(bytes@) == Some(token@));
    }
    Ok(token.to_string())
}

/// Authenticates a request from the raw value of its `Authorization` header:
/// it must be `Bearer <token>` with a valid, unexpired access token. Every
/// failure is `Unauthorized`.
pub fn authenticate(auth_header: Option<&[u8]>, jwt: &JwtConfig) -> (r: Result<AuthenticatedUser, AppError>)
    ensures
        r matches Err(e) ==> e == AppError::Unauthorized,
        auth_header is None ==> r is Err,
        auth_header matches Some(b) ==> (bearer_token(b@) is None ==> r is Err),
        auth_header matches Some(b) ==> (bearer_token(b@) matches Some(token) ==> (r matches Ok(u)
            ==> carries(token, jwt.secret(), u.account_id, u.roles@))),
        auth_header matches Some(b) ==> (bearer_token(b@) matches Some(token) ==> (hs256_payload(token, jwt.secret()) is None ==> r is Err)),
{
    let token = match bearer_token_from_header(auth_header) {
        Ok(t) => t,
        Err(e) => {
            return Err(e);
        },
    };
    match jwt.verify_access_token(token.as_str()) {
        Ok(claims) => {
            let ghost payload = claims_json(claims.sub, claims.exp as nat, claims.iat as nat, claims.roles@);
            assert(hs256_payload(token@, jwt.secret()) == Some(payload));
            let u = AuthenticatedUser { account_id: claims.sub, roles: claims.roles };
            assert(carries(token@, jwt.secret(), u.account_id, u.roles@)) by {
                assert(claims_json(u.account_id, claims.exp as nat, claims.iat as nat, u.roles@) == payload);
            }
            Ok(u)
        },
        Err(e) => Err(e),
    }
}

/// The refresh token cookie's value; a request without it is `Unauthorized`.
pub fn required_cookie(value: Option<&str>) -> (r: Result<String, AppError>)
    ensures
        match value {
            None => r matches Err(AppError::Unauthorized),
            Some(v) => r matches Ok(s) && s@ == v@,
        },
{
    match value {
        Some(v) => Ok(v.to_string()),
        None => Err(AppError::Unauthorized),
    }
}

} // verus!
