//! The authentication middleware, as the steps a request passes through:
//! pull a token from the cookie or the `Authorization: Bearer` header,
//! verify it as session claims, resolve the subject to a user id, and admit
//! the loaded user only if the account is still active.
//!
//! The credential-store lookup between the last two steps belongs to the
//! caller; every decision around it is made and stated here.

use vstd::prelude::*;
use vstd::string::StrSliceExecFns;
use vstd::string::StringExecFns;
use vstd::utf8::encode_utf8;

use crate::errors::{ApiError, ForbiddenReason};
use crate::ids::{parse_user_id, parsed_uuid};
use crate::model::{Config, User};
use crate::token::{decode_session_bytes, decode_session_token};

verus! {

/// The scheme prefix of the header fallback.
pub open spec fn bearer_prefix() -> Seq<char> {
    "Bearer "@
}

/// Which token a request carries: the `token` cookie wins; otherwise a
/// well-formed `Authorization: Bearer` header contributes what follows the
/// scheme; otherwise nothing.
pub open spec fn extracted_token(cookie: Option<Seq<char>>, authorization: Option<Seq<char>>) -> Option<
    Seq<char>,
> {
    match cookie {
        Option::Some(t) => Option::Some(t),
        Option::None => match authorization {
            Option::None => Option::None,
            Option::Some(h) => if h.len() >= 7 && h.subrange(0, 7) == bearer_prefix() {
                Option::Some(h.skip(7))
            } else {
                Option::None
            },
        },
    }
}

/// What the middleware decides for a carried token `t`: the user id to load,
/// or the refusal.
pub open spec fn session_resolution(t: Seq<char>, config: Config, now: int) -> Result<
    u128,
    ApiError,
> {
    match decode_session_bytes(encode_utf8(t), encode_utf8(config.jwt_secret@), now) {
        Option::None => Result::Err(ApiError::Unauthorized),
        Option::Some(c) => match parsed_uuid(c.0) {
            Option::Some(id) => Result::Ok(id),
            Option::None => Result::Err(ApiError::Unauthorized),
        },
    }
}

/// Pull the session token from the `token` cookie, else from an
/// `Authorization: Bearer` header; nothing otherwise.
pub fn extract_token(cookie_token: Option<String>, authorization: Option<&String>) -> (r: Option<
    String,
>)
    ensures
        r.deep_view() == extracted_token(cookie_token.deep_view(), authorization.deep_view()),
{
    match cookie_token {
        Some(t) => Some(t),
        None => {
            let h = match authorization {
                Some(h) => h,
                None => {
                    return None;
                },
            };
            let hs = h.as_str();
            let n = hs.unicode_len();
            if n < 7 {
                proof {
                    reveal_strlit("Bearer ");
                }
                return None;
            }
            let ok = hs.get_char(0) == 'B' && hs.get_char(1) == 'e' && hs.get_char(2) == 'a'
                && hs.get_char(3) == 'r' && hs.get_char(4) == 'e' && hs.get_char(5) == 'r'
                && hs.get_char(6) == ' ';
            proof {
                reveal_strlit("Bearer ");
                assert(bearer_prefix().len() == 7);
                assert(bearer_prefix()[0] == 'B');
                assert(bearer_prefix()[1] == 'e');
                assert(bearer_prefix()[2] == 'a');
                assert(bearer_prefix()[3] == 'r');
                assert(bearer_prefix()[4] == 'e');
                assert(bearer_prefix()[5] == 'r');
                assert(bearer_prefix()[6] == ' ');
                assert(h@.subrange(0, 7)[0] == h@[0]);
                assert(h@.subrange(0, 7)[1] == h@[1]);
                assert(h@.subrange(0, 7)[2] == h@[2]);
                assert(h@.subrange(0, 7)[3] == h@[3]);
                assert(h@.subrange(0, 7)[4] == h@[4]);
                assert(h@.subrange(0, 7)[5] == h@[5]);
                assert(h@.subrange(0, 7)[6] == h@[6]);
            }
            if !ok {
                proof {
                    assert(h@.subrange(0, 7) != bearer_prefix());
                }
                return None;
            }
            proof {
                assert(h@.subrange(0, 7) =~= bearer_prefix());
            }
            let rest = hs.substring_char(7, n);
            Some(String::from_str(rest))
        },
    }
}

/// Verify `token` as session claims under the session secret and resolve
/// its subject to a user id. Any failure — cryptographic, temporal, or a
/// malformed subject — is `Unauthorized`, never distinguished further.
pub fn resolve_session(token: &str, config: &Config, now: i64) -> (r: Result<u128, ApiError>)
    ensures
        r == session_resolution(token@, *config, now as int),
{
    let claims = match decode_session_token(token, config.jwt_secret.as_str(), now) {
        Some(c) => c,
        None => {
            return Err(ApiError::Unauthorized);
        },
    };
    match parse_user_id(claims.sub.as_str()) {
        Some(id) => Ok(id),
        None => Err(ApiError::Unauthorized),
    }
}

/// Admit the user the store returned for the resolved id: a missing row
/// means the token is stale (`Unauthorized`); a deactivated account is
/// refused even on a cryptographically valid, unexpired token.
pub fn admit_user(user: Option<User>) -> (r: Result<User, ApiError>)
    ensures
        user is None ==> r == Result::<User, ApiError>::Err(ApiError::Unauthorized),
        user is Some && !user->Some_0.active ==> r == Result::<User, ApiError>::Err(
            ApiError::Forbidden(ForbiddenReason::AccountDeactivated),
        ),
        user is Some && user->Some_0.active ==> r == Result::<User, ApiError>::Ok(user->Some_0),
{
    match user {
        None => Err(ApiError::Unauthorized),
        Some(u) => {
            if !u.active {
                Err(ApiError::Forbidden(ForbiddenReason::AccountDeactivated))
            } else {
                Ok(u)
            }
        },
    }
}

/// The middleware's decision up to the store lookup: extract a token and
/// resolve it to the user id to load. A missing token, a token that fails
/// verification, and a malformed subject are all `Unauthorized`.
pub fn authenticate_request(
    cookie_token: Option<String>,
    authorization: Option<&String>,
    config: &Config,
    now: i64,
) -> (r: Result<u128, ApiError>)
    ensures
        r == match extracted_token(cookie_token.deep_view(), authorization.deep_view()) {
            Option::None => Result::<u128, ApiError>::Err(ApiError::Unauthorized),
            Option::Some(t) => session_resolution(t, *config, now as int),
        },
{
    let token = match extract_token(cookie_token, authorization) {
        Some(t) => t,
        None => {
            return Err(ApiError::Unauthorized);
        },
    };
    resolve_session(token.as_str(), config, now)
}

} // verus!
