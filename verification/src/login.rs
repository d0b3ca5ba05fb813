//! The login orchestrator: which login path an account uses, and the checks
//! and token issuance of each path.
//!
//! The credential store itself is an external collaborator: the caller runs
//! the lookup and hands the row (or its absence) in, together with the
//! instant `now` the operation is judged at. Everything decided here — which
//! path applies, which error each input earns, what the issued cookies hold —
//! is stated in the contracts.

use vstd::prelude::*;
use vstd::string::StringExecFns;
use vstd::utf8::encode_utf8;

use crate::errors::{ApiError, ForbiddenReason, StoreErrorKind};
use crate::hashing::{generate_otp_code, hash_matches, hash_secret, is_otp_code, verify_secret};
use crate::model::{Config, User, MAX_TIMESTAMP};
use crate::token::{decode_preauth_bytes, decode_preauth_token, mint_preauth_token,
    mint_session_token, preauth_token_of};
use crate::ids::{uuid_bytes, user_id_string};

verus! {

/// Which login path an account uses.
#[derive(Debug, Clone, Copy, PartialEq, Eq, Structural)]
pub enum LoginKind {
    OTP,
    Password,
}

/// The request body that initiates a login.
#[derive(Debug, Clone, PartialEq)]
pub struct LoginEmail {
    pub email: String,
}

/// The request body of the password path.
#[derive(Debug, Clone, PartialEq)]
pub struct LoginPasswordUser {
    pub email: String,
    pub password: String,
}

/// The request body of the one-time-code path.
#[derive(Debug, Clone, PartialEq)]
pub struct LoginOTPUser {
    pub code: String,
}

/// A cookie the transport layer is to set: name, value, and the attributes
/// the core fixes for every cookie it emits (HttpOnly, SameSite=Lax,
/// Path=/). A negative `max_age_seconds` clears the cookie.
#[derive(Debug, Clone, PartialEq)]
pub struct CookieSpec {
    pub name: String,
    pub value: String,
    pub max_age_seconds: i64,
    pub http_only: bool,
    pub same_site_lax: bool,
    pub path: String,
}

impl CookieSpec {
    /// The attributes every cookie of the core carries.
    pub open spec fn standard_attributes(self) -> bool {
        &&& self.http_only
        &&& self.same_site_lax
        &&& self.path@ == "/"@
    }
}

/// What `initiate` hands back: the path the account uses, the cookie to
/// set, and — on the one-time-code path — the plaintext code for
/// out-of-band delivery.
#[derive(Debug, Clone, PartialEq)]
pub struct InitiateOutcome {
    pub kind: LoginKind,
    pub cookie: CookieSpec,
    pub code: Option<String>,
}

/// What a completed login hands back: the session cookie, and on the
/// one-time-code path also an overwrite that clears the pre-auth cookie.
#[derive(Debug, Clone, PartialEq)]
pub struct LoginSuccess {
    pub token_cookie: CookieSpec,
    pub clear_preauth: Option<CookieSpec>,
}

/// The pre-auth token lifetime: five minutes, in seconds.
pub const PREAUTH_LIFETIME_SECONDS: i64 = 300;

/// `hash` seals the one-time-code issue: the cookie holds a pre-auth token
/// for `email` alive five minutes from `now` embedding `hash`, and the
/// returned plaintext code matches `hash`.
pub open spec fn otp_hash_witness(
    hash: Seq<char>,
    o: InitiateOutcome,
    email: Seq<char>,
    config: Config,
    now: int,
) -> bool {
    &&& encode_utf8(o.cookie.value@) == preauth_token_of(
        email,
        now,
        now + PREAUTH_LIFETIME_SECONDS,
        hash,
        config.jwt_pwl_secret@,
    )
    &&& hash_matches(encode_utf8(o.code->Some_0@), encode_utf8(hash))
}

/// The one-time-code path issued correctly: some hash seals the issue as
/// [`otp_hash_witness`] says.
pub open spec fn otp_issue_ok(o: InitiateOutcome, email: Seq<char>, config: Config, now: int) -> bool {
    exists|hash: Seq<char>| #[trigger] otp_hash_witness(hash, o, email, config, now)
}

/// Whether `email` is a well-formed address, as the validation library
/// judges it. A function of the string alone.
pub uninterp spec fn valid_email(s: Seq<char>) -> bool;

/// Relies on the validator crate's `ValidateEmail::validate_email`: a pure
/// function of the string (length limits, the local-part pattern, and the
/// domain check).
#[verifier::external_body]
fn check_email(email: &str) -> (r: bool)
    ensures
        r == valid_email(email@),
{
    validator::ValidateEmail::validate_email(&email)
}

/// The lowercased form of a string, as the standard library computes it. A
/// function of the string alone.
pub uninterp spec fn lower_of(s: Seq<char>) -> Seq<char>;

/// Relies on str::to_lowercase: the result depends on the characters alone.
#[verifier::external_body]
fn lowercase(s: &str) -> (r: String)
    ensures
        r@ == lower_of(s@),
{
    s.to_lowercase()
}

/// Relies on chrono's `Utc::now().timestamp()`: the wall clock as Unix
/// seconds. Nothing is promised of the reading.
#[verifier::external_body]
fn current_timestamp() -> (r: i64)
{
    chrono::Utc::now().timestamp()
}

/// The clock reading the core works with: the wall clock, clamped into the
/// range the token layer accepts.
pub fn now_clamped() -> (r: i64)
    ensures
        0 <= r <= MAX_TIMESTAMP,
{
    let n = current_timestamp();
    if n < 0 {
        0
    } else if n > MAX_TIMESTAMP {
        MAX_TIMESTAMP
    } else {
        n
    }
}

/// Reject a malformed login email: succeeds exactly on addresses the
/// validation library accepts.
pub fn validate_login_email(email: &str) -> (r: Result<(), ApiError>)
    ensures
        r is Ok <==> valid_email(email@),
        r is Err ==> r == Result::<(), ApiError>::Err(ApiError::ValidationError),
{
    if check_email(email) {
        Ok(())
    } else {
        Err(ApiError::ValidationError)
    }
}

/// The case-normalized form of an email, under which the credential store
/// is keyed.
pub fn normalize_email(email: &str) -> (r: String)
    ensures
        r@ == lower_of(email@),
{
    lowercase(email)
}

/// The cookie that clears the pre-auth cookie with an immediate expiry, set
/// whenever a password-path account initiates a login.
fn expired_preauth_cookie() -> (r: CookieSpec)
    ensures
        r.name@ == "auth_token"@,
        r.value@ == ""@,
        r.max_age_seconds == -1,
        r.standard_attributes(),
{
    proof {
        reveal_strlit("");
        assert(Seq::<char>::empty() =~= ""@);
    }
    CookieSpec {
        name: String::from_str("auth_token"),
        value: String::new(),
        max_age_seconds: -1,
        http_only: true,
        same_site_lax: true,
        path: String::from_str("/"),
    }
}

/// The overwrite that clears the pre-auth cookie after a completed
/// one-time-code login.
fn clear_preauth_cookie() -> (r: CookieSpec)
    ensures
        r.name@ == "auth_token"@,
        r.value@ == ""@,
        r.max_age_seconds == -3600,
        r.standard_attributes(),
{
    proof {
        reveal_strlit("");
        assert(Seq::<char>::empty() =~= ""@);
    }
    CookieSpec {
        name: String::from_str("auth_token"),
        value: String::new(),
        max_age_seconds: -3600,
        http_only: true,
        same_site_lax: true,
        path: String::from_str("/"),
    }
}

/// The session cookie carrying `token`, alive for `max_age_seconds`.
fn session_cookie(token: String, max_age_seconds: i64) -> (r: CookieSpec)
    ensures
        r.name@ == "token"@,
        r.value == token,
        r.max_age_seconds == max_age_seconds,
        r.standard_attributes(),
{
    CookieSpec {
        name: String::from_str("token"),
        value: token,
        max_age_seconds,
        http_only: true,
        same_site_lax: true,
        path: String::from_str("/"),
    }
}

/// The cookie that clears the session cookie on logout.
pub fn logout_cookie() -> (r: CookieSpec)
    ensures
        r.name@ == "token"@,
        r.value@ == ""@,
        r.max_age_seconds == -3600,
        r.standard_attributes(),
{
    proof {
        reveal_strlit("");
        assert(Seq::<char>::empty() =~= ""@);
    }
    CookieSpec {
        name: String::from_str("token"),
        value: String::new(),
        max_age_seconds: -3600,
        http_only: true,
        same_site_lax: true,
        path: String::from_str("/"),
    }
}

/// Mint the session token and cookie for `user_id` at instant `now`.
fn issue_session(user_id: u128, config: &Config, now: i64) -> (r: CookieSpec)
    requires
        0 <= now <= MAX_TIMESTAMP,
        config.wf(),
    ensures
        r.name@ == "token"@,
        encode_utf8(r.value@) == crate::token::session_token_bytes(
            uuid_bytes(user_id),
            now as int,
            now + config.jwt_expires_in * 60,
            encode_utf8(config.jwt_secret@),
        ),
        r.max_age_seconds == config.jwt_expires_in * 60,
        r.standard_attributes(),
{
    let sub = user_id_string(user_id);
    let exp = now + config.jwt_expires_in * 60;
    let token = mint_session_token(sub.as_str(), now, exp, config.jwt_secret.as_str());
    session_cookie(token, config.jwt_expires_in * 60)
}

/// The first step of every login: decide the path for the account behind
/// `email` and prepare its cookie.
///
/// An unknown email earns the store's not-found error; a deactivated
/// account is refused. A password-path account gets `{kind: Password}` and
/// an overwrite that clears any stale pre-auth cookie. Any other account
/// gets `{kind: OTP}`: a fresh code, its salted hash sealed inside a
/// pre-auth token alive for five minutes, and the plaintext code returned
/// for out-of-band delivery.
pub fn login_initiate(user: Option<&User>, email: &str, config: &Config, now: i64) -> (r: Result<
    InitiateOutcome,
    ApiError,
>)
    requires
        0 <= now <= MAX_TIMESTAMP,
    ensures
        user is None ==> r == Result::<InitiateOutcome, ApiError>::Err(
            ApiError::DatabaseError(StoreErrorKind::NotFound),
        ),
        user is Some && !user->Some_0.active ==> r == Result::<InitiateOutcome, ApiError>::Err(
            ApiError::Forbidden(ForbiddenReason::AccountDeactivated),
        ),
        user is Some && user->Some_0.active && user->Some_0.role.has_password ==> r is Ok && {
            let o = r->Ok_0;
            &&& o.kind is Password
            &&& o.code is None
            &&& o.cookie.name@ == "auth_token"@
            &&& o.cookie.value@ == ""@
            &&& o.cookie.max_age_seconds == -1
            &&& o.cookie.standard_attributes()
        },
        user is Some && user->Some_0.active && !user->Some_0.role.has_password && r is Ok ==> {
            let o = r->Ok_0;
            &&& o.kind is OTP
            &&& o.code is Some
            &&& is_otp_code(o.code->Some_0@)
            &&& o.cookie.name@ == "auth_token"@
            &&& o.cookie.max_age_seconds == PREAUTH_LIFETIME_SECONDS
            &&& o.cookie.standard_attributes()
            &&& otp_issue_ok(o, email@, *config, now as int)
        },
        user is Some && user->Some_0.active && !user->Some_0.role.has_password && r is Err ==> r
            == Result::<InitiateOutcome, ApiError>::Err(ApiError::PasswordError),
{
    let u = match user {
        Some(u) => u,
        None => {
            return Err(ApiError::DatabaseError(StoreErrorKind::NotFound));
        },
    };
    if !u.active {
        return Err(ApiError::Forbidden(ForbiddenReason::AccountDeactivated));
    }
    if u.role.has_password {
        return Ok(
            InitiateOutcome {
                kind: LoginKind::Password,
                cookie: expired_preauth_cookie(),
                code: None,
            },
        );
    }
    let code = generate_otp_code();
    let hash = match hash_secret(code.as_str()) {
        Some(h) => h,
        None => {
            return Err(ApiError::PasswordError);
        },
    };
    let exp = now + PREAUTH_LIFETIME_SECONDS;
    let token = mint_preauth_token(email, now, exp, hash.as_str(), config.jwt_pwl_secret.as_str());
    let cookie = CookieSpec {
        name: String::from_str("auth_token"),
        value: token,
        max_age_seconds: PREAUTH_LIFETIME_SECONDS,
        http_only: true,
        same_site_lax: true,
        path: String::from_str("/"),
    };
    let outcome = InitiateOutcome { kind: LoginKind::OTP, cookie, code: Some(code) };
    proof {
        assert(otp_hash_witness(hash@, outcome, email@, *config, now as int));
        assert(otp_issue_ok(outcome, email@, *config, now as int));
    }
    Ok(outcome)
}

/// Complete a password-path login for the account row behind the email.
///
/// The wrong path for the account is a missing permission; a deactivated
/// account is refused; a candidate that does not match the stored hash is an
/// incorrect password. Exactly the matching candidate earns a session
/// cookie alive for the configured lifetime.
pub fn login_password(user: Option<&User>, password: &str, config: &Config, now: i64) -> (r:
    Result<LoginSuccess, ApiError>)
    requires
        0 <= now <= MAX_TIMESTAMP,
        config.wf(),
    ensures
        user is None ==> r == Result::<LoginSuccess, ApiError>::Err(
            ApiError::DatabaseError(StoreErrorKind::NotFound),
        ),
        user is Some && !user->Some_0.role.has_password ==> r == Result::<LoginSuccess, ApiError>::Err(
            ApiError::Forbidden(ForbiddenReason::MissingPermission),
        ),
        user is Some && user->Some_0.role.has_password && !user->Some_0.active ==> r == Result::<
            LoginSuccess,
            ApiError,
        >::Err(ApiError::Forbidden(ForbiddenReason::AccountDeactivated)),
        user is Some && user->Some_0.role.has_password && user->Some_0.active
            && user->Some_0.password is None ==> r is Err && r->Err_0 is GeneralOversight,
        user is Some && user->Some_0.role.has_password && user->Some_0.active
            && user->Some_0.password is Some && !hash_matches(
            encode_utf8(password@),
            encode_utf8(user->Some_0.password->Some_0@),
        ) ==> r == Result::<LoginSuccess, ApiError>::Err(
            ApiError::Forbidden(ForbiddenReason::IncorrectPassword),
        ),
        user is Some && user->Some_0.role.has_password && user->Some_0.active
            && user->Some_0.password is Some && hash_matches(
            encode_utf8(password@),
            encode_utf8(user->Some_0.password->Some_0@),
        ) ==> r is Ok && {
            let s = r->Ok_0;
            &&& s.clear_preauth is None
            &&& s.token_cookie.name@ == "token"@
            &&& encode_utf8(s.token_cookie.value@) == crate::token::session_token_bytes(
                uuid_bytes(user->Some_0.id),
                now as int,
                now + config.jwt_expires_in * 60,
                encode_utf8(config.jwt_secret@),
            )
            &&& s.token_cookie.max_age_seconds == config.jwt_expires_in * 60
            &&& s.token_cookie.standard_attributes()
        },
{
    let u = match user {
        Some(u) => u,
        None => {
            return Err(ApiError::DatabaseError(StoreErrorKind::NotFound));
        },
    };
    if !u.role.has_password {
        return Err(ApiError::Forbidden(ForbiddenReason::MissingPermission));
    }
    if !u.active {
        return Err(ApiError::Forbidden(ForbiddenReason::AccountDeactivated));
    }
    let stored = match &u.password {
        Some(p) => p,
        None => {
            return Err(
                ApiError::GeneralOversight(
                    String::from_str("account requires a password but stores none"),
                ),
            );
        },
    };
    if !verify_secret(password, stored.as_str()) {
        return Err(ApiError::Forbidden(ForbiddenReason::IncorrectPassword));
    }
    let cookie = issue_session(u.id, config, now);
    Ok(LoginSuccess { token_cookie: cookie, clear_preauth: None })
}

/// The first half of a one-time-code login: check the pre-auth cookie and
/// the submitted code, and surface the email the login was initiated for.
///
/// A missing cookie is `Unauthorized`; a cookie that does not verify under
/// the pre-auth secret — bad signature, malformed, or expired — is an
/// invalid token; a code that does not match the sealed hash is an
/// incorrect code. The caller resolves the returned email against the store
/// and finishes with [`login_otp_finish`].
pub fn login_otp_begin(preauth_token: Option<&String>, code: &str, config: &Config, now: i64) -> (r:
    Result<String, ApiError>)
    ensures
        preauth_token is None ==> r == Result::<String, ApiError>::Err(ApiError::Unauthorized),
        preauth_token is Some && decode_preauth_bytes(
            encode_utf8(preauth_token->Some_0@),
            encode_utf8(config.jwt_pwl_secret@),
            now as int,
        ) is None ==> r == Result::<String, ApiError>::Err(ApiError::InvalidToken),
        preauth_token is Some && decode_preauth_bytes(
            encode_utf8(preauth_token->Some_0@),
            encode_utf8(config.jwt_pwl_secret@),
            now as int,
        ) is Some ==> {
            let c = decode_preauth_bytes(
                encode_utf8(preauth_token->Some_0@),
                encode_utf8(config.jwt_pwl_secret@),
                now as int,
            )->Some_0;
            if hash_matches(encode_utf8(code@), c.3) {
                r is Ok && encode_utf8(r->Ok_0@) == c.0
            } else {
                r == Result::<String, ApiError>::Err(
                    ApiError::Forbidden(ForbiddenReason::IncorrectCode),
                )
            }
        },
{
    let token = match preauth_token {
        Some(t) => t,
        None => {
            return Err(ApiError::Unauthorized);
        },
    };
    let claims = match decode_preauth_token(token.as_str(), config.jwt_pwl_secret.as_str(), now) {
        Some(c) => c,
        None => {
            return Err(ApiError::InvalidToken);
        },
    };
    if !verify_secret(code, claims.hash.as_str()) {
        return Err(ApiError::Forbidden(ForbiddenReason::IncorrectCode));
    }
    Ok(claims.sub)
}

/// The second half of a one-time-code login: the account row the pre-auth
/// email resolved to is re-checked and a session is issued; the pre-auth
/// cookie is cleared.
pub fn login_otp_finish(user: Option<&User>, config: &Config, now: i64) -> (r: Result<
    LoginSuccess,
    ApiError,
>)
    requires
        0 <= now <= MAX_TIMESTAMP,
        config.wf(),
    ensures
        user is None ==> r == Result::<LoginSuccess, ApiError>::Err(
            ApiError::DatabaseError(StoreErrorKind::NotFound),
        ),
        user is Some && !user->Some_0.active ==> r == Result::<LoginSuccess, ApiError>::Err(
            ApiError::Forbidden(ForbiddenReason::AccountDeactivated),
        ),
        user is Some && user->Some_0.active ==> r is Ok && {
            let s = r->Ok_0;
            &&& s.token_cookie.name@ == "token"@
            &&& encode_utf8(s.token_cookie.value@) == crate::token::session_token_bytes(
                uuid_bytes(user->Some_0.id),
                now as int,
                now + config.jwt_expires_in * 60,
                encode_utf8(config.jwt_secret@),
            )
            &&& s.token_cookie.max_age_seconds == config.jwt_expires_in * 60
            &&& s.token_cookie.standard_attributes()
            &&& s.clear_preauth is Some
            &&& s.clear_preauth->Some_0.name@ == "auth_token"@
            &&& s.clear_preauth->Some_0.value@ == ""@
            &&& s.clear_preauth->Some_0.max_age_seconds == -3600
            &&& s.clear_preauth->Some_0.standard_attributes()
        },
{
    let u = match user {
        Some(u) => u,
        None => {
            return Err(ApiError::DatabaseError(StoreErrorKind::NotFound));
        },
    };
    if !u.active {
        return Err(ApiError::Forbidden(ForbiddenReason::AccountDeactivated));
    }
    let cookie = issue_session(u.id, config, now);
    Ok(LoginSuccess { token_cookie: cookie, clear_preauth: Some(clear_preauth_cookie()) })
}

/// Law: the pre-auth cookie issued on the one-time-code path verifies under
/// the pre-auth secret at every instant before its five-minute expiry, and
/// then carries exactly the email the login was initiated for, the issue
/// instant, the expiry, and a sealed hash that the issued plaintext code
/// matches.
pub proof fn lemma_initiate_cookie_verifies(
    o: InitiateOutcome,
    email: Seq<char>,
    config: Config,
    now: int,
    t: int,
)
    requires
        otp_issue_ok(o, email, config, now),
        0 <= now <= MAX_TIMESTAMP,
        t < now + PREAUTH_LIFETIME_SECONDS,
    ensures
        ({
            let d = decode_preauth_bytes(
                encode_utf8(o.cookie.value@),
                encode_utf8(config.jwt_pwl_secret@),
                t,
            );
            &&& d is Some
            &&& d->Some_0.0 == encode_utf8(email)
            &&& d->Some_0.1 == now
            &&& d->Some_0.2 == now + PREAUTH_LIFETIME_SECONDS
            &&& hash_matches(encode_utf8(o.code->Some_0@), d->Some_0.3)
        }),
{
    let h = choose|hash: Seq<char>| #[trigger] otp_hash_witness(hash, o, email, config, now);
    vstd::utf8::encode_utf8_valid_utf8(email);
    vstd::utf8::encode_utf8_valid_utf8(h);
    crate::token::lemma_preauth_token_round_trip(
        encode_utf8(email),
        now,
        now + PREAUTH_LIFETIME_SECONDS,
        encode_utf8(h),
        encode_utf8(config.jwt_pwl_secret@),
        t,
    );
}

/// Prepare the stored secret for a newly created account: no secret on a
/// passwordless role, the hashed password on a password role, and the
/// input-invalid error when a password role is given none.
pub fn prepare_new_user_secret(role_has_password: bool, password: Option<&String>) -> (r: Result<
    Option<String>,
    ApiError,
>)
    ensures
        !role_has_password ==> r == Result::<Option<String>, ApiError>::Ok(
            Option::<String>::None,
        ),
        role_has_password && password is None ==> r == Result::<Option<String>, ApiError>::Err(
            ApiError::InputInvalid(crate::errors::InputInvalidReason::NoPasswordSupplied),
        ),
        role_has_password && password is Some && r is Ok ==> r->Ok_0 is Some && hash_matches(
            encode_utf8(password->Some_0@),
            encode_utf8(r->Ok_0->Some_0@),
        ),
        role_has_password && password is Some && r is Err ==> r == Result::<
            Option<String>,
            ApiError,
        >::Err(ApiError::PasswordError),
{
    if !role_has_password {
        return Ok(None);
    }
    let pw = match password {
        Some(p) => p,
        None => {
            return Err(
                ApiError::InputInvalid(crate::errors::InputInvalidReason::NoPasswordSupplied),
            );
        },
    };
    match hash_secret(pw.as_str()) {
        Some(h) => Ok(Some(h)),
        None => Err(ApiError::PasswordError),
    }
}

} // verus!
