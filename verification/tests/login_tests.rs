use auth_core::errors::{ApiError, ForbiddenReason, InputInvalidReason, StoreErrorKind};
use auth_core::login::{
    login_initiate, login_otp_begin, login_otp_finish, login_password, logout_cookie,
    normalize_email, now_clamped, prepare_new_user_secret, validate_login_email, LoginKind,
};
use auth_core::middleware::{admit_user, authenticate_request, extract_token};
use auth_core::model::{Config, Role, User};
use auth_core::token::decode_session_token;

fn config() -> Config {
    Config {
        database_url: String::new(),
        jwt_secret: "session-secret".to_string(),
        jwt_pwl_secret: "preauth-secret".to_string(),
        jwt_expires_in: 60,
        jwt_maxage: 3600,
        frontend_url: String::new(),
        log_path: String::new(),
    }
}

fn role(has_password: bool) -> Role {
    Role {
        id: 9,
        name: "staff".to_string(),
        level: 10,
        has_password,
        user_view: false,
        user_create: false,
        user_edit: false,
        user_delete: false,
        machine_view: false,
        machine_create: false,
        machine_edit: false,
        machine_delete: false,
        task_view: false,
        task_create: false,
        task_edit: false,
        task_delete: false,
        report_view: false,
        report_create: false,
        report_edit: false,
        report_delete: false,
        facility_view: false,
        facility_create: false,
        facility_edit: false,
        facility_delete: false,
    }
}

fn account(has_password: bool, active: bool, password: Option<String>) -> User {
    User {
        id: 0x1234_5678_9abc_def0_1122_3344_5566_7788,
        first_name: "Ada".to_string(),
        last_name: "Lovelace".to_string(),
        email: "ada@example.com".to_string(),
        password,
        phone: None,
        role: role(has_password),
        active,
        last_login: 0,
        occupation: None,
        image: None,
        facility: None,
    }
}

fn hash_of(secret: &str) -> String {
    match prepare_new_user_secret(true, Some(&secret.to_string())) {
        Ok(Some(h)) => h,
        _ => panic!("hashing failed"),
    }
}

#[test]
fn initiate_unknown_email_is_not_found() {
    let cfg = config();
    assert_eq!(
        login_initiate(None, "ada@example.com", &cfg, 1_000),
        Err(ApiError::DatabaseError(StoreErrorKind::NotFound))
    );
}

#[test]
fn initiate_deactivated_account_refused() {
    let cfg = config();
    let u = account(true, false, Some("h".to_string()));
    assert_eq!(
        login_initiate(Some(&u), "ada@example.com", &cfg, 1_000),
        Err(ApiError::Forbidden(ForbiddenReason::AccountDeactivated))
    );
}

#[test]
fn initiate_password_account_clears_preauth_cookie() {
    let cfg = config();
    let u = account(true, true, Some("h".to_string()));
    let o = login_initiate(Some(&u), "ada@example.com", &cfg, 1_000).expect("initiate");
    assert_eq!(o.kind, LoginKind::Password);
    assert!(o.code.is_none());
    assert_eq!(o.cookie.name, "auth_token");
    assert_eq!(o.cookie.value, "");
    assert_eq!(o.cookie.max_age_seconds, -1);
    assert!(o.cookie.http_only);
    assert!(o.cookie.same_site_lax);
    assert_eq!(o.cookie.path, "/");
}

#[test]
fn initiate_otp_account_issues_verifiable_cookie() {
    let cfg = config();
    let now: i64 = 1_000;
    let u = account(false, true, None);
    let o = login_initiate(Some(&u), "ada@example.com", &cfg, now).expect("initiate");
    assert_eq!(o.kind, LoginKind::OTP);
    let code = o.code.expect("a code is issued");
    assert_eq!(code.len(), 6);
    assert!(code.chars().all(|c| c.is_ascii_hexdigit() && !c.is_ascii_lowercase()));
    assert_eq!(o.cookie.name, "auth_token");
    assert_eq!(o.cookie.max_age_seconds, 300);
    // The cookie verifies under the pre-auth secret and seals exactly this code.
    let email = login_otp_begin(Some(&o.cookie.value), &code, &cfg, now + 299).expect("code accepted");
    assert_eq!(email, "ada@example.com");
    // A different code is rejected against the same cookie.
    let wrong = if code == "000000" { "000001" } else { "000000" };
    assert_eq!(
        login_otp_begin(Some(&o.cookie.value), wrong, &cfg, now + 299),
        Err(ApiError::Forbidden(ForbiddenReason::IncorrectCode))
    );
    // After the five-minute window the cookie no longer verifies.
    assert_eq!(
        login_otp_begin(Some(&o.cookie.value), &code, &cfg, now + 300),
        Err(ApiError::InvalidToken)
    );
}

#[test]
fn otp_begin_without_cookie_is_unauthorized() {
    let cfg = config();
    assert_eq!(
        login_otp_begin(None, "ABCDEF", &cfg, 1_000),
        Err(ApiError::Unauthorized)
    );
}

#[test]
fn otp_begin_with_garbage_cookie_is_invalid_token() {
    let cfg = config();
    let garbage = "no.real.token".to_string();
    assert_eq!(
        login_otp_begin(Some(&garbage), "ABCDEF", &cfg, 1_000),
        Err(ApiError::InvalidToken)
    );
}

#[test]
fn password_login_succeeds_on_exact_credential() {
    let cfg = config();
    let now: i64 = 5_000;
    let u = account(true, true, Some(hash_of("open sesame")));
    let s = login_password(Some(&u), "open sesame", &cfg, now).expect("login");
    assert!(s.clear_preauth.is_none());
    assert_eq!(s.token_cookie.name, "token");
    assert_eq!(s.token_cookie.max_age_seconds, 60 * 60);
    let claims = decode_session_token(&s.token_cookie.value, "session-secret", now + 1)
        .expect("session token verifies");
    assert_eq!(claims.iat, now);
    assert_eq!(claims.exp, now + 60 * 60);
    assert_eq!(claims.sub, "12345678-9abc-def0-1122-334455667788");
}

#[test]
fn password_login_rejects_any_wrong_password() {
    let cfg = config();
    let u = account(true, true, Some(hash_of("open sesame")));
    for wrong in ["", "open sesam", "OPEN SESAME", "open sesame "] {
        assert_eq!(
            login_password(Some(&u), wrong, &cfg, 5_000),
            Err(ApiError::Forbidden(ForbiddenReason::IncorrectPassword))
        );
    }
}

#[test]
fn password_login_error_cases() {
    let cfg = config();
    assert_eq!(
        login_password(None, "pw", &cfg, 1_000),
        Err(ApiError::DatabaseError(StoreErrorKind::NotFound))
    );
    let passwordless = account(false, true, None);
    assert_eq!(
        login_password(Some(&passwordless), "pw", &cfg, 1_000),
        Err(ApiError::Forbidden(ForbiddenReason::MissingPermission))
    );
    let inactive = account(true, false, Some("h".to_string()));
    assert_eq!(
        login_password(Some(&inactive), "pw", &cfg, 1_000),
        Err(ApiError::Forbidden(ForbiddenReason::AccountDeactivated))
    );
    let broken = account(true, true, None);
    assert!(matches!(
        login_password(Some(&broken), "pw", &cfg, 1_000),
        Err(ApiError::GeneralOversight(_))
    ));
}

#[test]
fn passwordless_account_completes_otp_login() {
    // The full scenario: the password path refuses the account, the code
    // path logs it in and yields a session valid for the configured span.
    let cfg = config();
    let now: i64 = 10_000;
    let u = account(false, true, None);
    assert_eq!(
        login_password(Some(&u), "anything", &cfg, now),
        Err(ApiError::Forbidden(ForbiddenReason::MissingPermission))
    );
    let o = login_initiate(Some(&u), "Ada@Example.com", &cfg, now).expect("initiate");
    let code = o.code.expect("code");
    let email = login_otp_begin(Some(&o.cookie.value), &code, &cfg, now + 60).expect("code ok");
    assert_eq!(normalize_email(&email), "ada@example.com");
    let s = login_otp_finish(Some(&u), &cfg, now + 60).expect("finish");
    assert_eq!(s.token_cookie.max_age_seconds, 60 * 60);
    let clear = s.clear_preauth.expect("pre-auth cookie cleared");
    assert_eq!(clear.name, "auth_token");
    assert!(clear.max_age_seconds < 0);
    let exp = now + 60 + 60 * 60;
    assert!(decode_session_token(&s.token_cookie.value, "session-secret", exp - 1).is_some());
    assert!(decode_session_token(&s.token_cookie.value, "session-secret", exp).is_none());
}

#[test]
fn otp_finish_error_cases() {
    let cfg = config();
    assert_eq!(
        login_otp_finish(None, &cfg, 1_000),
        Err(ApiError::DatabaseError(StoreErrorKind::NotFound))
    );
    let inactive = account(false, false, None);
    assert_eq!(
        login_otp_finish(Some(&inactive), &cfg, 1_000),
        Err(ApiError::Forbidden(ForbiddenReason::AccountDeactivated))
    );
}

#[test]
fn middleware_resolves_active_user() {
    let cfg = config();
    let now: i64 = 7_000;
    let u = account(true, true, Some(hash_of("pw")));
    let s = login_password(Some(&u), "pw", &cfg, now).expect("login");
    let id = authenticate_request(Some(s.token_cookie.value.clone()), None, &cfg, now + 5)
        .expect("token accepted");
    assert_eq!(id, u.id);
    let admitted = admit_user(Some(u.clone())).expect("active user admitted");
    assert_eq!(admitted.id, u.id);
}

#[test]
fn middleware_rejects_inactive_user_with_valid_token() {
    let cfg = config();
    let now: i64 = 7_000;
    let mut u = account(true, true, Some(hash_of("pw")));
    let s = login_password(Some(&u), "pw", &cfg, now).expect("login");
    // The token still verifies...
    assert!(authenticate_request(Some(s.token_cookie.value.clone()), None, &cfg, now + 5).is_ok());
    // ...but the deactivated account is refused at admission.
    u.active = false;
    assert_eq!(
        admit_user(Some(u)),
        Err(ApiError::Forbidden(ForbiddenReason::AccountDeactivated))
    );
}

#[test]
fn middleware_rejects_missing_stale_and_expired_tokens() {
    let cfg = config();
    assert_eq!(
        authenticate_request(None, None, &cfg, 1_000),
        Err(ApiError::Unauthorized)
    );
    assert_eq!(
        authenticate_request(Some("garbage".to_string()), None, &cfg, 1_000),
        Err(ApiError::Unauthorized)
    );
    let now: i64 = 7_000;
    let u = account(true, true, Some(hash_of("pw")));
    let s = login_password(Some(&u), "pw", &cfg, now).expect("login");
    let after_expiry = now + 60 * 60;
    assert_eq!(
        authenticate_request(Some(s.token_cookie.value), None, &cfg, after_expiry),
        Err(ApiError::Unauthorized)
    );
    // A stale id: the store no longer has the user.
    assert_eq!(admit_user(None), Err(ApiError::Unauthorized));
}

#[test]
fn bearer_header_is_a_fallback_only() {
    let header = "Bearer abc.def.ghi".to_string();
    assert_eq!(extract_token(None, Some(&header)), Some("abc.def.ghi".to_string()));
    let cookie = "cookie-token".to_string();
    assert_eq!(extract_token(Some(cookie.clone()), Some(&header)), Some(cookie));
    let bad = "Token abc".to_string();
    assert_eq!(extract_token(None, Some(&bad)), None);
    let short = "Bearer".to_string();
    assert_eq!(extract_token(None, Some(&short)), None);
    assert_eq!(extract_token(None, None), None);
}

#[test]
fn email_validation_and_normalization() {
    assert!(validate_login_email("ada@example.com").is_ok());
    assert_eq!(
        validate_login_email("not an email"),
        Err(ApiError::ValidationError)
    );
    assert_eq!(normalize_email("Ada@EXAMPLE.com"), "ada@example.com");
}

#[test]
fn new_user_secret_preparation() {
    assert_eq!(prepare_new_user_secret(false, Some(&"pw".to_string())), Ok(None));
    assert_eq!(
        prepare_new_user_secret(true, None),
        Err(ApiError::InputInvalid(InputInvalidReason::NoPasswordSupplied))
    );
    let hashed = prepare_new_user_secret(true, Some(&"pw".to_string()))
        .expect("hashing works")
        .expect("a hash is stored");
    assert_ne!(hashed, "pw");
    let cfg = config();
    let u = account(true, true, Some(hashed));
    assert!(login_password(Some(&u), "pw", &cfg, 1_000).is_ok());
}

#[test]
fn logout_clears_session_cookie() {
    let c = logout_cookie();
    assert_eq!(c.name, "token");
    assert_eq!(c.value, "");
    assert!(c.max_age_seconds < 0);
    assert!(c.http_only);
    assert!(c.same_site_lax);
    assert_eq!(c.path, "/");
}

#[test]
fn clock_reading_is_clamped() {
    let now = now_clamped();
    assert!(now >= 0);
    assert!(now <= auth_core::model::MAX_TIMESTAMP);
}

#[test]
fn error_mapping_is_fixed_and_non_leaking() {
    let cases: Vec<(ApiError, u16, &str)> = vec![
        (ApiError::Unauthorized, 401, "You are not logged in"),
        (ApiError::InvalidToken, 401, "Invalid token"),
        (ApiError::ValidationError, 400, "Invalid email"),
        (ApiError::PasswordError, 500, "Internal server error"),
        (
            ApiError::Forbidden(ForbiddenReason::MissingPermission),
            403,
            "You lack permission to do this action",
        ),
        (
            ApiError::Forbidden(ForbiddenReason::AccountDeactivated),
            403,
            "Your account has been deactivated",
        ),
        (
            ApiError::Forbidden(ForbiddenReason::IncorrectPassword),
            403,
            "Incorrect password",
        ),
        (
            ApiError::Forbidden(ForbiddenReason::IncorrectCode),
            403,
            "Incorrect code",
        ),
        (
            ApiError::Conflict(auth_core::errors::ConflictReason::EmailTaken),
            409,
            "This email is already taken",
        ),
        (
            ApiError::InputInvalid(InputInvalidReason::NoPasswordSupplied),
            400,
            "No password supplied",
        ),
        (
            ApiError::InputInvalid(InputInvalidReason::NoFieldsToUpdate),
            400,
            "No fields to update provided",
        ),
        (ApiError::DatabaseError(StoreErrorKind::NotFound), 404, "Not found"),
        (ApiError::DatabaseError(StoreErrorKind::Other), 500, "Database error"),
        (
            ApiError::GeneralOversight("secret detail".to_string()),
            500,
            "Internal server error",
        ),
    ];
    for (err, status, message) in cases {
        let (s, m) = err.status_and_message();
        assert_eq!(s, status);
        assert_eq!(m, message);
    }
}
