use axum::http::{header, HeaderMap};
use y2m::account::{
    admin_name_free, admin_settings, admin_user_id, change_password, current_user, ensure_admin,
    hash_outcome, login, login_succeeded, logout, open_session, register, registered, signed_in, start_session,
    update_admin_settings, AdminSettingsRequest, Credentials, NewAccount, PasswordRequest, Settings,
    UserRow,
};
use y2m::api::{from_storage, ApiError, StorageError};
use y2m::headers::token_in_cookie;
use y2m::limiter::Attempts;
use y2m::password::{hash_password, hash_with_salt, verify_password};
use y2m::random::random_alphanumeric;
use y2m::sessions::Sessions;

fn credentials(username: &str, password: &str) -> Credentials {
    Credentials {
        username: username.to_string(),
        password: password.to_string(),
        password_confirm: Some(password.to_string()),
        invite_code: None,
    }
}

fn settings(mode: &str, code: &str) -> Settings {
    Settings { registration_mode: mode.to_string(), invite_code: code.to_string() }
}

fn cookie_headers(token: &str) -> HeaderMap {
    let mut headers = HeaderMap::new();
    headers.insert(header::COOKIE, format!("y2m_session={token}").parse().unwrap());
    headers
}

fn refused(input: Credentials) -> ApiError {
    match register(&mut Attempts::new(), "10.0.0.1", input, 1_000) {
        Err(error) => error,
        Ok(_) => panic!("accepted"),
    }
}

fn stored_account() -> NewAccount {
    let input = credentials("  ann ", "secret1");
    let Ok(registration) = register(&mut Attempts::new(), "10.0.0.1", input, 1_000) else {
        panic!("refused");
    };
    let Ok(admission) = registration.let_in(Ok(settings("open", ""))) else {
        panic!("kept out");
    };
    let Ok(account) = admission.hash(true) else {
        panic!("not hashed");
    };
    account
}

#[test]
fn random_tokens_have_requested_length() {
    assert_eq!(random_alphanumeric(24).chars().count(), 24);
    assert!(random_alphanumeric(32)
        .bytes()
        .all(|byte| byte.is_ascii_alphanumeric()));
}

#[test]
fn random_tokens_differ() {
    assert_ne!(random_alphanumeric(48), random_alphanumeric(48));
    assert_eq!(random_alphanumeric(0), "");
}

#[test]
fn a_hash_accepts_its_password_only() {
    let hash = hash_password("correct horse").unwrap();
    assert!(hash.starts_with("$argon2id$v=19$m=19456,t=2,p=1$"));
    assert!(verify_password("correct horse", &hash));
    assert!(!verify_password("wrong horse", &hash));
    assert!(!verify_password("correct horse", "!system-account-disabled!"));
    assert_ne!(hash, hash_password("correct horse").unwrap());
}

#[test]
fn every_password_that_fits_is_hashed() {
    for password in ["", "secret", &"玉".repeat(128), &"x".repeat(10_000)] {
        let hash = hash_password(password).unwrap();
        assert!(verify_password(password, &hash));
        let salt = hash.split('$').nth(4).unwrap();
        assert_eq!(salt.len(), 22);
        assert!(salt.ends_with(['A', 'Q', 'g', 'w']));
        assert_eq!(hash_with_salt(password, salt), Ok(hash.clone()));
    }
    assert_eq!(hash_with_salt("secret", ""), Err(()));
}

#[test]
fn a_hash_depends_on_password_and_salt_alone() {
    let salt = "c2FsdHNhbHRzYWx0";
    let hash = hash_with_salt("password", salt).unwrap();
    assert_eq!(hash, hash_with_salt("password", salt).unwrap());
    assert_ne!(hash, hash_with_salt("passwore", salt).unwrap());
    assert_ne!(hash, hash_with_salt("password", "dGxhc3RsYXN0bGFz").unwrap());
    assert!(hash_with_salt("password", "not a salt").is_err());
}

#[test]
fn a_hash_that_asks_for_too_much_accepts_nothing() {
    let hash = "$argon2id$v=19$m=19456,t=2,p=999999999$c2FsdHNhbHRzYWx0$AAAAAAAAAAAAAAAAAAAAAA";
    assert!(!verify_password("password", hash));
}

#[test]
fn registering_stores_the_trimmed_name_and_a_hash() {
    let account = stored_account();
    assert_eq!(account.username, "ann");
    assert!(verify_password("secret1", &account.password_hash));
}

#[test]
fn names_and_passwords_are_checked_in_order() {
    assert_eq!(refused(credentials(" a ", "x")), ApiError::BadUsername);
    assert_eq!(refused(credentials(&"a".repeat(25), "x")), ApiError::BadUsername);
    assert_eq!(refused(credentials("an\tn", "secret1")), ApiError::BadUsername);
    assert_eq!(refused(credentials("__y2m_system__", "x")), ApiError::UsernameUnavailable);
    assert_eq!(refused(credentials("ann", "short")), ApiError::BadPassword);
    assert_eq!(refused(credentials("ann", &"p".repeat(129))), ApiError::BadPassword);
    let mut input = credentials("ann", "secret1");
    input.password_confirm = None;
    assert_eq!(refused(input), ApiError::PasswordsDiffer);
    assert!(register(
        &mut Attempts::new(),
        "10.0.0.1",
        credentials(&"井".repeat(24), &"玉".repeat(128)),
        1_000
    )
    .is_ok());
}

#[test]
fn too_many_registrations_are_refused_first() {
    let mut attempts = Attempts::new();
    for _ in 0..10 {
        let _ = register(&mut attempts, "10.0.0.1", credentials("a", "x"), 1_000);
    }
    let result = register(&mut attempts, "10.0.0.1", credentials("ann", "secret1"), 1_001);
    assert!(matches!(result, Err(ApiError::RegistrationsTooFrequent)));
}

fn let_in(code: Option<&str>, settings: Result<Settings, StorageError>) -> Result<(), ApiError> {
    let mut input = credentials("ann", "secret1");
    input.invite_code = code.map(|code| code.to_string());
    match register(&mut Attempts::new(), "10.0.0.1", input, 1_000) {
        Ok(registration) => registration.let_in(settings).map(|_| ()),
        Err(error) => Err(error),
    }
}

#[test]
fn invitations_need_the_code() {
    assert_eq!(let_in(None, Ok(settings("open", "code"))), Ok(()));
    assert_eq!(let_in(Some(" code "), Ok(settings("invite", "code"))), Ok(()));
    assert_eq!(let_in(Some("Code"), Ok(settings("invite", "code"))), Err(ApiError::BadInvite));
    assert_eq!(let_in(None, Ok(settings("invite", "code"))), Err(ApiError::BadInvite));
    assert_eq!(let_in(Some(""), Ok(settings("invite", ""))), Err(ApiError::BadInvite));
    assert_eq!(let_in(None, Ok(settings("closed", ""))), Err(ApiError::Internal));
    assert_eq!(let_in(None, Err(StorageError::Other)), Err(ApiError::Database));
}

#[test]
fn work_on_passwords_needs_room() {
    let input = credentials("ann", "secret1");
    let Ok(registration) = register(&mut Attempts::new(), "10.0.0.1", input, 1_000) else {
        panic!("refused");
    };
    let Ok(admission) = registration.let_in(Ok(settings("open", ""))) else {
        panic!("kept out");
    };
    assert!(matches!(admission.hash(false), Err(ApiError::Busy)));
}

#[test]
fn a_name_that_is_taken_is_refused() {
    assert_eq!(registered(Ok(())), Ok(()));
    assert_eq!(registered(Err(StorageError::Constraint)), Err(ApiError::UsernameTaken));
    assert_eq!(registered(Err(StorageError::Other)), Err(ApiError::Database));
}

fn log_in(
    username: &str,
    password: &str,
    row: Result<Option<UserRow>, StorageError>,
    permitted: bool,
) -> Result<(i64, String, bool), ApiError> {
    let mut by_user = Attempts::new();
    let mut by_source = Attempts::new();
    let dummy = hash_with_salt("dummy", "c2FsdHNhbHRzYWx0").unwrap();
    let attempt = login(
        &mut by_user,
        &mut by_source,
        "10.0.0.1",
        credentials(username, password),
        1_000,
    )?;
    let check = attempt.found(row, &dummy)?;
    let account = check.verify(permitted)?;
    Ok((account.id, account.username, account.is_admin))
}

fn row(mark: i64) -> UserRow {
    let account = stored_account();
    UserRow {
        id: 7,
        username: account.username,
        password_hash: account.password_hash,
        is_admin: mark,
    }
}

#[test]
fn whoever_has_registered_can_log_in() {
    let attempt = login(
        &mut Attempts::new(),
        &mut Attempts::new(),
        "10.0.0.1",
        credentials("  ann ", "secret1"),
        1_000,
    );
    assert_eq!(attempt.ok().unwrap().username(), "ann");
    let logged_in = log_in("  ann ", "secret1", Ok(Some(row(0))), true);
    assert_eq!(logged_in, Ok((7, "ann".to_string(), false)));
    let logged_in = log_in("ann", "secret1", Ok(Some(row(1))), true);
    assert_eq!(logged_in, Ok((7, "ann".to_string(), true)));
}

#[test]
fn unknown_names_look_like_wrong_passwords() {
    assert_eq!(log_in("ann", "wrong pw", Ok(Some(row(0))), true), Err(ApiError::WrongCredentials));
    assert_eq!(log_in("bob", "secret1", Ok(None), true), Err(ApiError::WrongCredentials));
    assert_eq!(log_in("bob", "dummy", Ok(None), true), Err(ApiError::WrongCredentials));
    assert_eq!(log_in("bob", "secret1", Ok(None), false), Err(ApiError::WrongCredentials));
    assert_eq!(log_in("ann", "secret1", Ok(Some(row(0))), false), Err(ApiError::Busy));
    assert_eq!(log_in("ann", "secret1", Err(StorageError::Other), true), Err(ApiError::Database));
}

#[test]
fn a_sixth_login_in_a_minute_is_refused() {
    let mut by_user = Attempts::new();
    let mut by_source = Attempts::new();
    for _ in 0..5 {
        let input = credentials("ann", "x");
        assert!(login(&mut by_user, &mut by_source, "10.0.0.1", input, 1_000).is_ok());
    }
    let input = credentials("ann", "x");
    let result = login(&mut by_user, &mut by_source, "10.0.0.1", input, 1_001);
    assert!(matches!(result, Err(ApiError::LoginsTooFrequent)));
    let account = current_user(7, Ok(Some(("ann".to_string(), 0)))).ok().unwrap();
    login_succeeded(&mut by_user, &mut by_source, &account, "10.0.0.1");
    let input = credentials("ann", "x");
    assert!(login(&mut by_user, &mut by_source, "10.0.0.1", input, 1_001).is_ok());
}

#[test]
fn a_login_is_remembered_until_logging_out() {
    let mut sessions = Sessions::new();
    let cookie = open_session(&mut sessions, 7, 1_000, false);
    let token = token_in_cookie(cookie.split(';').next().unwrap()).unwrap();
    assert_eq!(token.len(), 48);
    let headers = cookie_headers(token);
    assert_eq!(signed_in(&mut sessions, &headers, 1_500), Ok(7));
    let other = start_session(&mut sessions, "other".to_string(), 8, 1_500, true);
    assert_eq!(
        other,
        "y2m_session=other; HttpOnly; SameSite=Strict; Path=/; Max-Age=604800; Secure"
    );
    assert_eq!(
        logout(&mut sessions, &headers, false),
        "y2m_session=; HttpOnly; SameSite=Strict; Path=/; Max-Age=0"
    );
    assert_eq!(signed_in(&mut sessions, &headers, 1_501), Err(ApiError::NotLoggedIn));
    assert_eq!(signed_in(&mut sessions, &cookie_headers("other"), 1_501), Ok(8));
}

#[test]
fn the_current_user_is_read_from_the_row() {
    let account = current_user(7, Ok(Some(("ann".to_string(), 1)))).ok().unwrap();
    assert_eq!((account.id, account.username.as_str(), account.is_admin), (7, "ann", true));
    let account = current_user(7, Ok(Some(("ann".to_string(), 2)))).ok().unwrap();
    assert!(!account.is_admin);
    assert!(matches!(current_user(7, Ok(None)), Err(ApiError::NotLoggedIn)));
    assert!(matches!(current_user(7, Err(StorageError::Other)), Err(ApiError::Database)));
}

#[test]
fn administrators_are_marked() {
    assert_eq!(admin_user_id(7, Ok(Some(1))), Ok(7));
    assert_eq!(admin_user_id(7, Ok(Some(0))), Err(ApiError::NotAdmin));
    assert_eq!(admin_user_id(7, Ok(None)), Err(ApiError::NotLoggedIn));
    assert_eq!(admin_user_id(7, Err(StorageError::Other)), Err(ApiError::Database));
}

fn ask(mode: &str, code: Option<&str>) -> Result<(String, String), ApiError> {
    let input = AdminSettingsRequest {
        registration_mode: mode.to_string(),
        invite_code: code.map(|code| code.to_string()),
    };
    update_admin_settings(input).map(|settings| (settings.registration_mode, settings.invite_code))
}

#[test]
fn settings_are_checked_before_they_are_stored() {
    assert_eq!(ask("open", None), Ok(("open".to_string(), String::new())));
    assert_eq!(ask("invite", Some(" code ")), Ok(("invite".to_string(), "code".to_string())));
    assert_eq!(ask("invite", Some("  ")), Err(ApiError::InviteMissing));
    assert_eq!(ask("invite", None), Err(ApiError::InviteMissing));
    assert_eq!(ask("closed", Some("code")), Err(ApiError::BadRegistrationMode));
    let (_, code) = ask("invite", Some(&"c".repeat(200))).unwrap();
    assert_eq!(code, "c".repeat(128));
}

#[test]
fn stored_settings_let_in_those_who_give_the_code() {
    let (mode, code) = ask("invite", Some(" our code ")).unwrap();
    assert_eq!(let_in(Some("our code"), Ok(settings(&mode, &code))), Ok(()));
    assert_eq!(let_in(Some(" our code "), Ok(settings(&mode, &code))), Ok(()));
    assert_eq!(let_in(Some("ourcode"), Ok(settings(&mode, &code))), Err(ApiError::BadInvite));
}

#[test]
fn settings_are_shown_as_they_are() {
    let shown = admin_settings(Ok(settings("invite", "code"))).ok().unwrap();
    assert_eq!(shown.registration_mode, "invite");
    assert_eq!(shown.invite_code, "code");
    assert!(matches!(admin_settings(Err(StorageError::Other)), Err(ApiError::Database)));
}

fn password_request(current: &str, new: &str, confirm: &str) -> PasswordRequest {
    PasswordRequest {
        current_password: current.to_string(),
        new_password: new.to_string(),
        confirm_password: confirm.to_string(),
    }
}

#[test]
fn a_change_of_password_ends_every_session_of_the_user() {
    let mut sessions = Sessions::new();
    start_session(&mut sessions, "one".to_string(), 7, 1_000, false);
    start_session(&mut sessions, "two".to_string(), 7, 1_000, false);
    start_session(&mut sessions, "three".to_string(), 8, 1_000, false);
    let headers = cookie_headers("one");
    let input = password_request("old password", "new password", "new password");
    let Ok(change) = change_password(&mut sessions, &headers, input, 1_001) else {
        panic!("refused");
    };
    assert_eq!(change.uid(), 7);
    let hash = hash_password("old password").unwrap();
    assert_eq!(change.verify(Ok(hash), true), Ok(()));
    let new_hash = change.hash(true).unwrap();
    assert!(verify_password("new password", &new_hash));
    assert_eq!(change.stored(Err(StorageError::Other), &mut sessions), Err(ApiError::Database));
    assert!(sessions.contains_key("two"));
    assert_eq!(change.stored(Ok(()), &mut sessions), Ok(()));
    assert!(!sessions.contains_key("one"));
    assert!(!sessions.contains_key("two"));
    assert!(sessions.contains_key("three"));
}

#[test]
fn a_change_of_password_is_checked() {
    let mut sessions = Sessions::new();
    start_session(&mut sessions, "one".to_string(), 7, 1_000, false);
    let headers = cookie_headers("one");
    let mut ask = |headers: &HeaderMap, new: &str, confirm: &str| {
        change_password(&mut sessions, headers, password_request("old", new, confirm), 1_001)
            .map(|_| ())
    };
    assert_eq!(ask(&HeaderMap::new(), "abc", "x"), Err(ApiError::NotLoggedIn));
    assert_eq!(ask(&headers, "abcde", "x"), Err(ApiError::BadNewPassword));
    assert_eq!(ask(&headers, &"a".repeat(129), "x"), Err(ApiError::BadNewPassword));
    assert_eq!(ask(&headers, "abcdef", "abcdeg"), Err(ApiError::NewPasswordsDiffer));
    assert_eq!(ask(&headers, "abcdef", "abcdef"), Ok(()));
}

#[test]
fn the_current_password_must_be_right() {
    let mut sessions = Sessions::new();
    start_session(&mut sessions, "one".to_string(), 7, 1_000, false);
    let headers = cookie_headers("one");
    let input = password_request("wrong", "new password", "new password");
    let Ok(change) = change_password(&mut sessions, &headers, input, 1_001) else {
        panic!("refused");
    };
    let hash = hash_password("right").unwrap();
    assert_eq!(change.verify(Ok(hash.clone()), true), Err(ApiError::WrongPassword));
    assert_eq!(change.verify(Ok(hash), false), Err(ApiError::Busy));
    assert_eq!(change.verify(Err(StorageError::Other), true), Err(ApiError::Database));
    assert_eq!(change.hash(false), Err(ApiError::Busy));
}

#[test]
fn the_first_administrator_gets_a_password() {
    assert!(matches!(ensure_admin(true, true), Ok(None)));
    let Ok(Some(admin)) = ensure_admin(false, true) else {
        panic!("no administrator");
    };
    assert_eq!(admin.password.len(), 24);
    assert!(verify_password(&admin.password, &admin.password_hash));
    assert!(matches!(ensure_admin(false, false), Err("无法生成默认管理员密码哈希")));
    assert_eq!(admin_name_free(false), Ok(()));
    assert_eq!(admin_name_free(true), Err("默认管理员用户名已被占用，请先处理该账号"));
}

#[test]
fn refusals_have_their_status_and_text() {
    assert_eq!(ApiError::Database.status(), 500);
    assert_eq!(ApiError::Database.message(), "数据库错误");
    assert_eq!(ApiError::Internal.message(), "服务器内部错误");
    assert_eq!(ApiError::NotLoggedIn.status(), 401);
    assert_eq!(ApiError::NotLoggedIn.message(), "请先登录");
    assert_eq!(ApiError::RegistrationsTooFrequent.status(), 429);
    assert_eq!(ApiError::BadUsername.message(), "用户名长度必须为 2-24 个字符");
    assert_eq!(ApiError::UsernameTaken.status(), 409);
    assert_eq!(ApiError::Busy.status(), 503);
    assert_eq!(ApiError::NoSuchRoom.status(), 404);
    assert_eq!(ApiError::NotMember.status(), 403);
    assert_eq!(ApiError::NotMember.message(), "你不是该聊天室成员");
    assert_eq!(ApiError::UnusableBackup.status(), 400);
    assert_eq!(ApiError::UnusableBackup.message(), "备份文件无效或结构不兼容");
}

#[test]
fn failures_become_refusals() {
    assert_eq!(from_storage(Ok(5)), Ok(5));
    assert_eq!(from_storage::<i64>(Err(StorageError::Constraint)), Err(ApiError::Database));
    assert_eq!(hash_outcome(Ok("hash".to_string())), Ok("hash".to_string()));
    assert_eq!(hash_outcome(Err(())), Err(ApiError::Busy));
}
