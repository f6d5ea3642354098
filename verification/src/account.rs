//! Accounts: registering, logging in and out, and changing the password.
//!
//! What a handler does between two questions to the database is one function
//! here. It takes the answer, and gives back what is to be asked next or why the
//! request is refused.

use crate::api::{viewed, ApiError, StorageError};
use crate::headers::{
    after_logout, after_request, clear_session_cookie, cookie_pair, cookie_text, cookie_token,
    end_session, law_cookie_round_trip, session_cookie, token_in, user_id, user_of,
};
use crate::limiter::{
    after_attempt, clear_login_attempts, grants, login_allowed, registration_allowed,
    registration_limits, source_limits, user_limits, Attempts, LOGIN_WINDOW_SECS,
    REGISTRATION_WINDOW_SECS,
};
use crate::backup::{compatible, BackupFacts};
use crate::password::{accepts, hash_of, hash_password, law_usual_passwords_are_hashed, verify_password};
use crate::random::random_alphanumeric;
use crate::sessions::{
    admits, drop_user_sessions, insert_session, law_new_session_admits, session_entered,
    without_user, Session, Sessions, SESSION_TTL_SECS,
};
use crate::text::{
    at_most, clean, constant_time_eq, is_alphanumeric, is_control_char, lemma_trimmed_again,
    optional_text, same_text, text_or_empty, trimmed, valid_username,
};
use axum::http::HeaderMap;
use vstd::prelude::*;
use vstd::string::*;

verus! {

/// The name of the account that owns the lobby. Nobody logs in under it.
pub const SYSTEM_USERNAME: &'static str = "__y2m_system__";

/// What a client sends to register or to log in.
pub struct Credentials {
    pub username: String,
    pub password: String,
    pub password_confirm: Option<String>,
    pub invite_code: Option<String>,
}

/// How accounts are made: `open` to everyone, or by `invite` with a code.
pub struct Settings {
    pub registration_mode: String,
    pub invite_code: String,
}

/// An account as a client sees it.
#[derive(Clone)]
pub struct Account {
    pub id: i64,
    pub username: String,
    pub is_admin: bool,
}

/// A row of the users.
pub struct UserRow {
    pub id: i64,
    pub username: String,
    pub password_hash: String,
    pub is_admin: i64,
}

/// Settings, by their characters.
pub ghost struct SettingsView {
    pub registration_mode: Seq<char>,
    pub invite_code: Seq<char>,
}

/// An account, with the name as its characters.
pub ghost struct AccountView {
    pub id: i64,
    pub username: Seq<char>,
    pub is_admin: bool,
}

impl View for Settings {
    type V = SettingsView;

    open spec fn view(&self) -> SettingsView {
        SettingsView {
            registration_mode: self.registration_mode@,
            invite_code: self.invite_code@,
        }
    }
}

impl View for Account {
    type V = AccountView;

    open spec fn view(&self) -> AccountView {
        AccountView { id: self.id, username: self.username@, is_admin: self.is_admin }
    }
}

/// The user whom a request comes from.
pub fn signed_in(sessions: &mut Sessions, headers: &HeaderMap, current_time: i64) -> (r: Result<
    i64,
    ApiError,
>)
    requires
        current_time + SESSION_TTL_SECS <= i64::MAX,
    ensures
        final(sessions)@ == after_request(old(sessions)@, *headers, current_time),
        r == signed_in_as(old(sessions)@, *headers, current_time as int),
{
    match user_id(sessions, headers, current_time) {
        Some(uid) => Ok(uid),
        None => Err(ApiError::NotLoggedIn),
    }
}

/// The user whom a request comes from, or the refusal where it comes from nobody.
pub open spec fn signed_in_as(
    all: Map<Seq<char>, Session>,
    headers: HeaderMap,
    now: int,
) -> Result<i64, ApiError> {
    match user_of(all, headers, now) {
        Some(uid) => Ok(uid),
        None => Err(ApiError::NotLoggedIn),
    }
}

/// A name that an account may have: two to twenty-four characters, none of them
/// a control character.
pub open spec fn fit_name(name: Seq<char>) -> bool {
    &&& 2 <= name.len() <= 24
    &&& forall|i: int| 0 <= i < name.len() ==> !is_control_char(#[trigger] name[i])
}

/// A password of six to a hundred and twenty-eight characters.
pub open spec fn fit_password(password: Seq<char>) -> bool {
    6 <= password.len() <= 128
}

fn password_fits(password: &str) -> (r: bool)
    ensures
        r == fit_password(password@),
{
    let length: usize = password.unicode_len();
    6 <= length && length <= 128
}

/// Someone who asks for an account.
pub ghost struct Applicant {
    pub username: Seq<char>,
    pub password: Seq<char>,
    pub invite_code: Seq<char>,
}

/// A registration whose texts are in order. Whether it is let in depends on the
/// settings.
pub struct Registration {
    username: String,
    password: String,
    invite_code: String,
}

/// A registration that is let in. Its password is to be hashed.
pub struct Admission {
    username: String,
    password: String,
}

/// An account that is to be stored.
pub struct NewAccount {
    pub username: String,
    pub password_hash: String,
}

impl View for Registration {
    type V = Applicant;

    closed spec fn view(&self) -> Applicant {
        Applicant {
            username: self.username@,
            password: self.password@,
            invite_code: self.invite_code@,
        }
    }
}

impl Registration {
    /// The password is one that an account may have.
    #[verifier::type_invariant]
    spec fn inv(self) -> bool {
        fit_password(self.password@)
    }
}

impl Admission {
    /// The password is one that an account may have.
    #[verifier::type_invariant]
    spec fn inv(self) -> bool {
        fit_password(self.password@)
    }
}

impl View for Admission {
    type V = (Seq<char>, Seq<char>);

    closed spec fn view(&self) -> (Seq<char>, Seq<char>) {
        (self.username@, self.password@)
    }
}

impl View for NewAccount {
    type V = (Seq<char>, Seq<char>);

    open spec fn view(&self) -> (Seq<char>, Seq<char>) {
        (self.username@, self.password_hash@)
    }
}

/// Who asks for an account with these credentials, or why there will be none.
/// The rate comes first, then the name, the password and its repetition.
pub open spec fn application(granted: bool, input: Credentials) -> Result<Applicant, ApiError> {
    let username = trimmed(input.username@);
    if !granted {
        Err(ApiError::RegistrationsTooFrequent)
    } else if !fit_name(username) {
        Err(ApiError::BadUsername)
    } else if username == SYSTEM_USERNAME@ {
        Err(ApiError::UsernameUnavailable)
    } else if !fit_password(input.password@) {
        Err(ApiError::BadPassword)
    } else if input.password@ != optional_text(input.password_confirm) {
        Err(ApiError::PasswordsDiffer)
    } else {
        Ok(
            Applicant {
                username,
                password: input.password@,
                invite_code: trimmed(optional_text(input.invite_code)),
            },
        )
    }
}

/// Who is let in under the settings, with the name and the password. `None`
/// stands for settings that could not be read.
pub open spec fn admission(applicant: Applicant, settings: Option<SettingsView>) -> Result<
    (Seq<char>, Seq<char>),
    ApiError,
> {
    match settings {
        None => Err(ApiError::Database),
        Some(settings) => if settings.registration_mode == "open"@ {
            Ok((applicant.username, applicant.password))
        } else if settings.registration_mode == "invite"@ {
            if settings.invite_code.len() > 0 && applicant.invite_code == settings.invite_code {
                Ok((applicant.username, applicant.password))
            } else {
                Err(ApiError::BadInvite)
            }
        } else {
            Err(ApiError::Internal)
        },
    }
}

/// What was read of the settings.
pub open spec fn settings_read(settings: Result<Settings, StorageError>) -> Option<SettingsView> {
    match settings {
        Ok(settings) => Some(settings@),
        Err(_) => None,
    }
}

/// Takes up a registration from the source.
pub fn register(
    attempts: &mut Attempts,
    source: &str,
    input: Credentials,
    current_time: i64,
) -> (r: Result<Registration, ApiError>)
    requires
        i64::MIN + REGISTRATION_WINDOW_SECS <= current_time,
    ensures
        final(attempts)@ == after_attempt(
            old(attempts)@,
            source@,
            current_time,
            registration_limits(),
        ),
        old(attempts)@.dom().finite(),
        final(attempts)@.dom().finite(),
        viewed(r) == application(
            grants(old(attempts)@, source@, current_time as int, registration_limits()),
            input,
        ),
{
    if !registration_allowed(attempts, source, current_time) {
        return Err(ApiError::RegistrationsTooFrequent);
    }
    let username: String = input.username.as_str().trim().to_owned();
    let length: usize = username.as_str().unicode_len();
    if length < 2 || length > 24 || !valid_username(username.as_str()) {
        return Err(ApiError::BadUsername);
    }
    if same_text(username.as_str(), SYSTEM_USERNAME) {
        return Err(ApiError::UsernameUnavailable);
    }
    if !password_fits(input.password.as_str()) {
        return Err(ApiError::BadPassword);
    }
    if !same_text(input.password.as_str(), text_or_empty(&input.password_confirm)) {
        return Err(ApiError::PasswordsDiffer);
    }
    let invite_code: String = text_or_empty(&input.invite_code).trim().to_owned();
    Ok(Registration { username, password: input.password, invite_code })
}

impl Registration {
    /// Goes on with the settings, as they were read.
    pub fn let_in(self, settings: Result<Settings, StorageError>) -> (r: Result<Admission, ApiError>)
        ensures
            viewed(r) == admission(self@, settings_read(settings)),
    {
        proof {
            use_type_invariant(&self);
        }
        match settings {
            Err(_) => Err(ApiError::Database),
            Ok(settings) => {
                let mode: &str = settings.registration_mode.as_str();
                if same_text(mode, "open") {
                    Ok(Admission { username: self.username, password: self.password })
                } else if same_text(mode, "invite") {
                    let configured: &str = settings.invite_code.as_str();
                    if !configured.is_empty() && constant_time_eq(
                        self.invite_code.as_str(),
                        configured,
                    ) {
                        Ok(Admission { username: self.username, password: self.password })
                    } else {
                        Err(ApiError::BadInvite)
                    }
                } else {
                    Err(ApiError::Internal)
                }
            },
        }
    }
}

impl Admission {
    /// Goes on with the hash of the password, where there is one.
    pub fn hashed(self, hash: Result<String, ()>) -> (r: Result<NewAccount, ApiError>)
        ensures
            viewed(r) == match hash {
                Ok(hash) => Ok::<(Seq<char>, Seq<char>), ApiError>((self@.0, hash@)),
                Err(_) => Err(ApiError::Busy),
            },
    {
        match hash {
            Ok(password_hash) => Ok(NewAccount { username: self.username, password_hash }),
            Err(_) => Err(ApiError::Busy),
        }
    }

    /// Hashes the password, where the server has room for the work.
    pub fn hash(self, permitted: bool) -> (r: Result<NewAccount, ApiError>)
        ensures
            match r {
                Ok(account) => permitted && account@.0 == self@.0 && accepts(self@.1, account@.1)
                    && hash_of(self@.1, account@.1),
                Err(error) => error == ApiError::Busy && !permitted,
            },
    {
        proof {
            use_type_invariant(&self);
            law_usual_passwords_are_hashed(self.password@);
        }
        let hash: Result<String, ()> = if permitted {
            hash_password(self.password.as_str())
        } else {
            Err(())
        };
        self.hashed(hash)
    }
}

/// The answer to a registration once its account was to be stored.
pub fn registered(stored: Result<(), StorageError>) -> (r: Result<(), ApiError>)
    ensures
        r == match stored {
            Ok(_) => Ok::<(), ApiError>(()),
            Err(StorageError::Constraint) => Err(ApiError::UsernameTaken),
            Err(StorageError::Other) => Err(ApiError::Database),
        },
{
    match stored {
        Ok(_) => Ok(()),
        Err(StorageError::Constraint) => Err(ApiError::UsernameTaken),
        Err(StorageError::Other) => Err(ApiError::Database),
    }
}

/// A login that may be tried.
pub struct LoginAttempt {
    username: String,
    password: String,
}

/// A password that is to be held against a hash.
#[derive(Clone)]
pub struct PasswordCheck {
    password: String,
    hash: String,
    account: Option<Account>,
}

/// What a password check holds. Where there is no account, no password is right.
pub ghost struct CheckView {
    pub password: Seq<char>,
    pub hash: Seq<char>,
    pub account: Option<AccountView>,
}

impl View for LoginAttempt {
    type V = (Seq<char>, Seq<char>);

    closed spec fn view(&self) -> (Seq<char>, Seq<char>) {
        (self.username@, self.password@)
    }
}

impl View for PasswordCheck {
    type V = CheckView;

    closed spec fn view(&self) -> CheckView {
        CheckView {
            password: self.password@,
            hash: self.hash@,
            account: match self.account {
                Some(account) => Some(account@),
                None => None,
            },
        }
    }
}

/// The account of a row.
pub open spec fn row_account(row: UserRow) -> AccountView {
    AccountView { id: row.id, username: row.username@, is_admin: row.is_admin == 1 }
}

/// What is checked for a login: the password against the hash of the row, or
/// against a hash that stands for none, so that both take their time.
pub open spec fn check_of(
    password: Seq<char>,
    row: Result<Option<UserRow>, StorageError>,
    dummy_hash: Seq<char>,
) -> Result<CheckView, ApiError> {
    match row {
        Ok(Some(row)) => Ok(
            CheckView { password, hash: row.password_hash@, account: Some(row_account(row)) },
        ),
        Ok(None) => Ok(CheckView { password, hash: dummy_hash, account: None }),
        Err(_) => Err(ApiError::Database),
    }
}

/// Who is logged in by a check, where `valid` says whether the password was
/// accepted, and `None` that the server had no room for the work.
pub open spec fn login_result(check: CheckView, valid: Option<bool>) -> Result<
    AccountView,
    ApiError,
> {
    match check.account {
        None => Err(ApiError::WrongCredentials),
        Some(account) => match valid {
            None => Err(ApiError::Busy),
            Some(true) => Ok(account),
            Some(false) => Err(ApiError::WrongCredentials),
        },
    }
}

/// Takes up a login from the source.
pub fn login(
    by_user: &mut Attempts,
    by_source: &mut Attempts,
    source: &str,
    input: Credentials,
    current_time: i64,
) -> (r: Result<LoginAttempt, ApiError>)
    requires
        i64::MIN + LOGIN_WINDOW_SECS <= current_time,
    ensures
        ({
            let name = at_most(trimmed(input.username@), 24);
            let now = current_time as int;
            let user_granted = grants(old(by_user)@, name, now, user_limits());
            let granted = user_granted && grants(old(by_source)@, source@, now, source_limits());
            &&& viewed(r) == if granted {
                Ok::<(Seq<char>, Seq<char>), ApiError>((name, input.password@))
            } else {
                Err(ApiError::LoginsTooFrequent)
            }
            &&& final(by_user)@ == after_attempt(old(by_user)@, name, current_time, user_limits())
            &&& final(by_source)@ == if user_granted {
                after_attempt(old(by_source)@, source@, current_time, source_limits())
            } else {
                old(by_source)@
            }
        }),
        old(by_user)@.dom().finite(),
        final(by_user)@.dom().finite(),
        old(by_source)@.dom().finite(),
        final(by_source)@.dom().finite(),
{
    let username: String = clean(input.username.as_str(), 24);
    if !login_allowed(by_user, by_source, username.as_str(), source, current_time) {
        return Err(ApiError::LoginsTooFrequent);
    }
    Ok(LoginAttempt { username, password: input.password })
}

impl LoginAttempt {
    /// The name under which the account is looked up.
    pub fn username(&self) -> (r: &str)
        ensures
            r@ == self@.0,
    {
        self.username.as_str()
    }

    /// Goes on with the row of the name, where there is one.
    pub fn found(self, row: Result<Option<UserRow>, StorageError>, dummy_hash: &str) -> (r: Result<
        PasswordCheck,
        ApiError,
    >)
        ensures
            viewed(r) == check_of(self@.1, row, dummy_hash@),
    {
        match row {
            Ok(Some(row)) => Ok(
                PasswordCheck {
                    password: self.password,
                    hash: row.password_hash,
                    account: Some(
                        Account {
                            id: row.id,
                            username: row.username,
                            is_admin: row.is_admin == 1,
                        },
                    ),
                },
            ),
            Ok(None) => Ok(
                PasswordCheck {
                    password: self.password,
                    hash: dummy_hash.to_owned(),
                    account: None,
                },
            ),
            Err(_) => Err(ApiError::Database),
        }
    }
}

impl PasswordCheck {
    /// Goes on with the outcome of the check.
    pub fn checked(self, valid: Option<bool>) -> (r: Result<Account, ApiError>)
        ensures
            viewed(r) == login_result(self@, valid),
    {
        match self.account {
            None => Err(ApiError::WrongCredentials),
            Some(account) => match valid {
                None => Err(ApiError::Busy),
                Some(true) => Ok(account),
                Some(false) => Err(ApiError::WrongCredentials),
            },
        }
    }

    /// Checks the password, where the server has room for the work.
    pub fn verify(self, permitted: bool) -> (r: Result<Account, ApiError>)
        ensures
            viewed(r) == login_result(
                self@,
                if permitted {
                    Some(accepts(self@.password, self@.hash))
                } else {
                    None
                },
            ),
    {
        let valid: Option<bool> = if permitted {
            Some(verify_password(self.password.as_str(), self.hash.as_str()))
        } else {
            None
        };
        self.checked(valid)
    }
}

/// A token that a login hands out: forty-eight letters and digits.
pub open spec fn login_token(token: Seq<char>) -> bool {
    &&& token.len() == 48
    &&& forall|i: int| 0 <= i < token.len() ==> is_alphanumeric(#[trigger] token[i])
}

/// Opens a session with the token, and gives the text of its cookie.
pub fn start_session(
    sessions: &mut Sessions,
    token: String,
    user_id: i64,
    current_time: i64,
    secure: bool,
) -> (r: String)
    requires
        current_time + SESSION_TTL_SECS <= i64::MAX,
    ensures
        session_opened(old(sessions)@, final(sessions)@, token@, user_id, current_time),
        r@ == cookie_text(token@, SESSION_TTL_SECS as int, secure),
{
    let cookie: String = session_cookie(token.as_str(), secure);
    insert_session(sessions, token, user_id, current_time);
    cookie
}

/// `after` is `before` with a new session of the user under the token.
pub open spec fn session_opened(
    before: Map<Seq<char>, Session>,
    after: Map<Seq<char>, Session>,
    token: Seq<char>,
    user_id: i64,
    now: i64,
) -> bool {
    &&& before.dom().finite()
    &&& session_entered(
        before,
        after,
        token,
        Session { user_id, expires_at: (now + SESSION_TTL_SECS) as i64 },
        now as int,
    )
}

/// Opens a session for a user who has logged in, under a token that nobody can
/// guess, and gives the text of its cookie.
pub fn open_session(sessions: &mut Sessions, user_id: i64, current_time: i64, secure: bool) -> (r:
    String)
    requires
        current_time + SESSION_TTL_SECS <= i64::MAX,
    ensures
        exists|token: Seq<char>|
            {
                &&& #[trigger] login_token(token)
                &&& session_opened(old(sessions)@, final(sessions)@, token, user_id, current_time)
                &&& r@ == cookie_text(token, SESSION_TTL_SECS as int, secure)
            },
{
    let token: String = random_alphanumeric(48);
    let ghost text = token@;
    assert(login_token(text));
    start_session(sessions, token, user_id, current_time, secure)
}

/// Forgets how often the account and the source have tried, now that a login
/// succeeded.
pub fn login_succeeded(
    by_user: &mut Attempts,
    by_source: &mut Attempts,
    account: &Account,
    source: &str,
)
    ensures
        final(by_user)@ == old(by_user)@.remove(account.username@),
        final(by_source)@ == old(by_source)@.remove(source@),
        old(by_user)@.dom().finite(),
        final(by_user)@.dom().finite(),
        old(by_source)@.dom().finite(),
        final(by_source)@.dom().finite(),
{
    clear_login_attempts(by_user, by_source, account.username.as_str(), source)
}

/// Ends the session of a request, and gives the text that takes its cookie back.
pub fn logout(sessions: &mut Sessions, headers: &HeaderMap, secure: bool) -> (r: String)
    ensures
        final(sessions)@ == after_logout(old(sessions)@, *headers),
        r@ == cookie_text(Seq::empty(), 0, secure),
{
    end_session(sessions, headers);
    clear_session_cookie(secure)
}

/// The account of a user who is logged in, from the name and the mark in the
/// user's row.
pub fn current_user(uid: i64, row: Result<Option<(String, i64)>, StorageError>) -> (r: Result<
    Account,
    ApiError,
>)
    ensures
        viewed(r) == match row {
            Ok(Some((username, mark))) => Ok::<AccountView, ApiError>(
                AccountView { id: uid, username: username@, is_admin: mark == 1 },
            ),
            Ok(None) => Err(ApiError::NotLoggedIn),
            Err(_) => Err(ApiError::Database),
        },
{
    match row {
        Ok(Some((username, mark))) => Ok(Account { id: uid, username, is_admin: mark == 1 }),
        Ok(None) => Err(ApiError::NotLoggedIn),
        Err(_) => Err(ApiError::Database),
    }
}

/// The user, where the mark in the user's row makes an administrator.
pub fn admin_user_id(uid: i64, mark: Result<Option<i64>, StorageError>) -> (r: Result<
    i64,
    ApiError,
>)
    ensures
        r == match mark {
            Ok(Some(mark)) => if mark == 1 {
                Ok::<i64, ApiError>(uid)
            } else {
                Err(ApiError::NotAdmin)
            },
            Ok(None) => Err(ApiError::NotLoggedIn),
            Err(_) => Err(ApiError::Database),
        },
{
    match mark {
        Ok(Some(mark)) => if mark == 1 {
            Ok(uid)
        } else {
            Err(ApiError::NotAdmin)
        },
        Ok(None) => Err(ApiError::NotLoggedIn),
        Err(_) => Err(ApiError::Database),
    }
}

/// The settings, as they were read for an administrator.
pub fn admin_settings(settings: Result<Settings, StorageError>) -> (r: Result<Settings, ApiError>)
    ensures
        viewed(r) == match settings {
            Ok(settings) => Ok::<SettingsView, ApiError>(settings@),
            Err(_) => Err(ApiError::Database),
        },
{
    match settings {
        Ok(settings) => Ok(settings),
        Err(_) => Err(ApiError::Database),
    }
}

/// What an administrator sends to change the settings.
pub struct AdminSettingsRequest {
    pub registration_mode: String,
    pub invite_code: Option<String>,
}

/// The settings that an administrator asks for, or what is wrong with them.
pub open spec fn settings_asked(input: AdminSettingsRequest) -> Result<SettingsView, ApiError> {
    let mode = input.registration_mode@;
    let invite_code = at_most(trimmed(optional_text(input.invite_code)), 128);
    if mode != "open"@ && mode != "invite"@ {
        Err(ApiError::BadRegistrationMode)
    } else if mode == "invite"@ && invite_code.len() == 0 {
        Err(ApiError::InviteMissing)
    } else {
        Ok(SettingsView { registration_mode: mode, invite_code })
    }
}

/// The settings that are to be stored for an administrator.
pub fn update_admin_settings(input: AdminSettingsRequest) -> (r: Result<Settings, ApiError>)
    ensures
        viewed(r) == settings_asked(input),
{
    let open: bool = same_text(input.registration_mode.as_str(), "open");
    let invite: bool = same_text(input.registration_mode.as_str(), "invite");
    if !open && !invite {
        return Err(ApiError::BadRegistrationMode);
    }
    let invite_code: String = clean(text_or_empty(&input.invite_code), 128);
    if invite && invite_code.as_str().is_empty() {
        return Err(ApiError::InviteMissing);
    }
    Ok(Settings { registration_mode: input.registration_mode, invite_code })
}

/// What a client sends to change the password.
pub struct PasswordRequest {
    pub current_password: String,
    pub new_password: String,
    pub confirm_password: String,
}

/// A change of password whose texts are in order.
pub struct PasswordChange {
    uid: i64,
    current_password: String,
    new_password: String,
}

/// A change of password, with the texts as their characters.
pub ghost struct ChangeView {
    pub uid: i64,
    pub current_password: Seq<char>,
    pub new_password: Seq<char>,
}

impl PasswordChange {
    /// The new password is one that an account may have.
    #[verifier::type_invariant]
    spec fn inv(self) -> bool {
        fit_password(self.new_password@)
    }
}

impl View for PasswordChange {
    type V = ChangeView;

    closed spec fn view(&self) -> ChangeView {
        ChangeView {
            uid: self.uid,
            current_password: self.current_password@,
            new_password: self.new_password@,
        }
    }
}

/// The change of password that a user asks for, or what is wrong with it.
pub open spec fn change_asked(user: Result<i64, ApiError>, input: PasswordRequest) -> Result<
    ChangeView,
    ApiError,
> {
    match user {
        Err(error) => Err(error),
        Ok(uid) => if !fit_password(input.new_password@) {
            Err(ApiError::BadNewPassword)
        } else if input.new_password@ != input.confirm_password@ {
            Err(ApiError::NewPasswordsDiffer)
        } else {
            Ok(
                ChangeView {
                    uid,
                    current_password: input.current_password@,
                    new_password: input.new_password@,
                },
            )
        },
    }
}

/// Takes up a change of password.
pub fn change_password(
    sessions: &mut Sessions,
    headers: &HeaderMap,
    input: PasswordRequest,
    current_time: i64,
) -> (r: Result<PasswordChange, ApiError>)
    requires
        current_time + SESSION_TTL_SECS <= i64::MAX,
    ensures
        final(sessions)@ == after_request(old(sessions)@, *headers, current_time),
        viewed(r) == change_asked(
            signed_in_as(old(sessions)@, *headers, current_time as int),
            input,
        ),
{
    let uid: i64 = signed_in(sessions, headers, current_time)?;
    if !password_fits(input.new_password.as_str()) {
        return Err(ApiError::BadNewPassword);
    }
    if !same_text(input.new_password.as_str(), input.confirm_password.as_str()) {
        return Err(ApiError::NewPasswordsDiffer);
    }
    Ok(
        PasswordChange {
            uid,
            current_password: input.current_password,
            new_password: input.new_password,
        },
    )
}

/// Whether a change of password goes on, where `hash` is what was read of the
/// stored hash, and `valid` says whether it accepts the current password, `None`
/// that the server had no room for the work.
pub open spec fn change_refused(hash: Result<String, StorageError>, valid: Option<bool>) -> Option<
    ApiError,
> {
    match hash {
        Err(_) => Some(ApiError::Database),
        Ok(_) => match valid {
            None => Some(ApiError::Busy),
            Some(false) => Some(ApiError::WrongPassword),
            Some(true) => None,
        },
    }
}

impl PasswordChange {
    /// The user whose password it is.
    pub fn uid(&self) -> (r: i64)
        ensures
            r == self@.uid,
    {
        self.uid
    }

    /// Goes on with the outcome of the check of the current password.
    pub fn checked(&self, valid: Option<bool>) -> (r: Result<(), ApiError>)
        ensures
            r == match valid {
                None => Err::<(), ApiError>(ApiError::Busy),
                Some(false) => Err(ApiError::WrongPassword),
                Some(true) => Ok(()),
            },
    {
        match valid {
            None => Err(ApiError::Busy),
            Some(false) => Err(ApiError::WrongPassword),
            Some(true) => Ok(()),
        }
    }

    /// Holds the current password against the stored hash, as it was read, where
    /// the server has room for the work.
    pub fn verify(&self, hash: Result<String, StorageError>, permitted: bool) -> (r: Result<
        (),
        ApiError,
    >)
        ensures
            r == match change_refused(
                hash,
                if permitted {
                    Some(hash is Ok && accepts(self@.current_password, hash->Ok_0@))
                } else {
                    None
                },
            ) {
                Some(error) => Err::<(), ApiError>(error),
                None => Ok(()),
            },
    {
        match hash {
            Err(_) => Err(ApiError::Database),
            Ok(hash) => {
                let valid: Option<bool> = if permitted {
                    Some(verify_password(self.current_password.as_str(), hash.as_str()))
                } else {
                    None
                };
                self.checked(valid)
            },
        }
    }

    /// Hashes the new password, where the server has room for the work.
    pub fn hash(&self, permitted: bool) -> (r: Result<String, ApiError>)
        ensures
            match r {
                Ok(hash) => permitted && accepts(self@.new_password, hash@) && hash_of(
                    self@.new_password,
                    hash@,
                ),
                Err(error) => error == ApiError::Busy && !permitted,
            },
    {
        if !permitted {
            return Err(ApiError::Busy);
        }
        proof {
            use_type_invariant(self);
            law_usual_passwords_are_hashed(self.new_password@);
        }
        hash_outcome(hash_password(self.new_password.as_str()))
    }

    /// Goes on once the new hash was to be stored: all sessions of the user end.
    pub fn stored(&self, stored: Result<(), StorageError>, sessions: &mut Sessions) -> (r: Result<
        (),
        ApiError,
    >)
        ensures
            match stored {
                Ok(_) => r is Ok && final(sessions)@ == without_user(old(sessions)@, self@.uid),
                Err(_) => r == Err::<(), ApiError>(ApiError::Database) && final(sessions)@ == old(
                    sessions,
                )@,
            },
    {
        match stored {
            Ok(_) => {
                drop_user_sessions(sessions, self.uid);
                Ok(())
            },
            Err(_) => Err(ApiError::Database),
        }
    }
}

/// A hash, or the refusal where there is none.
pub fn hash_outcome(hash: Result<String, ()>) -> (r: Result<String, ApiError>)
    ensures
        match hash {
            Ok(hash) => r == Ok::<String, ApiError>(hash),
            Err(_) => r == Err::<String, ApiError>(ApiError::Busy),
        },
{
    match hash {
        Ok(hash) => Ok(hash),
        Err(_) => Err(ApiError::Busy),
    }
}

/// The first administrator of a server that has none.
pub struct FirstAdmin {
    pub password: String,
    pub password_hash: String,
}

/// A password that the server makes up: twenty-four letters and digits.
pub open spec fn made_up_password(password: Seq<char>) -> bool {
    &&& password.len() == 24
    &&& forall|i: int| 0 <= i < password.len() ==> is_alphanumeric(#[trigger] password[i])
}

/// The administrator that a server without one gets, with a password that is
/// told once.
pub fn ensure_admin(has_admin: bool, permitted: bool) -> (r: Result<
    Option<FirstAdmin>,
    &'static str,
>)
    ensures
        match r {
            Ok(None) => has_admin,
            Ok(Some(admin)) => {
                &&& !has_admin
                &&& permitted
                &&& made_up_password(admin.password@)
                &&& accepts(admin.password@, admin.password_hash@)
                &&& hash_of(admin.password@, admin.password_hash@)
            },
            Err(message) => {
                &&& !has_admin
                &&& !permitted
                &&& message@ == "无法生成默认管理员密码哈希"@
            },
        },
{
    if has_admin {
        return Ok(None);
    }
    let password: String = random_alphanumeric(24);
    proof {
        law_usual_passwords_are_hashed(password@);
    }
    if !permitted {
        return Err("无法生成默认管理员密码哈希");
    }
    match hash_password(password.as_str()) {
        Ok(password_hash) => Ok(Some(FirstAdmin { password, password_hash })),
        Err(_) => Err("无法生成默认管理员密码哈希"),
    }
}

/// Whether the first administrator can be stored: the name must be free.
pub fn admin_name_free(taken: bool) -> (r: Result<(), &'static str>)
    ensures
        match r {
            Ok(_) => !taken,
            Err(message) => taken && message@ == "默认管理员用户名已被占用，请先处理该账号"@,
        },
{
    if taken {
        Err("默认管理员用户名已被占用，请先处理该账号")
    } else {
        Ok(())
    }
}

/// A backup that was accepted never keeps the server from starting for want of
/// an administrator: it holds one, or the name of the first one is free.
pub proof fn law_accepted_backup_has_admin(facts: BackupFacts)
    requires
        compatible(facts),
    ensures
        ({
            let users = facts.columns.contains_key("users"@);
            let has_admin = users && facts.columns["users"@].contains("is_admin"@)
                && facts.has_admin;
            let taken = users && facts.default_name_taken;
            has_admin || !taken
        }),
{
}

/// Whoever has registered logs in with the same credentials: the name that is
/// looked up is the name that was stored, and the stored hash accepts the
/// password.
pub proof fn law_registered_account_logs_in(input: Credentials, row: UserRow, dummy: Seq<char>)
    requires
        application(true, input) is Ok,
        accepts(input.password@, row.password_hash@),
    ensures
        at_most(trimmed(input.username@), 24) == application(true, input)->Ok_0.username,
        match check_of(input.password@, Ok(Some(row)), dummy) {
            Ok(check) => login_result(check, Some(accepts(check.password, check.hash))) == Ok::<
                AccountView,
                ApiError,
            >(row_account(row)),
            Err(_) => false,
        },
{
}

/// A name that nobody has is refused just as a wrong password is, and a password
/// is checked for it too.
pub proof fn law_unknown_name_looks_like_wrong_password(
    password: Seq<char>,
    row: UserRow,
    dummy: Seq<char>,
    valid: Option<bool>,
)
    requires
        !accepts(password, row.password_hash@),
    ensures
        match (check_of(password, Ok(None), dummy), check_of(password, Ok(Some(row)), dummy)) {
            (Ok(unknown), Ok(known)) => {
                &&& unknown.password == password
                &&& unknown.hash == dummy
                &&& login_result(unknown, valid) == login_result(
                    known,
                    Some(accepts(known.password, known.hash)),
                )
                &&& login_result(unknown, valid) == Err::<AccountView, ApiError>(
                    ApiError::WrongCredentials,
                )
            },
            _ => false,
        },
{
}

/// A login is remembered: the cookie that a browser returns of the one that was
/// handed out carries the token, and the token admits the user until a full term
/// has passed without use.
pub proof fn law_login_is_remembered(
    before: Map<Seq<char>, Session>,
    after: Map<Seq<char>, Session>,
    token: Seq<char>,
    user_id: i64,
    now: i64,
    secure: bool,
    later: int,
)
    requires
        now + SESSION_TTL_SECS <= i64::MAX,
        login_token(token),
        session_opened(before, after, token, user_id, now),
    ensures
        cookie_token(cookie_pair(cookie_text(token, SESSION_TTL_SECS as int, secure))) == Some(
            token,
        ),
        later < now + SESSION_TTL_SECS ==> admits(after, token, later) == Some(user_id),
{
    law_cookie_round_trip(token, SESSION_TTL_SECS as int, secure);
    law_new_session_admits(
        before,
        after,
        token,
        Session { user_id, expires_at: (now + SESSION_TTL_SECS) as i64 },
        now as int,
        later,
    );
}

/// After logging out the same request comes from nobody, and every other token
/// admits whom it did.
pub proof fn law_logout_ends_the_session(
    all: Map<Seq<char>, Session>,
    headers: HeaderMap,
    other: Seq<char>,
    later: int,
)
    ensures
        user_of(after_logout(all, headers), headers, later) is None,
        token_in(headers) != Some(other) ==> admits(after_logout(all, headers), other, later)
            == admits(all, other, later),
{
}

/// Once the password was changed no session of the user is left, the one that
/// asked for it included, and the sessions of others go on.
pub proof fn law_password_change_logs_out(
    all: Map<Seq<char>, Session>,
    headers: HeaderMap,
    uid: i64,
    now: int,
)
    ensures
        user_of(without_user(all, uid), headers, now) == if user_of(all, headers, now) == Some(
            uid,
        ) {
            None
        } else {
            user_of(all, headers, now)
        },
{
}

/// The settings that an administrator can store are settings that registration
/// can work with: with `open` everyone is let in, with `invite` those who give
/// the code. A code that is longer than what is kept of it is left out: what is
/// kept may end in white space, which nobody can give.
pub proof fn law_stored_settings_work(input: AdminSettingsRequest, applicant: Applicant)
    requires
        settings_asked(input) is Ok,
        trimmed(optional_text(input.invite_code)).len() <= 128,
    ensures
        ({
            let settings = settings_asked(input)->Ok_0;
            let let_in = admission(applicant, Some(settings));
            &&& settings.registration_mode == "open"@ ==> let_in is Ok
            &&& settings.registration_mode == "invite"@ ==> (let_in is Ok <==> applicant.invite_code
                == trimmed(optional_text(input.invite_code)))
            &&& let_in is Err ==> let_in->Err_0 == ApiError::BadInvite
            &&& trimmed(settings.invite_code) == settings.invite_code
        }),
{
    reveal_strlit("open");
    reveal_strlit("invite");
    assert("open"@.len() != "invite"@.len());
    lemma_trimmed_again(optional_text(input.invite_code));
}

/// What is taken over of a registration is what was sent: the password character for
/// character, the name and the code without white space at their ends.
pub proof fn law_a_registration_is_what_was_sent(granted: bool, input: Credentials)
    ensures
        application(granted, input) matches Ok(applicant) ==> {
            &&& applicant.password == input.password@
            &&& applicant.username == trimmed(input.username@)
            &&& input.invite_code matches Some(code) ==> applicant.invite_code == trimmed(code@)
            &&& input.invite_code is None ==> applicant.invite_code.len() == 0
        },
{
}

/// A registration is accepted exactly where the source may still register, the name
/// has two to twenty-four characters without a control character and is not the
/// server's own, and the password has six to a hundred and twenty-eight characters
/// and was repeated as it is.
pub proof fn law_registrations_that_are_accepted(granted: bool, input: Credentials)
    ensures
        application(granted, input) is Ok <==> {
            &&& granted
            &&& 2 <= trimmed(input.username@).len() <= 24
            &&& forall|i: int|
                0 <= i < trimmed(input.username@).len() ==> !is_control_char(
                    #[trigger] trimmed(input.username@)[i],
                )
            &&& trimmed(input.username@) != "__y2m_system__"@
            &&& 6 <= input.password@.len() <= 128
            &&& input.password_confirm is Some
            &&& input.password_confirm->0@ == input.password@
        },
{
}

/// What a registration is refused for, first things first.
pub proof fn law_registrations_that_are_refused(granted: bool, input: Credentials)
    ensures
        application(granted, input) == Err::<Applicant, ApiError>(
            ApiError::RegistrationsTooFrequent,
        ) <==> !granted,
        application(granted, input) == Err::<Applicant, ApiError>(ApiError::BadUsername)
            <==> granted && (trimmed(input.username@).len() < 2 || trimmed(input.username@).len() > 24
            || exists|i: int|
            0 <= i < trimmed(input.username@).len() && is_control_char(
                #[trigger] trimmed(input.username@)[i],
            )),
        application(granted, input) == Err::<Applicant, ApiError>(ApiError::UsernameUnavailable)
            <==> granted && trimmed(input.username@) == "__y2m_system__"@,
        application(granted, input) == Err::<Applicant, ApiError>(ApiError::BadPassword) ==> !(6
            <= input.password@.len() <= 128),
        application(granted, input) == Err::<Applicant, ApiError>(ApiError::PasswordsDiffer) ==> 6
            <= input.password@.len() <= 128 && (input.password_confirm is None
            || input.password_confirm->0@ != input.password@),
        application(granted, input) matches Err(error) ==> error
            == ApiError::RegistrationsTooFrequent || error == ApiError::BadUsername || error
            == ApiError::UsernameUnavailable || error == ApiError::BadPassword || error
            == ApiError::PasswordsDiffer,
{
    reveal_strlit("__y2m_system__");
    let name = trimmed(input.username@);
    if name == "__y2m_system__"@ {
        assert forall|i: int| 0 <= i < name.len() implies !is_control_char(
            #[trigger] name[i],
        ) by {}
    }
}

/// Who is let in keeps name and password. With `open` that is everyone, with
/// `invite` whoever gives the code, where there is one; settings that say neither
/// are a failure of the server, and settings that cannot be read one of the database.
pub proof fn law_who_is_let_in(applicant: Applicant, settings: Result<Settings, StorageError>)
    ensures
        ({
            let let_in = admission(applicant, settings_read(settings));
            &&& let_in is Ok ==> let_in->Ok_0.0 == applicant.username && let_in->Ok_0.1
                == applicant.password
            &&& settings is Err ==> let_in is Err && let_in->Err_0 == ApiError::Database
            &&& settings matches Ok(stored) ==> {
                let mode = stored.registration_mode@;
                let code = stored.invite_code@;
                &&& let_in is Ok <==> mode == "open"@ || (mode == "invite"@ && code.len() > 0
                    && applicant.invite_code == code)
                &&& let_in is Err ==> let_in->Err_0 == if mode == "invite"@ {
                    ApiError::BadInvite
                } else {
                    ApiError::Internal
                }
            }
        }),
{
    reveal_strlit("open");
    reveal_strlit("invite");
    assert("open"@.len() != "invite"@.len());
}

/// From registering to logging in: the password that is hashed for an account is the
/// one that was sent with the registration, so a row that holds the hash lets in
/// whoever sends the same credentials again, under the name that was stored.
pub proof fn law_from_registering_to_logging_in(
    input: Credentials,
    settings: Result<Settings, StorageError>,
    again: Credentials,
    row: UserRow,
    dummy: Seq<char>,
)
    requires
        application(true, input) is Ok,
        admission(application(true, input)->Ok_0, settings_read(settings)) is Ok,
        row.username@ == admission(
            application(true, input)->Ok_0,
            settings_read(settings),
        )->Ok_0.0,
        accepts(
            admission(application(true, input)->Ok_0, settings_read(settings))->Ok_0.1,
            row.password_hash@,
        ),
        again.username@ == input.username@,
        again.password@ == input.password@,
    ensures
        accepts(input.password@, row.password_hash@),
        at_most(trimmed(again.username@), 24) == row.username@,
        match check_of(again.password@, Ok(Some(row)), dummy) {
            Ok(check) => match login_result(check, Some(accepts(check.password, check.hash))) {
                Ok(account) => account.id == row.id && account.username == trimmed(input.username@)
                    && account.is_admin == (row.is_admin == 1),
                Err(_) => false,
            },
            Err(_) => false,
        },
{
    law_a_registration_is_what_was_sent(true, input);
    law_who_is_let_in(application(true, input)->Ok_0, settings);
    law_registered_account_logs_in(input, row, dummy);
}

/// What is checked for a login is the password that was sent, against the hash of
/// the name's row, and who is logged in is who the row says. A right password of a
/// known name is all that logs in.
pub proof fn law_logins_are_decided_by_the_row(
    password: Seq<char>,
    row: Result<Option<UserRow>, StorageError>,
    dummy: Seq<char>,
    valid: Option<bool>,
)
    ensures
        row is Err ==> check_of(password, row, dummy) == Err::<CheckView, ApiError>(
            ApiError::Database,
        ),
        row is Ok ==> check_of(password, row, dummy) is Ok,
        check_of(password, row, dummy) matches Ok(check) ==> {
            let result = login_result(check, valid);
            &&& check.password == password
            &&& row matches Ok(Some(known)) ==> check.hash == known.password_hash@
            &&& row matches Ok(None) ==> check.hash == dummy
            &&& row matches Ok(None) ==> result is Err && result->Err_0 == ApiError::WrongCredentials
            &&& row matches Ok(Some(known)) ==> {
                &&& valid == Some(true) ==> {
                    &&& result is Ok
                    &&& result->Ok_0.id == known.id
                    &&& result->Ok_0.username == known.username@
                    &&& result->Ok_0.is_admin <==> known.is_admin == 1
                }
                &&& valid == Some(false) ==> result is Err && result->Err_0
                    == ApiError::WrongCredentials
                &&& valid is None ==> result is Err && result->Err_0 == ApiError::Busy
            }
        },
{
}

/// A request comes from the user whose session its token belongs to, as long as the
/// session has not expired, and from nobody else.
pub proof fn law_requests_come_from_their_user(
    all: Map<Seq<char>, Session>,
    headers: HeaderMap,
    now: int,
    uid: i64,
)
    ensures
        signed_in_as(all, headers, now) == Ok::<i64, ApiError>(uid) <==> match token_in(headers) {
            Some(token) => all.contains_key(token) && all[token].expires_at > now
                && all[token].user_id == uid,
            None => false,
        },
        signed_in_as(all, headers, now) matches Err(error) ==> error == ApiError::NotLoggedIn,
{
}

/// Tokens have forty-eight characters and made-up passwords twenty-four, all of them
/// ASCII letters and digits.
pub proof fn law_made_up_texts(text: Seq<char>)
    ensures
        login_token(text) <==> text.len() == 48 && forall|i: int|
            0 <= i < 48 ==> is_alphanumeric(#[trigger] text[i]),
        made_up_password(text) <==> text.len() == 24 && forall|i: int|
            0 <= i < 24 ==> is_alphanumeric(#[trigger] text[i]),
{
}

/// What is stored of the settings that an administrator sends is the mode as it is,
/// and of the code without white space at its ends at most a hundred and twenty-eight
/// characters. There are two modes, and one of them needs a code.
pub proof fn law_settings_are_what_was_sent(input: AdminSettingsRequest)
    ensures
        ({
            let mode = input.registration_mode@;
            let code = trimmed(optional_text(input.invite_code));
            let asked = settings_asked(input);
            &&& asked is Ok <==> mode == "open"@ || (mode == "invite"@ && code.len() > 0)
            &&& asked is Ok ==> asked->Ok_0.registration_mode == mode
            &&& asked is Ok && code.len() <= 128 ==> asked->Ok_0.invite_code == code
            &&& asked is Ok && code.len() > 128 ==> asked->Ok_0.invite_code == code.take(128)
            &&& asked is Err ==> asked->Err_0 == if mode == "invite"@ {
                ApiError::InviteMissing
            } else {
                ApiError::BadRegistrationMode
            }
        }),
{
    reveal_strlit("open");
    reveal_strlit("invite");
    assert("open"@.len() != "invite"@.len());
}

/// A change of password is the one that was sent, for who sent it: the current
/// password is checked and the new one stored character for character. It is taken
/// up exactly where the new one has six to a hundred and twenty-eight characters and
/// was repeated as it is.
pub proof fn law_a_password_change_is_what_was_sent(
    user: Result<i64, ApiError>,
    input: PasswordRequest,
)
    ensures
        change_asked(user, input) matches Ok(change) ==> {
            &&& user == Ok::<i64, ApiError>(change.uid)
            &&& change.current_password == input.current_password@
            &&& change.new_password == input.new_password@
        },
        change_asked(user, input) is Ok <==> user is Ok && 6 <= input.new_password@.len() <= 128
            && input.confirm_password@ == input.new_password@,
        user matches Err(error) ==> change_asked(user, input) == Err::<ChangeView, ApiError>(error),
        user is Ok && !(6 <= input.new_password@.len() <= 128) ==> change_asked(user, input) == Err::<
            ChangeView,
            ApiError,
        >(ApiError::BadNewPassword),
        user is Ok && 6 <= input.new_password@.len() <= 128 && input.confirm_password@
            != input.new_password@ ==> change_asked(user, input) == Err::<ChangeView, ApiError>(
            ApiError::NewPasswordsDiffer,
        ),
{
}

/// A change of password goes on only where the stored hash could be read and the
/// current password was held against it and accepted.
pub proof fn law_the_current_password_decides(
    hash: Result<String, StorageError>,
    valid: Option<bool>,
)
    ensures
        change_refused(hash, valid) is None <==> hash is Ok && valid == Some(true),
        hash is Err ==> change_refused(hash, valid) == Some(ApiError::Database),
        hash is Ok && valid is None ==> change_refused(hash, valid) == Some(ApiError::Busy),
        hash is Ok && valid == Some(false) ==> change_refused(hash, valid) == Some(
            ApiError::WrongPassword,
        ),
{
}

/// A login opens a session of the user's own that holds for a week, under its token.
pub proof fn law_a_login_opens_a_session(
    before: Map<Seq<char>, Session>,
    after: Map<Seq<char>, Session>,
    token: Seq<char>,
    user_id: i64,
    now: i64,
)
    requires
        now + 604_800 <= i64::MAX,
        session_opened(before, after, token, user_id, now),
    ensures
        after.contains_key(token),
        after[token].user_id == user_id,
        after[token].expires_at == now + 604_800,
{
}

/// From registering to logging in, call by call. The password that `register` accepts
/// is hashed as it was sent, character for character: nothing is asked of the hash but
/// that it came out of these calls. Where the row holds what came out, the same
/// credentials log in as the account of that row.
pub proof fn law_who_registers_can_log_in(
    attempts: &mut Attempts,
    source: &str,
    input: Credentials,
    now: i64,
    registration: Registration,
    settings: Result<Settings, StorageError>,
    admitted: Admission,
    account: NewAccount,
    by_user: &mut Attempts,
    by_source: &mut Attempts,
    later_source: &str,
    again: Credentials,
    later: i64,
    attempt: LoginAttempt,
    name: &str,
    row: UserRow,
    dummy: &str,
    check: Result<PasswordCheck, ApiError>,
    entered: Result<Account, ApiError>,
)
    requires
        call_ensures(
            register,
            (attempts, source, input, now),
            Ok::<Registration, ApiError>(registration),
        ),
        call_ensures(
            Registration::let_in,
            (registration, settings),
            Ok::<Admission, ApiError>(admitted),
        ),
        call_ensures(Admission::hash, (admitted, true), Ok::<NewAccount, ApiError>(account)),
        row.username@ == account.username@,
        row.password_hash@ == account.password_hash@,
        again.username@ == input.username@,
        again.password@ == input.password@,
        call_ensures(
            login,
            (by_user, by_source, later_source, again, later),
            Ok::<LoginAttempt, ApiError>(attempt),
        ),
        call_ensures(LoginAttempt::username, (&attempt,), name),
        call_ensures(
            LoginAttempt::found,
            (attempt, Ok::<Option<UserRow>, StorageError>(Some(row)), dummy),
            check,
        ),
        check is Ok ==> call_ensures(PasswordCheck::verify, (check->Ok_0, true), entered),
    ensures
        account.username@ == trimmed(input.username@),
        accepts(input.password@, account.password_hash@),
        hash_of(input.password@, account.password_hash@),
        name@ == row.username@,
        check is Ok,
        entered is Ok,
        entered->Ok_0.id == row.id,
        entered->Ok_0.username@ == trimmed(input.username@),
        entered->Ok_0.is_admin <==> row.is_admin == 1,
{
    let granted = grants(old(attempts)@, source@, now as int, registration_limits());
    assert(application(granted, input) == Ok::<Applicant, ApiError>(registration@));
    assert(admission(registration@, settings_read(settings)) == Ok::<
        (Seq<char>, Seq<char>),
        ApiError,
    >(admitted@));
    law_a_registration_is_what_was_sent(granted, input);
    law_registrations_that_are_accepted(granted, input);
    law_who_is_let_in(registration@, settings);
    law_logins_are_decided_by_the_row(
        again.password@,
        Ok(Some(row)),
        dummy@,
        Some(accepts(again.password@, row.password_hash@)),
    );
}

/// Two registrations that are accepted: the passwords that are hashed for them are the
/// same exactly where those that were sent are, to the character.
pub proof fn law_two_registrations(
    attempts: &mut Attempts,
    source: &str,
    input: Credentials,
    now: i64,
    registration: Registration,
    settings: Result<Settings, StorageError>,
    admitted: Admission,
    other_attempts: &mut Attempts,
    other_source: &str,
    other_input: Credentials,
    other_now: i64,
    other_registration: Registration,
    other_settings: Result<Settings, StorageError>,
    other_admitted: Admission,
)
    requires
        call_ensures(
            register,
            (attempts, source, input, now),
            Ok::<Registration, ApiError>(registration),
        ),
        call_ensures(
            Registration::let_in,
            (registration, settings),
            Ok::<Admission, ApiError>(admitted),
        ),
        call_ensures(
            register,
            (other_attempts, other_source, other_input, other_now),
            Ok::<Registration, ApiError>(other_registration),
        ),
        call_ensures(
            Registration::let_in,
            (other_registration, other_settings),
            Ok::<Admission, ApiError>(other_admitted),
        ),
    ensures
        admitted@.1 == other_admitted@.1 <==> input.password@ == other_input.password@,
        admitted@.0 == other_admitted@.0 <==> trimmed(input.username@) == trimmed(
            other_input.username@,
        ),
{
    let granted = grants(old(attempts)@, source@, now as int, registration_limits());
    let other_granted = grants(
        old(other_attempts)@,
        other_source@,
        other_now as int,
        registration_limits(),
    );
    assert(application(granted, input) == Ok::<Applicant, ApiError>(registration@));
    assert(application(other_granted, other_input) == Ok::<Applicant, ApiError>(
        other_registration@,
    ));
    law_a_registration_is_what_was_sent(granted, input);
    law_a_registration_is_what_was_sent(other_granted, other_input);
    law_who_is_let_in(registration@, settings);
    law_who_is_let_in(other_registration@, other_settings);
}

/// A password that the row's hash does not accept does not log in, and neither does
/// any password for a name that nobody has: both are answered alike.
pub proof fn law_who_cannot_log_in(
    attempt: LoginAttempt,
    row: Option<UserRow>,
    dummy: &str,
    check: Result<PasswordCheck, ApiError>,
    entered: Result<Account, ApiError>,
)
    requires
        call_ensures(
            LoginAttempt::found,
            (attempt, Ok::<Option<UserRow>, StorageError>(row), dummy),
            check,
        ),
        check is Ok ==> call_ensures(PasswordCheck::verify, (check->Ok_0, true), entered),
        row matches Some(known) ==> !accepts(attempt@.1, known.password_hash@),
    ensures
        check is Ok,
        entered is Err,
        entered->Err_0 == ApiError::WrongCredentials,
{
    law_logins_are_decided_by_the_row(
        attempt@.1,
        Ok(row),
        dummy@,
        Some(accepts(attempt@.1, check->Ok_0@.hash)),
    );
}

/// The name that a login looks up and the password that it checks are those that were
/// sent: of the name the first twenty-four characters, white space at its ends left
/// out, and the password to the character.
pub proof fn law_a_login_is_what_was_sent(
    by_user: &mut Attempts,
    by_source: &mut Attempts,
    source: &str,
    input: Credentials,
    now: i64,
    attempt: LoginAttempt,
    name: &str,
)
    requires
        call_ensures(
            login,
            (by_user, by_source, source, input, now),
            Ok::<LoginAttempt, ApiError>(attempt),
        ),
        call_ensures(LoginAttempt::username, (&attempt,), name),
    ensures
        trimmed(input.username@).len() <= 24 ==> name@ == trimmed(input.username@),
        trimmed(input.username@).len() > 24 ==> name@ == trimmed(input.username@).take(24),
        attempt@.1 == input.password@,
{
}

/// A change of password from the request to the end: the password that was sent as the
/// current one is held against the stored hash, the new one is hashed to the
/// character, and once it is stored no session of the user is left.
pub proof fn law_a_change_of_password_takes_its_course(
    sessions: &mut Sessions,
    headers: &HeaderMap,
    input: PasswordRequest,
    now: i64,
    change: PasswordChange,
    uid: i64,
    stored_hash: String,
    verified: Result<(), ApiError>,
    hash: String,
    all: &mut Sessions,
    done: Result<(), ApiError>,
    token: Seq<char>,
)
    requires
        call_ensures(
            change_password,
            (sessions, headers, input, now),
            Ok::<PasswordChange, ApiError>(change),
        ),
        call_ensures(PasswordChange::uid, (&change,), uid),
        call_ensures(
            PasswordChange::verify,
            (&change, Ok::<String, StorageError>(stored_hash), true),
            verified,
        ),
        call_ensures(PasswordChange::hash, (&change, true), Ok::<String, ApiError>(hash)),
        call_ensures(
            PasswordChange::stored,
            (&change, Ok::<(), StorageError>(()), all),
            done,
        ),
    ensures
        match token_in(*headers) {
            Some(own) => old(sessions)@.contains_key(own) && old(sessions)@[own].user_id == uid,
            None => false,
        },
        verified is Ok <==> accepts(input.current_password@, stored_hash@),
        verified matches Err(error) ==> error == ApiError::WrongPassword,
        accepts(input.new_password@, hash@),
        hash_of(input.new_password@, hash@),
        done is Ok,
        final(all)@.contains_key(token) <==> old(all)@.contains_key(token)
            && old(all)@[token].user_id != uid,
        final(all)@.contains_key(token) ==> final(all)@[token] == old(all)@[token],
{
    let user = signed_in_as(old(sessions)@, *headers, now as int);
    assert(change_asked(user, input) == Ok::<ChangeView, ApiError>(change@));
    law_a_password_change_is_what_was_sent(user, input);
    law_requests_come_from_their_user(old(sessions)@, *headers, now as int, uid);
}

/// Who is an administrator is whose mark is one, for the user in question and no
/// other.
pub proof fn law_administrators(
    uid: i64,
    mark: i64,
    name: String,
    admin: Result<i64, ApiError>,
    account: Result<Account, ApiError>,
)
    requires
        call_ensures(admin_user_id, (uid, Ok::<Option<i64>, StorageError>(Some(mark))), admin),
        call_ensures(
            current_user,
            (uid, Ok::<Option<(String, i64)>, StorageError>(Some((name, mark)))),
            account,
        ),
    ensures
        mark == 1 ==> admin == Ok::<i64, ApiError>(uid),
        mark != 1 ==> admin == Err::<i64, ApiError>(ApiError::NotAdmin),
        account is Ok,
        account->Ok_0.id == uid,
        account->Ok_0.username@ == name@,
        account->Ok_0.is_admin <==> mark == 1,
{
}

/// What registering ends with: a name that is already stored is taken, and any other
/// failure is one of the database.
pub proof fn law_how_a_registration_ends(
    stored: Result<(), StorageError>,
    end: Result<(), ApiError>,
)
    requires
        call_ensures(registered, (stored,), end),
    ensures
        end is Ok <==> stored is Ok,
        stored == Err::<(), StorageError>(StorageError::Constraint) ==> end == Err::<(), ApiError>(
            ApiError::UsernameTaken,
        ),
        stored == Err::<(), StorageError>(StorageError::Other) ==> end == Err::<(), ApiError>(
            ApiError::Database,
        ),
{
}

/// A server without an administrator gets one whose password is made up and whose hash
/// accepts it, and a server that has one gets no other.
pub proof fn law_the_first_administrator(
    has_admin: bool,
    permitted: bool,
    made: Result<Option<FirstAdmin>, &'static str>,
)
    requires
        call_ensures(ensure_admin, (has_admin, permitted), made),
    ensures
        has_admin ==> made matches Ok(None),
        !has_admin && permitted ==> (made matches Ok(Some(admin)) && admin.password@.len() == 24
            && accepts(admin.password@, admin.password_hash@)),
        !has_admin && !permitted ==> made is Err,
{
}

/// A login forgets the attempts under the account's name and from the source, and no
/// others.
pub proof fn law_a_login_forgets_its_attempts(
    by_user: &mut Attempts,
    by_source: &mut Attempts,
    account: &Account,
    source: &str,
    key: Seq<char>,
)
    requires
        call_ensures(login_succeeded, (by_user, by_source, account, source), ()),
    ensures
        final(by_user)@.contains_key(key) <==> key != account.username@ && old(
            by_user,
        )@.contains_key(key),
        final(by_source)@.contains_key(key) <==> key != source@ && old(by_source)@.contains_key(
            key,
        ),
        final(by_user)@.contains_key(key) ==> final(by_user)@[key] == old(by_user)@[key],
        final(by_source)@.contains_key(key) ==> final(by_source)@[key] == old(by_source)@[key],
{
}

/// What logging in and logging out leave behind: a session of the user's own under the
/// token, with a cookie that carries it; and none under the request's token, with a
/// cookie that carries nothing.
pub proof fn law_sessions_begin_and_end(
    sessions: &mut Sessions,
    token: String,
    uid: i64,
    now: i64,
    secure: bool,
    cookie: String,
    others: &mut Sessions,
    headers: &HeaderMap,
    last: String,
    own: Seq<char>,
)
    requires
        now + 604_800 <= i64::MAX,
        call_ensures(start_session, (sessions, token, uid, now, secure), cookie),
        call_ensures(logout, (others, headers, secure), last),
        token_in(*headers) == Some(own),
    ensures
        final(sessions)@.contains_key(token@),
        final(sessions)@[token@] == (Session { user_id: uid, expires_at: (now + 604_800) as i64 }),
        cookie@ == cookie_text(token@, 604_800, secure),
        !final(others)@.contains_key(own),
        forall|other: Seq<char>|
            other != own ==> #[trigger] final(others)@.contains_key(other) == old(
                others,
            )@.contains_key(other),
        last@ == cookie_text(Seq::empty(), 0, secure),
{
    law_a_login_opens_a_session(old(sessions)@, final(sessions)@, token@, uid, now);
}

/// What is hashed elsewhere is stored as it came, under the name that was let in, and
/// a hash that could not be had means that the server is busy.
pub proof fn law_hashes_are_handed_on(
    admitted: Admission,
    hash: Result<String, ()>,
    account: Result<NewAccount, ApiError>,
    outcome: Result<String, ApiError>,
)
    requires
        call_ensures(Admission::hashed, (admitted, hash), account),
        call_ensures(hash_outcome, (hash,), outcome),
    ensures
        hash matches Ok(text) ==> account is Ok && account->Ok_0.username@ == admitted@.0
            && account->Ok_0.password_hash@ == text@ && outcome == Ok::<String, ApiError>(text),
        hash is Err ==> account is Err && account->Err_0 == ApiError::Busy && outcome == Err::<
            String,
            ApiError,
        >(ApiError::Busy),
{
}

/// A name that is taken cannot be the first administrator's.
pub proof fn law_a_taken_name(taken: bool, free: Result<(), &'static str>)
    requires
        call_ensures(admin_name_free, (taken,), free),
    ensures
        free is Ok <==> !taken,
{
}

/// A login is taken up exactly where both its name and its source may try once more,
/// and an attempt is counted against the name that was sent, and against the source
/// where the name may try.
pub proof fn law_logins_are_limited(
    by_user: &mut Attempts,
    by_source: &mut Attempts,
    source: &str,
    input: Credentials,
    now: i64,
    taken: Result<LoginAttempt, ApiError>,
)
    requires
        call_ensures(login, (by_user, by_source, source, input, now), taken),
        trimmed(input.username@).len() <= 24,
    ensures
        ({
            let name = trimmed(input.username@);
            let user = grants(old(by_user)@, name, now as int, user_limits());
            let place = grants(old(by_source)@, source@, now as int, source_limits());
            &&& taken is Ok <==> user && place
            &&& taken is Err ==> taken->Err_0 == ApiError::LoginsTooFrequent
            &&& final(by_user)@ == after_attempt(old(by_user)@, name, now, user_limits())
            &&& user ==> final(by_source)@ == after_attempt(
                old(by_source)@,
                source@,
                now,
                source_limits(),
            )
            &&& !user ==> final(by_source)@ == old(by_source)@
        }),
{
}

/// A registration counts as an attempt of its source, whatever becomes of it.
pub proof fn law_registrations_are_limited(
    attempts: &mut Attempts,
    source: &str,
    input: Credentials,
    now: i64,
    taken: Result<Registration, ApiError>,
)
    requires
        call_ensures(register, (attempts, source, input, now), taken),
    ensures
        final(attempts)@ == after_attempt(old(attempts)@, source@, now, registration_limits()),
        taken == Err::<Registration, ApiError>(ApiError::RegistrationsTooFrequent) <==> !grants(
            old(attempts)@,
            source@,
            now as int,
            registration_limits(),
        ),
        taken is Ok ==> 6 <= input.password@.len() <= 128 && input.password_confirm is Some
            && input.password_confirm->0@ == input.password@ && 2 <= trimmed(
            input.username@,
        ).len() <= 24,
{
    let granted = grants(old(attempts)@, source@, now as int, registration_limits());
    law_registrations_that_are_accepted(granted, input);
    law_registrations_that_are_refused(granted, input);
    assert(viewed(taken) == application(granted, input));
}

/// Where the database fails, where a user is gone, or where no password can be worked
/// on, whoever asked is told just that, and nothing else changes.
pub proof fn law_accounts_that_cannot_be_had(
    uid: i64,
    error: StorageError,
    no_admin: Result<i64, ApiError>,
    unread_admin: Result<i64, ApiError>,
    no_user: Result<Account, ApiError>,
    unread_user: Result<Account, ApiError>,
    unread_settings: Result<Settings, ApiError>,
    admitted: Admission,
    not_hashed: Result<NewAccount, ApiError>,
    change: &PasswordChange,
    not_changed: Result<String, ApiError>,
    sessions: &mut Sessions,
    not_stored: Result<(), ApiError>,
)
    requires
        call_ensures(admin_user_id, (uid, Ok::<Option<i64>, StorageError>(None)), no_admin),
        call_ensures(admin_user_id, (uid, Err::<Option<i64>, StorageError>(error)), unread_admin),
        call_ensures(
            current_user,
            (uid, Ok::<Option<(String, i64)>, StorageError>(None)),
            no_user,
        ),
        call_ensures(
            current_user,
            (uid, Err::<Option<(String, i64)>, StorageError>(error)),
            unread_user,
        ),
        call_ensures(admin_settings, (Err::<Settings, StorageError>(error),), unread_settings),
        call_ensures(Admission::hash, (admitted, false), not_hashed),
        call_ensures(PasswordChange::hash, (change, false), not_changed),
        call_ensures(
            PasswordChange::stored,
            (change, Err::<(), StorageError>(error), sessions),
            not_stored,
        ),
    ensures
        no_admin == Err::<i64, ApiError>(ApiError::NotLoggedIn),
        unread_admin == Err::<i64, ApiError>(ApiError::Database),
        no_user is Err && no_user->Err_0 == ApiError::NotLoggedIn,
        unread_user is Err && unread_user->Err_0 == ApiError::Database,
        unread_settings is Err && unread_settings->Err_0 == ApiError::Database,
        not_hashed is Err && not_hashed->Err_0 == ApiError::Busy,
        not_changed is Err && not_changed->Err_0 == ApiError::Busy,
        not_stored == Err::<(), ApiError>(ApiError::Database),
        final(sessions)@ == old(sessions)@,
{
}

/// An administrator gets to see the settings as they are stored, and what was stored of
/// a request is what the next look shows.
pub proof fn law_settings_are_shown_as_stored(
    input: AdminSettingsRequest,
    stored: Settings,
    shown: Result<Settings, ApiError>,
)
    requires
        call_ensures(update_admin_settings, (input,), Ok::<Settings, ApiError>(stored)),
        call_ensures(admin_settings, (Ok::<Settings, StorageError>(stored),), shown),
    ensures
        shown is Ok,
        shown->Ok_0.registration_mode@ == input.registration_mode@,
        trimmed(optional_text(input.invite_code)).len() <= 128 ==> shown->Ok_0.invite_code@
            == trimmed(optional_text(input.invite_code)),
        input.registration_mode@ == "open"@ || input.registration_mode@ == "invite"@,
{
    law_settings_are_what_was_sent(input);
    assert(settings_asked(input) == Ok::<SettingsView, ApiError>(stored@));
}

/// The word on the current password decides whether a change goes on.
pub proof fn law_a_change_hangs_on_the_current_password(
    change: &PasswordChange,
    valid: Option<bool>,
    goes_on: Result<(), ApiError>,
)
    requires
        call_ensures(PasswordChange::checked, (change, valid), goes_on),
    ensures
        goes_on is Ok <==> valid == Some(true),
        valid == Some(false) ==> goes_on == Err::<(), ApiError>(ApiError::WrongPassword),
        valid is None ==> goes_on == Err::<(), ApiError>(ApiError::Busy),
{
}

} // verus!
