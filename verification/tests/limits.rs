use y2m::limiter::{
    attempt_allowed, clear_login_attempts, login_allowed, registration_allowed, Attempts,
};
use y2m::search::{containing, escape_like};
use y2m::sessions::{
    count_sessions, drop_expired_sessions, insert_session, session_active, use_token, Session,
    Sessions, MAX_SESSIONS, MAX_SESSIONS_PER_USER, SESSION_TTL_SECS,
};
use y2m::text::valid_username;

#[test]
fn attempt_limit_expires_and_resets() {
    let mut attempts = Attempts::new();
    assert!(attempt_allowed(&mut attempts, "source", 100, 60, 2, 10));
    assert!(attempt_allowed(&mut attempts, "source", 101, 60, 2, 10));
    assert!(!attempt_allowed(&mut attempts, "source", 102, 60, 2, 10));
    assert!(attempt_allowed(&mut attempts, "source", 161, 60, 2, 10));
}

#[test]
fn attempt_limit_bounds_source_map() {
    let mut attempts = Attempts::new();
    assert!(attempt_allowed(&mut attempts, "first", 100, 60, 2, 1));
    assert!(!attempt_allowed(&mut attempts, "second", 101, 60, 2, 1));
    assert!(attempt_allowed(&mut attempts, "second", 161, 60, 2, 1));
}

#[test]
fn usernames_cannot_contain_control_characters() {
    assert!(valid_username("井水玉藻"));
    assert!(!valid_username("user\nname"));
    assert!(!valid_username("user\0name"));
}

#[test]
fn session_insertion_caps_sessions_per_user() {
    let mut sessions = Sessions::new();
    for index in 0..MAX_SESSIONS_PER_USER {
        insert_session(
            &mut sessions,
            format!("user1-{index}"),
            1,
            1_000 + index as i64,
        );
    }
    insert_session(&mut sessions, "user2".to_string(), 2, 1_000);
    for index in 0..5 {
        insert_session(
            &mut sessions,
            format!("user1-extra-{index}"),
            1,
            2_000 + index as i64,
        );
    }
    assert_eq!(count_sessions(&sessions, 1), MAX_SESSIONS_PER_USER);
    assert!(sessions.contains_key("user2"));
}

#[test]
fn like_escape_protects_wildcards() {
    assert_eq!(escape_like(r"100%_a\b"), r"100\%\_a\\b");
}

#[test]
fn a_search_pattern_is_open_at_both_ends() {
    assert_eq!(containing("50%"), r"%50\%%");
    assert_eq!(containing(""), "%%");
}

#[test]
fn login_is_limited_by_name_and_by_source() {
    let mut by_user = Attempts::new();
    let mut by_source = Attempts::new();
    for second in 0..5 {
        assert!(login_allowed(&mut by_user, &mut by_source, "ann", "10.0.0.1", 100 + second));
    }
    assert!(!login_allowed(&mut by_user, &mut by_source, "ann", "10.0.0.2", 106));
    for user in 0..25 {
        let name = format!("user{user}");
        assert!(login_allowed(&mut by_user, &mut by_source, &name, "10.0.0.1", 106));
    }
    assert!(!login_allowed(&mut by_user, &mut by_source, "bob", "10.0.0.1", 107));
    assert!(login_allowed(&mut by_user, &mut by_source, "bob", "10.0.0.3", 107));
}

#[test]
fn a_successful_login_forgets_the_attempts() {
    let mut by_user = Attempts::new();
    let mut by_source = Attempts::new();
    for _ in 0..5 {
        assert!(login_allowed(&mut by_user, &mut by_source, "ann", "10.0.0.1", 100));
    }
    assert!(!login_allowed(&mut by_user, &mut by_source, "ann", "10.0.0.1", 100));
    clear_login_attempts(&mut by_user, &mut by_source, "ann", "10.0.0.1");
    assert!(login_allowed(&mut by_user, &mut by_source, "ann", "10.0.0.1", 100));
}

#[test]
fn ten_registrations_in_an_hour() {
    let mut attempts = Attempts::new();
    for _ in 0..10 {
        assert!(registration_allowed(&mut attempts, "10.0.0.1", 1_000));
    }
    assert!(!registration_allowed(&mut attempts, "10.0.0.1", 4_599));
    assert!(registration_allowed(&mut attempts, "10.0.0.2", 4_599));
    assert!(registration_allowed(&mut attempts, "10.0.0.1", 4_600));
}

#[test]
fn a_refused_attempt_is_not_recorded() {
    let mut attempts = Attempts::new();
    assert!(attempt_allowed(&mut attempts, "key", 100, 60, 1, 10));
    assert!(!attempt_allowed(&mut attempts, "key", 159, 60, 1, 10));
    assert!(attempt_allowed(&mut attempts, "key", 160, 60, 1, 10));
}

#[test]
fn the_watched_keys_never_outgrow_their_limit() {
    let mut attempts = Attempts::new();
    for second in 0..100 {
        let key = format!("key{second}");
        let watched = second % 10 < 3;
        assert_eq!(attempt_allowed(&mut attempts, &key, second - second % 10, 10, 1, 3), watched);
    }
}

#[test]
fn a_session_holds_for_a_week_after_its_last_use() {
    let mut sessions = Sessions::new();
    insert_session(&mut sessions, "token".to_string(), 7, 1_000);
    let last = 1_000 + SESSION_TTL_SECS - 1;
    assert_eq!(use_token(&mut sessions, "token", last), Some(7));
    assert_eq!(use_token(&mut sessions, "token", last + SESSION_TTL_SECS - 1), Some(7));
    assert_eq!(use_token(&mut sessions, "token", last + 3 * SESSION_TTL_SECS), None);
    assert!(!sessions.contains_key("token"));
    assert_eq!(use_token(&mut sessions, "other", 1_000), None);
}

#[test]
fn the_oldest_session_of_the_user_goes() {
    let mut sessions = Sessions::new();
    insert_session(&mut sessions, "elsewhere".to_string(), 2, 1_000);
    for index in 0..=MAX_SESSIONS_PER_USER {
        insert_session(&mut sessions, format!("t{index}"), 1, 1_001 + index as i64);
    }
    assert!(!sessions.contains_key("t0"));
    assert!(sessions.contains_key("t1"));
    assert!(sessions.contains_key("elsewhere"));
}

#[test]
fn a_full_table_loses_the_session_that_expires_first() {
    let mut sessions = Sessions::new();
    for index in 0..MAX_SESSIONS {
        sessions.push_new(
            format!("t{index}"),
            Session { user_id: index as i64, expires_at: 5_000 + index as i64 },
        );
    }
    insert_session(&mut sessions, "new".to_string(), -1, 1_000);
    assert_eq!(sessions.len(), MAX_SESSIONS);
    assert!(!sessions.contains_key("t0"));
    assert!(sessions.contains_key("t1"));
    assert!(sessions.contains_key("new"));
}

#[test]
fn expired_sessions_are_dropped() {
    let mut sessions = Sessions::new();
    insert_session(&mut sessions, "old".to_string(), 1, 1_000);
    insert_session(&mut sessions, "young".to_string(), 2, 2_000);
    drop_expired_sessions(&mut sessions, 1_000 + SESSION_TTL_SECS);
    assert!(!sessions.contains_key("old"));
    assert!(sessions.contains_key("young"));
}

#[test]
fn a_session_of_someone_else_is_not_active() {
    let mut sessions = Sessions::new();
    insert_session(&mut sessions, "token".to_string(), 1, 1_000);
    assert!(session_active(&mut sessions, "token", 1, 1_001));
    assert!(!session_active(&mut sessions, "token", 2, 1_001));
    assert!(!sessions.contains_key("token"));
    assert!(!session_active(&mut sessions, "token", 1, 1_001));
}
