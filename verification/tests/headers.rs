use axum::http::{header, HeaderMap, HeaderValue};
use y2m::headers::{
    browser_cross_site_request, clear_session_cookie, end_session, request_refused,
    same_origin_request, security_headers, session_cookie, session_token, token_in_cookie, user_id,
    websocket_origin_allowed,
};
use y2m::sessions::{insert_session, Sessions, SESSION_TTL_SECS};

#[test]
fn websocket_origin_must_match_host() {
    let mut headers = HeaderMap::new();
    headers.insert(header::HOST, "example.test".parse().unwrap());
    headers.insert(header::ORIGIN, "https://example.test".parse().unwrap());
    assert!(websocket_origin_allowed(&headers));
    headers.insert(header::ORIGIN, "https://attacker.test".parse().unwrap());
    assert!(!websocket_origin_allowed(&headers));
}

#[test]
fn state_change_origin_is_checked_when_present() {
    let mut headers = HeaderMap::new();
    headers.insert(header::HOST, "example.test".parse().unwrap());
    assert!(same_origin_request(&headers));
    headers.insert(header::ORIGIN, "https://example.test".parse().unwrap());
    assert!(same_origin_request(&headers));
    headers.insert(header::ORIGIN, "https://attacker.test".parse().unwrap());
    assert!(!same_origin_request(&headers));
}

#[test]
fn cross_site_fetch_header_is_detected() {
    let mut headers = HeaderMap::new();
    assert!(!browser_cross_site_request(&headers));
    headers.insert("sec-fetch-site", "same-origin".parse().unwrap());
    assert!(!browser_cross_site_request(&headers));
    headers.insert("sec-fetch-site", "cross-site".parse().unwrap());
    assert!(browser_cross_site_request(&headers));
}

#[test]
fn origins_are_compared_without_regard_to_case() {
    let mut headers = HeaderMap::new();
    headers.insert(header::HOST, "Example.Test:8000".parse().unwrap());
    headers.insert(header::ORIGIN, "http://example.test:8000".parse().unwrap());
    assert!(websocket_origin_allowed(&headers));
    headers.insert(header::ORIGIN, "HTTP://example.test:8000".parse().unwrap());
    assert!(!websocket_origin_allowed(&headers));
    headers.insert(header::ORIGIN, "".parse().unwrap());
    assert!(!same_origin_request(&headers));
}

#[test]
fn an_origin_needs_a_host() {
    let mut headers = HeaderMap::new();
    headers.insert(header::ORIGIN, "https://example.test".parse().unwrap());
    assert!(!websocket_origin_allowed(&headers));
    assert!(!same_origin_request(&headers));
}

#[test]
fn an_origin_that_is_no_text_is_refused() {
    let mut headers = HeaderMap::new();
    headers.insert(header::HOST, "example.test".parse().unwrap());
    let forged = HeaderValue::from_bytes(b"https://attacker.test\xff").unwrap();
    headers.insert(header::ORIGIN, forged);
    assert!(!websocket_origin_allowed(&headers));
    assert!(!same_origin_request(&headers));
    assert!(request_refused("POST", &headers));
    assert!(!request_refused("GET", &headers));
}

#[test]
fn other_values_that_are_no_text_count_as_missing() {
    let mut headers = HeaderMap::new();
    let bytes = HeaderValue::from_bytes(b"y2m_session=abc\xff").unwrap();
    headers.insert(header::COOKIE, bytes);
    assert_eq!(session_token(&headers), None);
    headers.insert("sec-fetch-site", HeaderValue::from_bytes(b"cross-site\xff").unwrap());
    assert!(!browser_cross_site_request(&headers));
    headers.insert(header::HOST, HeaderValue::from_bytes(b"example.test\xff").unwrap());
    headers.insert(header::ORIGIN, "https://example.test".parse().unwrap());
    assert!(!websocket_origin_allowed(&headers));
}

#[test]
fn only_changes_are_refused_for_their_origin() {
    let mut headers = HeaderMap::new();
    headers.insert(header::HOST, "example.test".parse().unwrap());
    headers.insert(header::ORIGIN, "https://attacker.test".parse().unwrap());
    assert!(!request_refused("GET", &headers));
    assert!(request_refused("POST", &headers));
    assert!(request_refused("PUT", &headers));
    assert!(request_refused("PATCH", &headers));
    assert!(request_refused("DELETE", &headers));
    headers.remove(header::ORIGIN);
    assert!(!request_refused("POST", &headers));
    headers.insert("sec-fetch-site", "Cross-Site".parse().unwrap());
    assert!(request_refused("POST", &headers));
    assert!(!request_refused("GET", &headers));
}

#[test]
fn the_token_is_found_among_other_cookies() {
    let mut headers = HeaderMap::new();
    assert_eq!(session_token(&headers), None);
    headers.insert(header::COOKIE, "a=b;  y2m_session=abc ; c=d".parse().unwrap());
    assert_eq!(session_token(&headers), Some("abc"));
    assert_eq!(token_in_cookie("y2m_session=one; y2m_session=two"), Some("one"));
    assert_eq!(token_in_cookie("Y2M_SESSION=abc"), None);
    assert_eq!(token_in_cookie("y2m_session="), Some(""));
    assert_eq!(token_in_cookie(""), None);
}

#[test]
fn cookies_carry_the_token_and_its_term() {
    assert_eq!(
        session_cookie("abc", false),
        "y2m_session=abc; HttpOnly; SameSite=Strict; Path=/; Max-Age=604800"
    );
    assert_eq!(
        session_cookie("abc", true),
        "y2m_session=abc; HttpOnly; SameSite=Strict; Path=/; Max-Age=604800; Secure"
    );
    assert_eq!(
        clear_session_cookie(false),
        "y2m_session=; HttpOnly; SameSite=Strict; Path=/; Max-Age=0"
    );
    assert_eq!(
        clear_session_cookie(true),
        "y2m_session=; HttpOnly; SameSite=Strict; Path=/; Max-Age=0; Secure"
    );
}

#[test]
fn a_cookie_is_read_back() {
    let cookie = session_cookie("Tok3n", true);
    let returned = cookie.split(';').next().unwrap();
    assert_eq!(token_in_cookie(returned), Some("Tok3n"));
    assert_eq!(token_in_cookie(&format!("theme=dark;{returned}")), Some("Tok3n"));
}

#[test]
fn requests_come_from_whom_their_token_admits() {
    let mut sessions = Sessions::new();
    insert_session(&mut sessions, "abc".to_string(), 7, 1_000);
    let mut headers = HeaderMap::new();
    assert_eq!(user_id(&mut sessions, &headers, 1_000), None);
    headers.insert(header::COOKIE, "y2m_session=abc".parse().unwrap());
    assert_eq!(user_id(&mut sessions, &headers, 1_001), Some(7));
    assert_eq!(user_id(&mut sessions, &headers, 1_000 + SESSION_TTL_SECS), Some(7));
    end_session(&mut sessions, &headers);
    assert_eq!(user_id(&mut sessions, &headers, 1_002), None);
}

#[test]
fn answers_carry_the_security_headers() {
    let all = security_headers();
    assert_eq!(all[0], ("x-content-type-options", "nosniff"));
    assert_eq!(all[1], ("x-frame-options", "DENY"));
    assert_eq!(all[2], ("referrer-policy", "same-origin"));
    assert_eq!(all[3].0, "content-security-policy");
    assert!(all[3].1.starts_with("default-src 'self'; script-src 'self';"));
    assert!(all[3].1.ends_with("form-action 'self'"));
}
