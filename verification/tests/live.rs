use axum::http::{header, HeaderMap};
use y2m::account::start_session;
use y2m::api::{ApiError, StorageError};
use y2m::live::{
    websocket, Broadcast, Frame, LiveAction, LiveMessage, LiveSession, WebSocketCommand,
};
use y2m::messages::MessageEvent;
use y2m::sessions::{drop_user_sessions, Sessions, SESSION_TTL_SECS};

fn logged_in() -> (Sessions, HeaderMap) {
    let mut sessions = Sessions::new();
    start_session(&mut sessions, "token".to_string(), 7, 1_000, false);
    let mut headers = HeaderMap::new();
    headers.insert(header::COOKIE, "y2m_session=token".parse().unwrap());
    (sessions, headers)
}

fn connected() -> (LiveSession, Sessions) {
    let (mut sessions, headers) = logged_in();
    match websocket(&mut sessions, &headers, 1_001) {
        Ok(live) => (live, sessions),
        Err(error) => panic!("{error:?}"),
    }
}

fn command(room: Option<i64>) -> Frame {
    Frame::Text(Some(WebSocketCommand { room }))
}

fn event(room_id: i64) -> Broadcast {
    Broadcast::Message(MessageEvent {
        id: 1,
        room_id,
        username: "ann".to_string(),
        text: "hello".to_string(),
        created_at: 1_000,
    })
}

#[test]
fn connections_need_an_origin_and_a_session() {
    let (mut sessions, mut headers) = logged_in();
    headers.insert(header::HOST, "example.test".parse().unwrap());
    headers.insert(header::ORIGIN, "https://attacker.test".parse().unwrap());
    let refused = websocket(&mut sessions, &headers, 1_001);
    assert!(matches!(refused, Err(ApiError::WrongOrigin)));
    headers.insert(header::ORIGIN, "https://example.test".parse().unwrap());
    assert_eq!(websocket(&mut sessions, &headers, 1_001).ok().unwrap().uid(), 7);
    headers.remove(header::COOKIE);
    let refused = websocket(&mut sessions, &headers, 1_001);
    assert!(matches!(refused, Err(ApiError::NotLoggedIn)));
}

#[test]
fn a_member_follows_the_room() {
    let (mut live, mut sessions) = connected();
    assert!(matches!(live.event(event(3)), LiveAction::Wait));
    let action = live.incoming(&mut sessions, command(Some(3)), 1_002);
    assert!(matches!(action, LiveAction::AskMembership(3)));
    assert!(matches!(live.event(event(3)), LiveAction::Wait));
    let action = live.membership(Ok(true));
    assert!(matches!(action, LiveAction::Send(LiveMessage::Subscribed(3))));
    match live.event(event(3)) {
        LiveAction::Send(LiveMessage::Message(event)) => assert_eq!(event.text, "hello"),
        _ => panic!("not sent"),
    }
    assert!(matches!(live.event(event(4)), LiveAction::Wait));
}

#[test]
fn others_do_not_follow_it() {
    let (mut live, mut sessions) = connected();
    live.incoming(&mut sessions, command(Some(3)), 1_002);
    live.membership(Ok(true));
    live.incoming(&mut sessions, command(Some(4)), 1_003);
    let action = live.membership(Ok(false));
    assert!(matches!(action, LiveAction::TrySend(LiveMessage::NotMember)));
    assert!(matches!(live.event(event(4)), LiveAction::Wait));
    assert!(matches!(live.event(event(3)), LiveAction::Send(LiveMessage::Message(_))));
    live.incoming(&mut sessions, command(Some(5)), 1_003);
    let action = live.membership(Err(StorageError::Other));
    assert!(matches!(action, LiveAction::TrySend(LiveMessage::NotMember)));
    assert!(matches!(live.membership(Ok(true)), LiveAction::Wait));
}

#[test]
fn texts_that_ask_for_no_room_are_passed_over() {
    let (mut live, mut sessions) = connected();
    for frame in [Frame::Text(None), command(None), command(Some(0)), command(Some(-1))] {
        assert!(matches!(live.incoming(&mut sessions, frame, 1_002), LiveAction::Wait));
    }
    assert!(matches!(live.incoming(&mut sessions, Frame::Other, 1_002), LiveAction::Wait));
}

#[test]
fn pings_are_answered() {
    let (mut live, mut sessions) = connected();
    match live.incoming(&mut sessions, Frame::Ping(vec![1, 2, 3]), 1_002) {
        LiveAction::Pong(payload) => assert_eq!(payload, [1, 2, 3]),
        _ => panic!("not answered"),
    }
}

#[test]
fn connections_end() {
    let (mut live, mut sessions) = connected();
    assert!(matches!(live.incoming(&mut sessions, Frame::Close, 1_002), LiveAction::Close));
    assert!(matches!(live.incoming(&mut sessions, Frame::Gone, 1_002), LiveAction::Close));
    assert!(sessions.contains_key("token"));
    assert!(matches!(live.event(Broadcast::Closed), LiveAction::Close));
    let lagged = live.event(Broadcast::Lagged);
    assert!(matches!(lagged, LiveAction::Send(LiveMessage::SyncRequired)));
}

#[test]
fn a_connection_ends_with_its_session() {
    let (mut live, mut sessions) = connected();
    assert!(matches!(live.tick(&mut sessions, 1_030), LiveAction::Wait));
    let late = 1_030 + SESSION_TTL_SECS;
    assert!(matches!(live.tick(&mut sessions, late), LiveAction::Close));
    assert!(!sessions.contains_key("token"));
    let (mut other, mut sessions) = connected();
    drop_user_sessions(&mut sessions, 7);
    let action = other.incoming(&mut sessions, Frame::Other, 1_002);
    assert!(matches!(action, LiveAction::Close));
    let action = live.incoming(&mut sessions, command(Some(3)), 1_002);
    assert!(matches!(action, LiveAction::Close));
}
