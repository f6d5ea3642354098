use axum::http::{header, HeaderMap};
use y2m::account::start_session;
use y2m::api::{ApiError, StorageError};
use y2m::messages::{
    cleanup_goes_on, cleanup_period, expiration, message_page, messages, send_answer, send_message,
    MessageEvent, MessageQuery, MessageRequest, MessageSearch, RoomLimits, SendMessageOutcome,
    SendRefusal, SendStage, SqlValue,
};
use y2m::sessions::Sessions;

const SELECT: &str = "SELECT m.id,u.username,m.text,m.created_at FROM messages m JOIN users u ON u.id=m.user_id WHERE m.room_id = ?";

fn logged_in() -> (Sessions, HeaderMap) {
    let mut sessions = Sessions::new();
    start_session(&mut sessions, "token".to_string(), 7, 1_000, false);
    let mut headers = HeaderMap::new();
    headers.insert(header::COOKIE, "y2m_session=token".parse().unwrap());
    (sessions, headers)
}

fn room(room: i64) -> MessageQuery {
    MessageQuery { room, before: None, after: None, limit: None, q: None, from: None, to: None }
}

fn search(query: MessageQuery, retention: i64) -> MessageSearch {
    let (mut sessions, headers) = logged_in();
    match messages(&mut sessions, &headers, query, retention, 1_001) {
        Ok(search) => search,
        Err(error) => panic!("{error:?}"),
    }
}

fn shown(values: &[SqlValue]) -> Vec<String> {
    values
        .iter()
        .map(|value| match value {
            SqlValue::Integer(n) => format!("{n}"),
            SqlValue::Text(text) => format!("'{text}'"),
        })
        .collect()
}

#[test]
fn a_plain_query_reads_the_newest() {
    let search = search(room(3), 0);
    assert_eq!(search.uid, 7);
    assert_eq!(search.room, 3);
    assert_eq!(search.sql, format!("{SELECT} ORDER BY m.id DESC LIMIT ?"));
    assert_eq!(shown(&search.values), ["3", "51"]);
    assert_eq!(search.limit, 50);
    assert!(!search.oldest_first);
}

#[test]
fn every_condition_has_its_value() {
    let mut query = room(3);
    query.after = Some(40);
    query.before = Some(90);
    query.q = Some(" 100%_\\ ".to_string());
    query.from = Some(500);
    query.to = Some(600);
    query.limit = Some(10);
    let search = search(query, 100);
    assert_eq!(
        search.sql,
        format!(
            "{SELECT} AND m.created_at >= ? AND m.id > ? AND m.text LIKE ? ESCAPE '\\' AND m.created_at >= ? AND m.created_at < ? ORDER BY m.id ASC LIMIT ?"
        )
    );
    assert_eq!(
        shown(&search.values),
        ["3", "901", "40", r"'%100\%\_\\%'", "500", "600", "11"]
    );
    assert!(search.oldest_first);
    assert_eq!(search.sql.matches('?').count(), search.values.len());
}

#[test]
fn before_counts_only_without_after() {
    let mut query = room(3);
    query.before = Some(90);
    let search = search(query, 0);
    assert_eq!(search.sql, format!("{SELECT} AND m.id < ? ORDER BY m.id DESC LIMIT ?"));
    assert_eq!(shown(&search.values), ["3", "90", "51"]);
}

#[test]
fn an_empty_stretch_and_a_blank_search_are_passed_over() {
    let mut query = room(3);
    query.q = Some("  ".to_string());
    query.from = Some(600);
    query.to = Some(600);
    let plain = search(query, 0);
    assert_eq!(plain.sql, format!("{SELECT} ORDER BY m.id DESC LIMIT ?"));
    let mut query = room(3);
    query.from = Some(600);
    assert_eq!(search(query, 0).sql, plain.sql);
}

#[test]
fn what_is_searched_for_stays_out_of_the_statement() {
    let mut query = room(3);
    query.q = Some("tea".to_string());
    let mut other = room(3);
    other.q = Some("it's \"green\" tea?".to_string());
    assert_eq!(search(query, 0).sql, search(other, 0).sql);
}

#[test]
fn limits_are_brought_within_bounds() {
    let sized = |limit: i64| {
        let mut query = room(3);
        query.limit = Some(limit);
        search(query, 0).limit
    };
    assert_eq!(sized(0), 1);
    assert_eq!(sized(-5), 1);
    assert_eq!(sized(1), 1);
    assert_eq!(sized(100), 100);
    assert_eq!(sized(101), 100);
    assert_eq!(sized(i64::MAX), 100);
}

#[test]
fn long_searches_and_strangers_are_refused() {
    let (mut sessions, headers) = logged_in();
    let mut query = room(3);
    query.q = Some(format!(" {} ", "茶".repeat(128)));
    assert!(messages(&mut sessions, &headers, query, 0, 1_001).is_ok());
    let mut query = room(3);
    query.q = Some("茶".repeat(129));
    let result = messages(&mut sessions, &headers, query, 0, 1_001);
    assert!(matches!(result, Err(ApiError::SearchTooLong)));
    let result = messages(&mut sessions, &HeaderMap::new(), room(3), 0, 1_001);
    assert!(matches!(result, Err(ApiError::NotLoggedIn)));
}

#[test]
fn pages_show_the_oldest_first() {
    let page = message_page(2, false, Ok(Some(vec![9, 8, 7]))).ok().unwrap();
    assert_eq!(page.messages, [8, 9]);
    assert!(page.has_more);
    let page = message_page(2, true, Ok(Some(vec![7, 8, 9]))).ok().unwrap();
    assert_eq!(page.messages, [7, 8]);
    assert!(page.has_more);
    let page = message_page(2, false, Ok(Some(vec![9, 8]))).ok().unwrap();
    assert_eq!(page.messages, [8, 9]);
    assert!(!page.has_more);
    let page = message_page::<i64>(2, false, Ok(Some(Vec::new()))).ok().unwrap();
    assert!(page.messages.is_empty() && !page.has_more);
}

#[test]
fn catching_up_and_reading_back_miss_nothing() {
    let ids: Vec<i64> = (1..=7).collect();
    let mut seen = Vec::new();
    loop {
        let after = seen.last().copied().unwrap_or(0);
        let rows = ids.iter().copied().filter(|id| *id > after).take(4).collect();
        let page = message_page(3, true, Ok(Some(rows))).ok().unwrap();
        seen.extend(page.messages);
        if !page.has_more {
            break;
        }
    }
    assert_eq!(seen, ids);
    let mut seen: Vec<i64> = Vec::new();
    loop {
        let before = seen.first().copied().unwrap_or(8);
        let rows = ids.iter().rev().copied().filter(|id| *id < before).take(4).collect();
        let mut page = message_page(3, false, Ok(Some(rows))).ok().unwrap();
        page.messages.extend(seen);
        seen = page.messages;
        if !page.has_more {
            break;
        }
    }
    assert_eq!(seen, ids);
}

#[test]
fn pages_are_for_members() {
    assert!(matches!(message_page::<i64>(2, true, Ok(None)), Err(ApiError::NotMember)));
    let failed = message_page::<i64>(2, true, Err(StorageError::Other));
    assert!(matches!(failed, Err(ApiError::Database)));
}

fn send(text: &str) -> Result<(i64, i64, String), ApiError> {
    let (mut sessions, headers) = logged_in();
    let input = MessageRequest { room: 3, text: text.to_string() };
    send_message(&mut sessions, &headers, input, 1_001)
        .map(|draft| (draft.uid(), draft.room(), draft.text().to_string()))
}

#[test]
fn messages_are_trimmed_and_measured() {
    assert_eq!(send("  hello  "), Ok((7, 3, "hello".to_string())));
    assert_eq!(send(" \n "), Err(ApiError::MessageEmpty));
    assert_eq!(send(&"茶".repeat(2000)), Ok((7, 3, "茶".repeat(2000))));
    assert_eq!(send(&"茶".repeat(2001)), Err(ApiError::MessageTooLong));
    let (mut sessions, _) = logged_in();
    let input = MessageRequest { room: 3, text: String::new() };
    let result = send_message(&mut sessions, &HeaderMap::new(), input, 1_001);
    assert!(matches!(result, Err(ApiError::NotLoggedIn)));
}

#[test]
fn a_message_is_stored_for_a_member_with_room_for_it() {
    let limits = RoomLimits { retention_secs: 100, max_messages: 5 };
    let stage = SendStage::Membership.next(true, limits, 1_000);
    assert_eq!(stage, SendStage::Purge { before: 900 });
    let stage = stage.next(false, limits, 1_000);
    assert_eq!(stage, SendStage::Capacity { offset: 4 });
    assert_eq!(stage.next(true, limits, 1_000), SendStage::Refuse(SendRefusal::RoomFull));
    assert_eq!(stage.next(false, limits, 1_000), SendStage::Store);
    assert_eq!(
        SendStage::Membership.next(false, limits, 1_000),
        SendStage::Refuse(SendRefusal::NotMember)
    );
}

#[test]
fn without_limits_a_member_just_sends() {
    let limits = RoomLimits { retention_secs: 0, max_messages: 0 };
    assert_eq!(SendStage::Membership.next(true, limits, 1_000), SendStage::Store);
    assert_eq!(SendStage::Store.next(false, limits, 1_000), SendStage::Store);
    let limits = RoomLimits { retention_secs: 0, max_messages: 1 };
    assert_eq!(
        SendStage::Membership.next(true, limits, 1_000),
        SendStage::Capacity { offset: 0 }
    );
}

fn event(id: i64) -> MessageEvent {
    MessageEvent {
        id,
        room_id: 3,
        username: "ann".to_string(),
        text: "hello".to_string(),
        created_at: 1_000,
    }
}

#[test]
fn the_sender_hears_what_became_of_the_message() {
    assert_eq!(send_answer(Ok(SendMessageOutcome::Sent(event(11)))).ok().unwrap().id, 11);
    let full = send_answer(Ok(SendMessageOutcome::RoomFull));
    assert!(matches!(full, Err(ApiError::RoomFull)));
    let outside = send_answer(Ok(SendMessageOutcome::NotMember));
    assert!(matches!(outside, Err(ApiError::NotMember)));
    assert!(matches!(send_answer(Err(StorageError::Constraint)), Err(ApiError::Database)));
}

#[test]
fn expiration_goes_as_far_as_it_can() {
    assert_eq!(expiration(1_000, 100), 900);
    assert_eq!(expiration(-10, i64::MAX), i64::MIN);
    assert_eq!(expiration(10, -1), 11);
}

#[test]
fn cleaning_up_goes_on_while_batches_are_full() {
    assert_eq!(cleanup_period(0), 1);
    assert_eq!(cleanup_period(60), 60);
    assert_eq!(cleanup_period(i64::MAX), 86_400);
    assert!(cleanup_goes_on(Ok(1_000)));
    assert!(!cleanup_goes_on(Ok(999)));
    assert!(!cleanup_goes_on(Err(StorageError::Other)));
}
