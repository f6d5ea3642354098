use axum::http::{header, HeaderMap};
use y2m::account::start_session;
use y2m::api::{ApiError, StorageError};
use y2m::rooms::{
    choose_code, create_room, delete_room, deletion_answer, join_room, list_rooms, room_code,
    room_found, CodeChoice, DeleteRoomOutcome, Room, RoomRequest, RoomRow,
};
use y2m::sessions::Sessions;

fn logged_in() -> (Sessions, HeaderMap) {
    let mut sessions = Sessions::new();
    start_session(&mut sessions, "token".to_string(), 7, 1_000, false);
    let mut headers = HeaderMap::new();
    headers.insert(header::COOKIE, "y2m_session=token".parse().unwrap());
    (sessions, headers)
}

fn draft(name: Option<&str>) -> Result<(i64, String), ApiError> {
    let (mut sessions, headers) = logged_in();
    let input = RoomRequest { name: name.map(|name| name.to_string()), code: None };
    create_room(&mut sessions, &headers, input, 1_001)
        .map(|draft| (draft.uid(), draft.name().to_string()))
}

fn code(text: Option<&str>) -> Result<(i64, String), ApiError> {
    let (mut sessions, headers) = logged_in();
    let input = RoomRequest { name: None, code: text.map(|text| text.to_string()) };
    join_room(&mut sessions, &headers, input, 1_001)
        .map(|join| (join.uid(), join.code().to_string()))
}

#[test]
fn rooms_have_names() {
    assert_eq!(draft(Some("  tea  ")), Ok((7, "tea".to_string())));
    assert_eq!(draft(None), Ok((7, "新聊天室".to_string())));
    assert_eq!(draft(Some("   ")), Ok((7, "新聊天室".to_string())));
    assert_eq!(draft(Some(&"茶".repeat(40))), Ok((7, "茶".repeat(40))));
    assert_eq!(draft(Some(&"茶".repeat(41))), Err(ApiError::RoomNameTooLong));
}

#[test]
fn strangers_make_no_rooms() {
    let (mut sessions, _) = logged_in();
    let input = RoomRequest { name: Some("x".repeat(100)), code: None };
    let result = create_room(&mut sessions, &HeaderMap::new(), input, 1_001);
    assert!(matches!(result, Err(ApiError::NotLoggedIn)));
    let input = RoomRequest { name: None, code: None };
    let result = join_room(&mut sessions, &HeaderMap::new(), input, 1_001);
    assert!(matches!(result, Err(ApiError::NotLoggedIn)));
}

#[test]
fn a_user_owns_a_hundred_rooms() {
    let (mut sessions, headers) = logged_in();
    let input = RoomRequest { name: None, code: None };
    let draft = create_room(&mut sessions, &headers, input, 1_001).ok().unwrap();
    assert_eq!(draft.counted(Ok(99)), Ok(()));
    assert_eq!(draft.counted(Ok(100)), Err(ApiError::TooManyRooms));
    assert_eq!(draft.counted(Err(StorageError::Other)), Err(ApiError::Database));
    let room = draft.stored("ABC123".to_string(), Ok(5)).ok().unwrap();
    assert_eq!((room.id, room.code.as_str(), room.name.as_str()), (5, "ABC123", "新聊天室"));
}

#[test]
fn codes_are_six_capitals_and_digits() {
    for _ in 0..50 {
        let code = room_code();
        assert_eq!(code.len(), 6);
        assert!(code.bytes().all(|b| b.is_ascii_uppercase() || b.is_ascii_digit()));
    }
}

#[test]
fn a_code_that_is_taken_is_drawn_again() {
    assert!(matches!(choose_code("ABC123".to_string(), true), CodeChoice::Again));
    match choose_code("ABC123".to_string(), false) {
        CodeChoice::Use(code) => assert_eq!(code, "ABC123"),
        CodeChoice::Again => panic!("drawn again"),
    }
}

#[test]
fn codes_can_be_typed_in_any_case() {
    assert_eq!(code(Some(" abC123 ")), Ok((7, "ABC123".to_string())));
    assert_eq!(code(Some("lobby")), Ok((7, "LOBBY".to_string())));
    assert_eq!(code(Some("LoBBy")), Ok((7, "LOBBY".to_string())));
    assert_eq!(code(Some("straße")), Ok((7, "STRASSE".to_string())));
    assert_eq!(code(Some("ABC12")), Err(ApiError::BadRoomCode));
    assert_eq!(code(Some("ABC1234")), Err(ApiError::BadRoomCode));
    assert_eq!(code(None), Err(ApiError::BadRoomCode));
    let drawn = room_code();
    assert_eq!(code(Some(&drawn.to_lowercase())), Ok((7, drawn)));
}

#[test]
fn a_room_is_found_or_not() {
    let room = Room { id: 3, code: "ABC123".to_string(), name: "tea".to_string() };
    assert_eq!(room_found(Ok(Some(room))).ok().unwrap().id, 3);
    assert!(matches!(room_found(Ok(None)), Err(ApiError::NoSuchRoom)));
    assert!(matches!(room_found(Err(StorageError::Other)), Err(ApiError::Database)));
}

#[test]
fn rooms_go_only_for_their_owner() {
    assert_eq!(delete_room(7, None), DeleteRoomOutcome::NotFound);
    assert_eq!(delete_room(7, Some((7, 1))), DeleteRoomOutcome::SystemRoom);
    assert_eq!(delete_room(7, Some((8, 0))), DeleteRoomOutcome::NotOwner);
    assert_eq!(delete_room(7, Some((7, 0))), DeleteRoomOutcome::Deleted);
    assert_eq!(deletion_answer(Ok(DeleteRoomOutcome::Deleted)), Ok(()));
    assert_eq!(deletion_answer(Ok(DeleteRoomOutcome::NotFound)), Err(ApiError::NoSuchRoom));
    assert_eq!(deletion_answer(Ok(DeleteRoomOutcome::SystemRoom)), Err(ApiError::SystemRoom));
    assert_eq!(deletion_answer(Ok(DeleteRoomOutcome::NotOwner)), Err(ApiError::NotOwner));
    assert_eq!(deletion_answer(Err(StorageError::Other)), Err(ApiError::Database));
}

#[test]
fn the_list_shows_the_marks() {
    let row = |id: i64, is_system: i64, is_member: i64| RoomRow {
        id,
        code: format!("CODE{id:02}"),
        name: format!("room {id}"),
        owner: "ann".to_string(),
        is_system,
        is_member,
    };
    let listings = list_rooms(Ok(vec![row(1, 1, 0), row(2, 0, 1)])).ok().unwrap();
    assert_eq!(listings.len(), 2);
    assert_eq!(listings[0].code, "CODE01");
    assert!(listings[0].system && !listings[0].joined);
    assert!(!listings[1].system && listings[1].joined);
    assert_eq!(listings[1].name, "room 2");
    assert_eq!(listings[1].owner, "ann");
    assert!(matches!(list_rooms(Err(StorageError::Other)), Err(ApiError::Database)));
}
