//! Rooms: making them, joining them and taking them away.

use crate::account::{law_requests_come_from_their_user, signed_in, signed_in_as};
use crate::api::{viewed, ApiError, StorageError};
use crate::headers::{after_request, token_in};
use crate::random::random_alphanumeric;
use crate::sessions::{Sessions, SESSION_TTL_SECS};
use crate::text::{
    ascii_upper, clean, is_alphanumeric, is_white_space, lemma_trimmed_again, lowercase,
    optional_text, same_ignoring_case, text_or_empty, trimmed, uppercase,
};
use axum::http::HeaderMap;
use vstd::prelude::*;
use vstd::string::*;

verus! {

/// The rooms that one user may own.
pub const MAX_ROOMS_PER_USER: i64 = 100;

/// What a client sends to make a room or to join one.
pub struct RoomRequest {
    pub name: Option<String>,
    pub code: Option<String>,
}

/// A room as a client sees it.
pub struct Room {
    pub id: i64,
    pub code: String,
    pub name: String,
}

/// A room, with the texts as their characters.
pub ghost struct RoomView {
    pub id: i64,
    pub code: Seq<char>,
    pub name: Seq<char>,
}

impl View for Room {
    type V = RoomView;

    open spec fn view(&self) -> RoomView {
        RoomView { id: self.id, code: self.code@, name: self.name@ }
    }
}

/// A room that is to be made: whose, and under which name.
pub struct RoomDraft {
    uid: i64,
    name: String,
}

impl View for RoomDraft {
    type V = (i64, Seq<char>);

    closed spec fn view(&self) -> (i64, Seq<char>) {
        (self.uid, self.name@)
    }
}

/// The name of a room that was given none.
pub open spec fn unnamed() -> Seq<char> {
    "新聊天室"@
}

/// The room that a user asks for, or what is wrong with it.
pub open spec fn room_asked(user: Result<i64, ApiError>, input: RoomRequest) -> Result<
    (i64, Seq<char>),
    ApiError,
> {
    let name = match input.name {
        Some(name) => trimmed(name@),
        None => unnamed(),
    };
    match user {
        Err(error) => Err(error),
        Ok(uid) => if name.len() > 40 {
            Err(ApiError::RoomNameTooLong)
        } else if name.len() == 0 {
            Ok((uid, unnamed()))
        } else {
            Ok((uid, name))
        },
    }
}

proof fn lemma_unnamed()
    ensures
        trimmed(unnamed()) == unnamed(),
        0 < unnamed().len() <= 40,
{
    reveal_strlit("新聊天室");
    assert(!is_white_space(unnamed().first()));
    assert(!is_white_space(unnamed().last()));
}

/// Takes up the making of a room.
pub fn create_room(
    sessions: &mut Sessions,
    headers: &HeaderMap,
    input: RoomRequest,
    current_time: i64,
) -> (r: Result<RoomDraft, ApiError>)
    requires
        current_time + SESSION_TTL_SECS <= i64::MAX,
    ensures
        final(sessions)@ == after_request(old(sessions)@, *headers, current_time),
        viewed(r) == room_asked(signed_in_as(old(sessions)@, *headers, current_time as int), input),
{
    let uid: i64 = signed_in(sessions, headers, current_time)?;
    proof {
        lemma_unnamed();
    }
    let raw_name: &str = match &input.name {
        Some(name) => name.as_str(),
        None => "新聊天室",
    };
    if raw_name.trim().unicode_len() > 40 {
        return Err(ApiError::RoomNameTooLong);
    }
    let mut name: String = clean(raw_name, 40);
    if name.as_str().is_empty() {
        name = "新聊天室".to_owned();
    }
    Ok(RoomDraft { uid, name })
}

impl RoomDraft {
    /// The user whose room it will be.
    pub fn uid(&self) -> (r: i64)
        ensures
            r == self@.0,
    {
        self.uid
    }

    /// The name of the room.
    pub fn name(&self) -> (r: &str)
        ensures
            r@ == self@.1,
    {
        self.name.as_str()
    }

    /// Goes on with the number of rooms that the user owns, as it was read.
    pub fn counted(&self, owned: Result<i64, StorageError>) -> (r: Result<(), ApiError>)
        ensures
            r == match owned {
                Ok(owned) => if owned < MAX_ROOMS_PER_USER {
                    Ok::<(), ApiError>(())
                } else {
                    Err(ApiError::TooManyRooms)
                },
                Err(_) => Err(ApiError::Database),
            },
    {
        match owned {
            Ok(owned) => if owned >= MAX_ROOMS_PER_USER {
                Err(ApiError::TooManyRooms)
            } else {
                Ok(())
            },
            Err(_) => Err(ApiError::Database),
        }
    }

    /// The room, once it was to be stored under the code.
    pub fn stored(self, code: String, stored: Result<i64, StorageError>) -> (r: Result<
        Room,
        ApiError,
    >)
        ensures
            viewed(r) == match stored {
                Ok(id) => Ok::<RoomView, ApiError>(RoomView { id, code: code@, name: self@.1 }),
                Err(_) => Err(ApiError::Database),
            },
    {
        match stored {
            Ok(id) => Ok(Room { id, code, name: self.name }),
            Err(_) => Err(ApiError::Database),
        }
    }
}

/// A code that a room gets: six capitals and digits.
pub open spec fn is_room_code(code: Seq<char>) -> bool {
    code.len() == 6 && in_capitals(code)
}

/// A text of capitals and digits.
pub open spec fn in_capitals(text: Seq<char>) -> bool {
    forall|i: int|
        0 <= i < text.len() ==> 'A' <= #[trigger] text[i] <= 'Z' || '0' <= text[i] <= '9'
}

/// A code for a room, chosen at random. It may be taken.
pub fn room_code() -> (r: String)
    ensures
        is_room_code(r@),
{
    let drawn: String = random_alphanumeric(6);
    let code: String = drawn.as_str().to_uppercase();
    assert forall|i: int| 0 <= i < 6 implies 'A' <= #[trigger] code@[i] <= 'Z' || '0' <= code@[i]
        <= '9' by {
        assert(is_alphanumeric(drawn@[i]));
        assert(code@[i] == ascii_upper(drawn@[i]));
    }
    code
}

/// What becomes of a code.
pub enum CodeChoice {
    /// It is used.
    Use(String),
    /// Another one is drawn.
    Again,
}

/// Whether a code is used: no room may have it already.
pub fn choose_code(code: String, taken: bool) -> (r: CodeChoice)
    ensures
        r == if taken {
            CodeChoice::Again
        } else {
            CodeChoice::Use(code)
        },
{
    if taken {
        CodeChoice::Again
    } else {
        CodeChoice::Use(code)
    }
}

/// A user who wants to join the room with a code.
pub struct JoinRequest {
    uid: i64,
    code: String,
}

impl View for JoinRequest {
    type V = (i64, Seq<char>);

    closed spec fn view(&self) -> (i64, Seq<char>) {
        (self.uid, self.code@)
    }
}

/// A text that may be a room's code: six characters, or the lobby's.
pub open spec fn may_be_code(text: Seq<char>) -> bool {
    text.len() == 6 || same_ignoring_case(text, "LOBBY"@)
}

/// A text in capitals: of ASCII letters and digits letter by letter, of anything
/// else as Unicode has it.
pub open spec fn capitals(text: Seq<char>) -> Seq<char> {
    if forall|i: int| 0 <= i < text.len() ==> is_alphanumeric(#[trigger] text[i]) {
        text.map_values(|c: char| ascii_upper(c))
    } else {
        uppercase(text)
    }
}

/// The code under which a room is looked up for a user, or why none is.
pub open spec fn code_asked(user: Result<i64, ApiError>, input: RoomRequest) -> Result<
    (i64, Seq<char>),
    ApiError,
> {
    let text = trimmed(optional_text(input.code));
    match user {
        Err(error) => Err(error),
        Ok(uid) => if may_be_code(text) {
            Ok((uid, capitals(text)))
        } else {
            Err(ApiError::BadRoomCode)
        },
    }
}

/// Takes up the joining of a room.
pub fn join_room(
    sessions: &mut Sessions,
    headers: &HeaderMap,
    input: RoomRequest,
    current_time: i64,
) -> (r: Result<JoinRequest, ApiError>)
    requires
        current_time + SESSION_TTL_SECS <= i64::MAX,
    ensures
        final(sessions)@ == after_request(old(sessions)@, *headers, current_time),
        viewed(r) == code_asked(signed_in_as(old(sessions)@, *headers, current_time as int), input),
{
    let uid: i64 = signed_in(sessions, headers, current_time)?;
    let raw_code: &str = text_or_empty(&input.code).trim();
    if raw_code.unicode_len() != 6 && !raw_code.eq_ignore_ascii_case("LOBBY") {
        return Err(ApiError::BadRoomCode);
    }
    Ok(JoinRequest { uid, code: raw_code.to_uppercase() })
}

impl JoinRequest {
    /// The user who joins.
    pub fn uid(&self) -> (r: i64)
        ensures
            r == self@.0,
    {
        self.uid
    }

    /// The code under which the room is looked up.
    pub fn code(&self) -> (r: &str)
        ensures
            r@ == self@.1,
    {
        self.code.as_str()
    }
}

/// The room that was looked up, which the user is to be entered in.
pub fn room_found(row: Result<Option<Room>, StorageError>) -> (r: Result<Room, ApiError>)
    ensures
        viewed(r) == match row {
            Ok(Some(room)) => Ok::<RoomView, ApiError>(room@),
            Ok(None) => Err(ApiError::NoSuchRoom),
            Err(_) => Err(ApiError::Database),
        },
{
    match row {
        Ok(Some(room)) => Ok(room),
        Ok(None) => Err(ApiError::NoSuchRoom),
        Err(_) => Err(ApiError::Database),
    }
}

/// What becomes of a room that is to be deleted.
#[derive(Clone, Copy, PartialEq, Eq, Structural, Debug)]
pub enum DeleteRoomOutcome {
    Deleted,
    NotFound,
    SystemRoom,
    NotOwner,
}

/// Whether the user may delete the room, from its owner and the mark of the
/// server's own rooms. It is deleted exactly where the outcome says so.
pub fn delete_room(uid: i64, room: Option<(i64, i64)>) -> (r: DeleteRoomOutcome)
    ensures
        r == deletion(uid, room),
{
    match room {
        None => DeleteRoomOutcome::NotFound,
        Some((owner, system)) => if system == 1 {
            DeleteRoomOutcome::SystemRoom
        } else if owner != uid {
            DeleteRoomOutcome::NotOwner
        } else {
            DeleteRoomOutcome::Deleted
        },
    }
}

/// What becomes of a room, from its owner and the mark of the server's rooms,
/// where the user wants it gone.
pub open spec fn deletion(uid: i64, room: Option<(i64, i64)>) -> DeleteRoomOutcome {
    match room {
        None => DeleteRoomOutcome::NotFound,
        Some((owner, system)) => if system == 1 {
            DeleteRoomOutcome::SystemRoom
        } else if owner != uid {
            DeleteRoomOutcome::NotOwner
        } else {
            DeleteRoomOutcome::Deleted
        },
    }
}

/// The answer to a deletion.
pub fn deletion_answer(outcome: Result<DeleteRoomOutcome, StorageError>) -> (r: Result<
    (),
    ApiError,
>)
    ensures
        r == match outcome {
            Ok(DeleteRoomOutcome::Deleted) => Ok::<(), ApiError>(()),
            Ok(DeleteRoomOutcome::NotFound) => Err(ApiError::NoSuchRoom),
            Ok(DeleteRoomOutcome::SystemRoom) => Err(ApiError::SystemRoom),
            Ok(DeleteRoomOutcome::NotOwner) => Err(ApiError::NotOwner),
            Err(_) => Err(ApiError::Database),
        },
{
    match outcome {
        Ok(DeleteRoomOutcome::Deleted) => Ok(()),
        Ok(DeleteRoomOutcome::NotFound) => Err(ApiError::NoSuchRoom),
        Ok(DeleteRoomOutcome::SystemRoom) => Err(ApiError::SystemRoom),
        Ok(DeleteRoomOutcome::NotOwner) => Err(ApiError::NotOwner),
        Err(_) => Err(ApiError::Database),
    }
}

/// A row of the list of rooms.
pub struct RoomRow {
    pub id: i64,
    pub code: String,
    pub name: String,
    pub owner: String,
    pub is_system: i64,
    pub is_member: i64,
}

/// A room in the list that a user sees.
pub struct RoomListing {
    pub id: i64,
    pub code: String,
    pub name: String,
    pub owner: String,
    pub system: bool,
    pub joined: bool,
}

/// A listing shows what its row holds, with the marks as what they stand for.
pub open spec fn lists(listing: RoomListing, row: RoomRow) -> bool {
    &&& listing.id == row.id
    &&& listing.code@ == row.code@
    &&& listing.name@ == row.name@
    &&& listing.owner@ == row.owner@
    &&& listing.system == (row.is_system == 1)
    &&& listing.joined == (row.is_member == 1)
}

/// The list of rooms, in the order of its rows.
pub fn list_rooms(rows: Result<Vec<RoomRow>, StorageError>) -> (r: Result<
    Vec<RoomListing>,
    ApiError,
>)
    ensures
        match rows {
            Ok(rows) => r matches Ok(listings) && listings@.len() == rows@.len() && forall|i: int|
                0 <= i < rows@.len() ==> lists(#[trigger] listings@[i], rows@[i]),
            Err(_) => r == Err::<Vec<RoomListing>, ApiError>(ApiError::Database),
        },
{
    match rows {
        Ok(rows) => {
            let mut listings: Vec<RoomListing> = Vec::new();
            for i in 0..rows.len()
                invariant
                    listings@.len() == i,
                    forall|j: int| 0 <= j < i ==> lists(#[trigger] listings@[j], rows@[j]),
            {
                let row: &RoomRow = &rows[i];
                listings.push(
                    RoomListing {
                        id: row.id,
                        code: row.code.clone(),
                        name: row.name.clone(),
                        owner: row.owner.clone(),
                        system: row.is_system == 1,
                        joined: row.is_member == 1,
                    },
                );
            }
            Ok(listings)
        },
        Err(_) => Err(ApiError::Database),
    }
}

/// The lobby stays whoever asks, and any other room goes only for its owner.
pub proof fn law_rooms_go_only_for_their_owner(uid: i64, room: (i64, i64))
    ensures
        deletion(uid, Some(room)) == DeleteRoomOutcome::Deleted <==> room.0 == uid && room.1 != 1,
{
}

/// A room is found by everyone who types its code, in letters of either case and
/// with white space round it. So is the lobby.
pub proof fn law_codes_can_be_typed(uid: i64, input: RoomRequest, code: Seq<char>)
    requires
        is_room_code(code) || code == "LOBBY"@,
        same_ignoring_case(trimmed(optional_text(input.code)), code),
    ensures
        code_asked(Ok(uid), input) == Ok::<(i64, Seq<char>), ApiError>((uid, code)),
{
    reveal_strlit("LOBBY");
    let text = trimmed(optional_text(input.code));
    assert(in_capitals(code));
    assert(lowercase(text).len() == lowercase(code).len());
    assert forall|i: int| 0 <= i < text.len() implies is_alphanumeric(#[trigger] text[i])
        && ascii_upper(text[i]) == code[i] by {
        assert(lowercase(text)[i] == lowercase(code)[i]);
        assert('A' <= code[i] <= 'Z' || '0' <= code[i] <= '9');
    }
    assert(capitals(text) =~= code);
}

/// A name that is accepted is never empty, never longer than forty characters,
/// and has no white space at its ends.
pub proof fn law_room_names(user: Result<i64, ApiError>, input: RoomRequest)
    ensures
        room_asked(user, input) matches Ok((_, name)) ==> 0 < name.len() <= 40 && trimmed(name)
            == name,
{
    lemma_unnamed();
    match input.name {
        Some(name) => {
            lemma_trimmed_again(name@);
        },
        None => {},
    }
}

/// A listing says that a room is joined exactly where the mark of membership in its
/// row is one, that it is the server's own exactly where that mark is one, and
/// otherwise shows the row's columns.
pub proof fn law_listings_show_their_marks(listing: RoomListing, row: RoomRow)
    requires
        lists(listing, row),
    ensures
        listing.joined <==> row.is_member == 1,
        listing.system <==> row.is_system == 1,
        listing.id == row.id,
        listing.code@ == row.code@,
        listing.name@ == row.name@,
        listing.owner@ == row.owner@,
{
}

/// Whether a room is shown as joined depends on the mark of membership alone, and
/// whether it is shown as the server's own on the other mark alone.
pub proof fn law_marks_do_not_mix(a: RoomListing, row_a: RoomRow, b: RoomListing, row_b: RoomRow)
    requires
        lists(a, row_a),
        lists(b, row_b),
    ensures
        row_a.is_member == row_b.is_member ==> a.joined == b.joined,
        row_a.is_member == 1 && row_b.is_member != 1 ==> a.joined && !b.joined,
        row_a.is_system == row_b.is_system ==> a.system == b.system,
        row_a.is_system == 1 && row_b.is_system != 1 ==> a.system && !b.system,
{
}

/// A room gets the name that was sent, without white space at its ends, or the one
/// that stands for none; it belongs to who asked. Only a name of more than forty
/// characters is refused.
pub proof fn law_a_room_is_what_was_asked_for(user: Result<i64, ApiError>, input: RoomRequest)
    ensures
        user is Err ==> room_asked(user, input) is Err && room_asked(user, input)->Err_0
            == user->Err_0,
        user matches Ok(uid) ==> match input.name {
            None => room_asked(user, input) == Ok::<(i64, Seq<char>), ApiError>(
                (uid, "新聊天室"@),
            ),
            Some(name) => room_asked(user, input) == if trimmed(name@).len() > 40 {
                Err(ApiError::RoomNameTooLong)
            } else if trimmed(name@).len() > 0 {
                Ok((uid, trimmed(name@)))
            } else {
                Ok::<(i64, Seq<char>), ApiError>((uid, "新聊天室"@))
            },
        },
{
    lemma_unnamed();
}

/// A text is refused as a code exactly where it has not six characters and is not
/// the lobby's. What is looked up for who asked has every small ASCII letter of it
/// turned into its capital, and is otherwise the text itself where that is made of
/// ASCII letters and digits.
pub proof fn law_a_code_is_what_was_typed(user: Result<i64, ApiError>, input: RoomRequest)
    ensures
        ({
            let text = trimmed(optional_text(input.code));
            let asked = code_asked(user, input);
            &&& user is Err ==> asked is Err && asked->Err_0 == user->Err_0
            &&& user is Ok && text.len() != 6 && !same_ignoring_case(text, "LOBBY"@) ==> asked is Err
                && asked->Err_0 == ApiError::BadRoomCode
            &&& user is Ok && (text.len() == 6 || same_ignoring_case(text, "LOBBY"@)) ==> asked is Ok
                && asked->Ok_0.0 == user->Ok_0
            &&& asked is Ok && (forall|i: int|
                0 <= i < text.len() ==> is_alphanumeric(#[trigger] text[i])) ==> {
                &&& asked->Ok_0.1.len() == text.len()
                &&& forall|i: int|
                    0 <= i < text.len() ==> #[trigger] asked->Ok_0.1[i] == if 'a' <= text[i]
                        <= 'z' {
                        (text[i] as u32 - 32) as u32 as char
                    } else {
                        text[i]
                    }
            }
            &&& asked is Ok && !(forall|i: int|
                0 <= i < text.len() ==> is_alphanumeric(#[trigger] text[i])) ==> asked->Ok_0.1
                == uppercase(text)
        }),
{
}

/// What becomes of a room that is to go: one that is not there is not found, the
/// server's own stays whoever asks, anyone else's stays for who does not own it.
pub proof fn law_deletions(uid: i64, owner: i64, system: i64)
    ensures
        deletion(uid, None) == DeleteRoomOutcome::NotFound,
        system == 1 ==> deletion(uid, Some((owner, system))) == DeleteRoomOutcome::SystemRoom,
        system != 1 && owner != uid ==> deletion(uid, Some((owner, system)))
            == DeleteRoomOutcome::NotOwner,
        system != 1 ==> deletion(owner, Some((owner, system))) == DeleteRoomOutcome::Deleted,
{
}

/// A room's code has six characters, each of them a capital or a digit.
pub proof fn law_room_codes(code: Seq<char>)
    ensures
        is_room_code(code) <==> code.len() == 6 && forall|i: int|
            0 <= i < 6 ==> 'A' <= #[trigger] code[i] <= 'Z' || '0' <= code[i] <= '9',
{
}

/// What a call of `list_rooms` gives: a listing for each row, in the order of the
/// rows, that shows a room as joined exactly where the row's mark of membership is
/// one and as the server's own exactly where the other mark is one, whatever the
/// remaining columns hold. Rows that could not be read are a failure of the database.
pub proof fn law_rooms_are_listed_by_their_rows(
    rows: Vec<RoomRow>,
    listed: Result<Vec<RoomListing>, ApiError>,
    i: int,
)
    requires
        call_ensures(list_rooms, (Ok::<Vec<RoomRow>, StorageError>(rows),), listed),
        0 <= i < rows@.len(),
    ensures
        listed is Ok,
        listed->Ok_0@.len() == rows@.len(),
        listed->Ok_0@[i].joined <==> rows@[i].is_member == 1,
        listed->Ok_0@[i].system <==> rows@[i].is_system == 1,
        listed->Ok_0@[i].id == rows@[i].id,
        listed->Ok_0@[i].code@ == rows@[i].code@,
        listed->Ok_0@[i].name@ == rows@[i].name@,
        listed->Ok_0@[i].owner@ == rows@[i].owner@,
{
    assert(lists(listed->Ok_0@[i], rows@[i]));
}

/// Two calls of `list_rooms`, and a row of each: rows with the same mark of membership
/// are shown alike as joined or not, and rows with the same mark of the server alike
/// as its own or not, though they agree in nothing else.
pub proof fn law_two_lists_of_rooms(
    rows: Vec<RoomRow>,
    listed: Result<Vec<RoomListing>, ApiError>,
    i: int,
    other_rows: Vec<RoomRow>,
    other_listed: Result<Vec<RoomListing>, ApiError>,
    j: int,
)
    requires
        call_ensures(list_rooms, (Ok::<Vec<RoomRow>, StorageError>(rows),), listed),
        call_ensures(list_rooms, (Ok::<Vec<RoomRow>, StorageError>(other_rows),), other_listed),
        0 <= i < rows@.len(),
        0 <= j < other_rows@.len(),
    ensures
        rows@[i].is_member == other_rows@[j].is_member ==> listed->Ok_0@[i].joined
            == other_listed->Ok_0@[j].joined,
        rows@[i].is_system == other_rows@[j].is_system ==> listed->Ok_0@[i].system
            == other_listed->Ok_0@[j].system,
        rows@[i].is_member == 1 && other_rows@[j].is_member != 1 ==> listed->Ok_0@[i].joined
            && !other_listed->Ok_0@[j].joined,
        rows@[i].is_system == 1 && other_rows@[j].is_system != 1 ==> listed->Ok_0@[i].system
            && !other_listed->Ok_0@[j].system,
{
    law_rooms_are_listed_by_their_rows(rows, listed, i);
    law_rooms_are_listed_by_their_rows(other_rows, other_listed, j);
}

/// From asking for a room to having it: the room that was stored goes to the client
/// under the name that was asked for, and may be stored as long as its owner has
/// fewer than a hundred.
pub proof fn law_from_asking_to_having_a_room(
    sessions: &mut Sessions,
    headers: &HeaderMap,
    input: RoomRequest,
    now: i64,
    draft: RoomDraft,
    owned: i64,
    counted: Result<(), ApiError>,
    id: i64,
    code: String,
    room: Result<Room, ApiError>,
)
    requires
        call_ensures(create_room, (sessions, headers, input, now), Ok::<RoomDraft, ApiError>(draft)),
        call_ensures(RoomDraft::counted, (&draft, Ok::<i64, StorageError>(owned)), counted),
        call_ensures(
            RoomDraft::stored,
            (draft, code, Ok::<i64, StorageError>(id)),
            room,
        ),
    ensures
        counted is Ok <==> owned < 100,
        counted matches Err(error) ==> error == ApiError::TooManyRooms,
        room is Ok,
        room->Ok_0.id == id,
        room->Ok_0.code@ == code@,
        input.name matches Some(name) ==> trimmed(name@).len() > 0 ==> room->Ok_0.name@ == trimmed(
            name@,
        ),
        input.name is None ==> room->Ok_0.name@ == "新聊天室"@,
{
    law_a_room_is_what_was_asked_for(
        signed_in_as(old(sessions)@, *headers, now as int),
        input,
    );
}

/// What a deletion is answered with. Only the owner of a room that is not the
/// server's own gets a yes.
pub proof fn law_who_may_delete_a_room(
    uid: i64,
    owner: i64,
    system: i64,
    outcome: DeleteRoomOutcome,
    answer: Result<(), ApiError>,
)
    requires
        call_ensures(delete_room, (uid, Some((owner, system))), outcome),
        call_ensures(deletion_answer, (Ok::<DeleteRoomOutcome, StorageError>(outcome),), answer),
    ensures
        answer is Ok <==> system != 1 && owner == uid,
        system == 1 ==> answer == Err::<(), ApiError>(ApiError::SystemRoom),
        system != 1 && owner != uid ==> answer == Err::<(), ApiError>(ApiError::NotOwner),
{
}

/// A room that was found by its code is the one that the client gets to see, and one
/// that was not found is reported as such.
pub proof fn law_joining_gives_the_room_found(
    row: Result<Option<Room>, StorageError>,
    room: Result<Room, ApiError>,
)
    requires
        call_ensures(room_found, (row,), room),
    ensures
        row matches Ok(Some(found)) ==> room is Ok && room->Ok_0.id == found.id
            && room->Ok_0.code@ == found.code@ && room->Ok_0.name@ == found.name@,
        row matches Ok(None) ==> room is Err && room->Err_0 == ApiError::NoSuchRoom,
        row is Err ==> room is Err && room->Err_0 == ApiError::Database,
{
}

/// A code is used exactly where nobody has it yet.
pub proof fn law_codes_are_not_shared(code: String, taken: bool, choice: CodeChoice)
    requires
        call_ensures(choose_code, (code, taken), choice),
    ensures
        taken ==> choice is Again,
        !taken ==> choice == CodeChoice::Use(code),
{
}

/// Where the database fails, or a room is not there, whoever asked is told just that.
pub proof fn law_rooms_that_cannot_be_had(
    error: StorageError,
    listed: Result<Vec<RoomListing>, ApiError>,
    draft: &RoomDraft,
    counted: Result<(), ApiError>,
    spent: RoomDraft,
    code: String,
    room: Result<Room, ApiError>,
    failed: Result<(), ApiError>,
    uid: i64,
    outcome: DeleteRoomOutcome,
    missing: Result<(), ApiError>,
)
    requires
        call_ensures(list_rooms, (Err::<Vec<RoomRow>, StorageError>(error),), listed),
        call_ensures(RoomDraft::counted, (draft, Err::<i64, StorageError>(error)), counted),
        call_ensures(RoomDraft::stored, (spent, code, Err::<i64, StorageError>(error)), room),
        call_ensures(deletion_answer, (Err::<DeleteRoomOutcome, StorageError>(error),), failed),
        call_ensures(delete_room, (uid, None), outcome),
        call_ensures(deletion_answer, (Ok::<DeleteRoomOutcome, StorageError>(outcome),), missing),
    ensures
        listed == Err::<Vec<RoomListing>, ApiError>(ApiError::Database),
        counted == Err::<(), ApiError>(ApiError::Database),
        room is Err && room->Err_0 == ApiError::Database,
        failed == Err::<(), ApiError>(ApiError::Database),
        missing == Err::<(), ApiError>(ApiError::NoSuchRoom),
{
}

/// Who makes a room or joins one is the user whom the request's token belongs to. A
/// room is looked up under the code that was typed: where that is made of ASCII
/// letters and digits, with its letters turned into capitals.
pub proof fn law_rooms_are_asked_for_by_their_user(
    sessions: &mut Sessions,
    headers: &HeaderMap,
    input: RoomRequest,
    now: i64,
    draft: RoomDraft,
    owner: i64,
    other_sessions: &mut Sessions,
    other_headers: &HeaderMap,
    other_input: RoomRequest,
    join: JoinRequest,
    member: i64,
    code: &str,
)
    requires
        call_ensures(create_room, (sessions, headers, input, now), Ok::<RoomDraft, ApiError>(draft)),
        call_ensures(RoomDraft::uid, (&draft,), owner),
        call_ensures(
            join_room,
            (other_sessions, other_headers, other_input, now),
            Ok::<JoinRequest, ApiError>(join),
        ),
        call_ensures(JoinRequest::uid, (&join,), member),
        call_ensures(JoinRequest::code, (&join,), code),
    ensures
        match token_in(*headers) {
            Some(token) => old(sessions)@.contains_key(token) && old(sessions)@[token].user_id
                == owner && old(sessions)@[token].expires_at > now,
            None => false,
        },
        match token_in(*other_headers) {
            Some(token) => old(other_sessions)@.contains_key(token) && old(
                other_sessions,
            )@[token].user_id == member && old(other_sessions)@[token].expires_at > now,
            None => false,
        },
        other_input.code is Some,
        ({
            let text = trimmed(other_input.code->0@);
            &&& text.len() == 6 || same_ignoring_case(text, "LOBBY"@)
            &&& (forall|i: int| 0 <= i < text.len() ==> is_alphanumeric(#[trigger] text[i])) ==> {
                &&& code@.len() == text.len()
                &&& forall|i: int|
                    0 <= i < text.len() ==> #[trigger] code@[i] == if 'a' <= text[i] <= 'z' {
                        (text[i] as u32 - 32) as u32 as char
                    } else {
                        text[i]
                    }
            }
        }),
{
    reveal_strlit("LOBBY");
    let user = signed_in_as(old(sessions)@, *headers, now as int);
    let other_user = signed_in_as(old(other_sessions)@, *other_headers, now as int);
    assert(room_asked(user, input) == Ok::<(i64, Seq<char>), ApiError>(draft@));
    assert(code_asked(other_user, other_input) == Ok::<(i64, Seq<char>), ApiError>(join@));
    law_a_room_is_what_was_asked_for(user, input);
    law_a_code_is_what_was_typed(other_user, other_input);
    law_requests_come_from_their_user(old(sessions)@, *headers, now as int, owner);
    law_requests_come_from_their_user(old(other_sessions)@, *other_headers, now as int, member);
    if other_input.code is None {
        assert(trimmed(optional_text(other_input.code)) =~= Seq::empty());
        assert(lowercase(Seq::empty()).len() != lowercase("LOBBY"@).len());
    }
}

} // verus!
