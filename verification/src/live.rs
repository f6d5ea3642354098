//! A connection over which a client gets the messages of a room as they are sent.

use crate::account::{signed_in, signed_in_as};
use crate::api::{viewed, ApiError, StorageError};
use crate::headers::{
    after_request, origin_allowed, session_token, token_in, websocket_origin_allowed,
};
use crate::messages::MessageEvent;
use crate::sessions::{admits, after_use, session_active, Session, Sessions, SESSION_TTL_SECS};
use axum::http::HeaderMap;
use vstd::prelude::*;
use vstd::string::*;

verus! {

/// What a client says: which room it wants to follow.
pub struct WebSocketCommand {
    pub room: Option<i64>,
}

/// What comes in over a connection.
pub enum Frame {
    /// A text, with the command that it holds if it holds one.
    Text(Option<WebSocketCommand>),
    Ping(Vec<u8>),
    Close,
    /// Anything else that is whole.
    Other,
    /// The connection has ended or failed.
    Gone,
}

/// What the server tells those who follow a room.
pub enum Broadcast {
    Message(MessageEvent),
    /// Some messages were missed.
    Lagged,
    /// There will be no more.
    Closed,
}

/// What is sent to the client.
pub enum LiveMessage {
    /// The client's user is not in the room.
    NotMember,
    /// The client follows the room from now on.
    Subscribed(i64),
    /// A message of the room.
    Message(MessageEvent),
    /// The client has to catch up.
    SyncRequired,
}

/// What is to be done next.
pub enum LiveAction {
    /// To wait for what comes.
    Wait,
    /// To end the connection.
    Close,
    /// To find out whether the user is in the room.
    AskMembership(i64),
    /// To send this. Where that fails the connection ends.
    Send(LiveMessage),
    /// To send this, whether it arrives or not.
    TrySend(LiveMessage),
    /// To answer a ping. Where that fails the connection ends.
    Pong(Vec<u8>),
}

/// A connection: whose it is, and which room it follows.
pub struct LiveSession {
    uid: i64,
    token: String,
    room: Option<i64>,
    asked: Option<i64>,
}

/// A connection, with the token as its characters.
pub ghost struct LiveView {
    pub uid: i64,
    pub token: Seq<char>,
    /// The room that it follows.
    pub room: Option<i64>,
    /// The room that the client has just asked for.
    pub asked: Option<i64>,
}

impl View for LiveSession {
    type V = LiveView;

    closed spec fn view(&self) -> LiveView {
        LiveView { uid: self.uid, token: self.token@, room: self.room, asked: self.asked }
    }
}

/// The connection that a request opens, or why it opens none.
pub open spec fn connection(
    all: Map<Seq<char>, Session>,
    headers: HeaderMap,
    now: int,
) -> Result<LiveView, ApiError> {
    if !origin_allowed(headers) {
        Err(ApiError::WrongOrigin)
    } else {
        match (signed_in_as(all, headers, now), token_in(headers)) {
            (Ok(uid), Some(token)) => Ok(LiveView { uid, token, room: None, asked: None }),
            _ => Err(ApiError::NotLoggedIn),
        }
    }
}

/// Opens a connection.
pub fn websocket(sessions: &mut Sessions, headers: &HeaderMap, current_time: i64) -> (r: Result<
    LiveSession,
    ApiError,
>)
    requires
        current_time + SESSION_TTL_SECS <= i64::MAX,
    ensures
        viewed(r) == connection(old(sessions)@, *headers, current_time as int),
        final(sessions)@ == if origin_allowed(*headers) {
            after_request(old(sessions)@, *headers, current_time)
        } else {
            old(sessions)@
        },
{
    if !websocket_origin_allowed(headers) {
        return Err(ApiError::WrongOrigin);
    }
    let uid: i64 = signed_in(sessions, headers, current_time)?;
    match session_token(headers) {
        Some(token) => Ok(LiveSession { uid, token: token.to_owned(), room: None, asked: None }),
        None => Err(ApiError::NotLoggedIn),
    }
}

/// What a frame comes to, where `active` says whether the session still holds.
pub open spec fn on_frame(state: LiveView, active: bool, frame: Frame) -> (LiveView, LiveAction) {
    match frame {
        Frame::Gone => (state, LiveAction::Close),
        _ => if !active {
            (state, LiveAction::Close)
        } else {
            match frame {
                Frame::Text(Some(WebSocketCommand { room: Some(room) })) => if room > 0 {
                    (LiveView { asked: Some(room), ..state }, LiveAction::AskMembership(room))
                } else {
                    (state, LiveAction::Wait)
                },
                Frame::Ping(payload) => (state, LiveAction::Pong(payload)),
                Frame::Close => (state, LiveAction::Close),
                _ => (state, LiveAction::Wait),
            }
        },
    }
}

/// What it comes to that the user is in the room, or not.
pub open spec fn on_member(state: LiveView, member: bool) -> (LiveView, LiveAction) {
    match state.asked {
        Some(room) => if member {
            (
                LiveView { room: Some(room), asked: None, ..state },
                LiveAction::Send(LiveMessage::Subscribed(room)),
            )
        } else {
            (
                LiveView { asked: None, ..state },
                LiveAction::TrySend(LiveMessage::NotMember),
            )
        },
        None => (state, LiveAction::Wait),
    }
}

/// What a broadcast comes to: a message goes on to the client where it is of the
/// room that the connection follows.
pub open spec fn on_broadcast(state: LiveView, broadcast: Broadcast) -> LiveAction {
    match broadcast {
        Broadcast::Message(event) => if state.room == Some(event.room_id) {
            LiveAction::Send(LiveMessage::Message(event))
        } else {
            LiveAction::Wait
        },
        Broadcast::Lagged => LiveAction::Send(LiveMessage::SyncRequired),
        Broadcast::Closed => LiveAction::Close,
    }
}

/// The sessions after they were asked whether the connection's session holds.
pub open spec fn after_check(all: Map<Seq<char>, Session>, state: LiveView, now: i64) -> Map<
    Seq<char>,
    Session,
> {
    if still_active(all, state, now as int) {
        after_use(all, state.token, now)
    } else {
        all.remove(state.token)
    }
}

/// The connection's session holds at the time `now`.
pub open spec fn still_active(all: Map<Seq<char>, Session>, state: LiveView, now: int) -> bool {
    admits(all, state.token, now) == Some(state.uid)
}

impl LiveSession {
    /// The user whose connection it is.
    pub fn uid(&self) -> (r: i64)
        ensures
            r == self@.uid,
    {
        self.uid
    }

    /// Goes on with what came in. The session must still hold, and is prolonged.
    pub fn incoming(&mut self, sessions: &mut Sessions, frame: Frame, current_time: i64) -> (r:
        LiveAction)
        requires
            current_time + SESSION_TTL_SECS <= i64::MAX,
        ensures
            (final(self)@, r) == on_frame(
                old(self)@,
                still_active(old(sessions)@, old(self)@, current_time as int),
                frame,
            ),
            final(sessions)@ == if frame is Gone {
                old(sessions)@
            } else {
                after_check(old(sessions)@, old(self)@, current_time)
            },
    {
        match frame {
            Frame::Gone => {
                return LiveAction::Close;
            },
            _ => {},
        }
        if !session_active(sessions, self.token.as_str(), self.uid, current_time) {
            return LiveAction::Close;
        }
        match frame {
            Frame::Text(Some(command)) => match command.room {
                Some(room) => if room > 0 {
                    self.asked = Some(room);
                    LiveAction::AskMembership(room)
                } else {
                    LiveAction::Wait
                },
                None => LiveAction::Wait,
            },
            Frame::Ping(payload) => LiveAction::Pong(payload),
            Frame::Close => LiveAction::Close,
            _ => LiveAction::Wait,
        }
    }

    /// Goes on with whether the user is in the room that was asked for, as it was
    /// read.
    pub fn membership(&mut self, member: Result<bool, StorageError>) -> (r: LiveAction)
        ensures
            (final(self)@, r) == on_member(
                old(self)@,
                member == Ok::<bool, StorageError>(true),
            ),
    {
        match self.asked {
            Some(room) => {
                self.asked = None;
                match member {
                    Ok(true) => {
                        self.room = Some(room);
                        LiveAction::Send(LiveMessage::Subscribed(room))
                    },
                    _ => LiveAction::TrySend(LiveMessage::NotMember),
                }
            },
            None => LiveAction::Wait,
        }
    }

    /// Goes on with a broadcast.
    pub fn event(&self, broadcast: Broadcast) -> (r: LiveAction)
        ensures
            r == on_broadcast(self@, broadcast),
    {
        match broadcast {
            Broadcast::Message(event) => match self.room {
                Some(room) => if room == event.room_id {
                    LiveAction::Send(LiveMessage::Message(event))
                } else {
                    LiveAction::Wait
                },
                None => LiveAction::Wait,
            },
            Broadcast::Lagged => LiveAction::Send(LiveMessage::SyncRequired),
            Broadcast::Closed => LiveAction::Close,
        }
    }

    /// Goes on after some time has passed: the session must still hold.
    pub fn tick(&self, sessions: &mut Sessions, current_time: i64) -> (r: LiveAction)
        requires
            current_time + SESSION_TTL_SECS <= i64::MAX,
        ensures
            r == on_tick(still_active(old(sessions)@, self@, current_time as int)),
            final(sessions)@ == after_check(old(sessions)@, self@, current_time),
    {
        if session_active(sessions, self.token.as_str(), self.uid, current_time) {
            LiveAction::Wait
        } else {
            LiveAction::Close
        }
    }
}

/// What the passing of time comes to.
pub open spec fn on_tick(active: bool) -> LiveAction {
    if active {
        LiveAction::Wait
    } else {
        LiveAction::Close
    }
}

/// Something that happens to a connection.
pub ghost enum LiveInput {
    Frame { active: bool, frame: Frame },
    Member(bool),
    Broadcast(Broadcast),
    Tick { active: bool },
}

/// What something comes to.
pub open spec fn live_step(state: LiveView, input: LiveInput) -> (LiveView, LiveAction) {
    match input {
        LiveInput::Frame { active, frame } => on_frame(state, active, frame),
        LiveInput::Member(member) => on_member(state, member),
        LiveInput::Broadcast(broadcast) => (state, on_broadcast(state, broadcast)),
        LiveInput::Tick { active } => (state, on_tick(active)),
    }
}

/// The connection after all that happened to it.
pub open spec fn live_reached(uid: i64, token: Seq<char>, inputs: Seq<LiveInput>) -> LiveView
    decreases inputs.len(),
{
    if inputs.len() == 0 {
        LiveView { uid, token, room: None, asked: None }
    } else {
        live_step(live_reached(uid, token, inputs.drop_last()), inputs.last()).0
    }
}

/// The client asked for the room at `i`, while the session held.
pub open spec fn asked_at(inputs: Seq<LiveInput>, i: int, room: i64) -> bool {
    &&& 0 <= i < inputs.len()
    &&& inputs[i] matches LiveInput::Frame {
        active: true,
        frame: Frame::Text(Some(WebSocketCommand { room: Some(wanted) })),
    } && wanted == room && room > 0
}

/// The user was found in the room at `j`, which the client had asked for at `i`.
pub open spec fn confirmed_at(inputs: Seq<LiveInput>, i: int, j: int, room: i64) -> bool {
    &&& asked_at(inputs, i, room)
    &&& i < j < inputs.len()
    &&& inputs[j] == LiveInput::Member(true)
}

proof fn lemma_live_reached(uid: i64, token: Seq<char>, inputs: Seq<LiveInput>)
    ensures
        live_reached(uid, token, inputs).uid == uid,
        live_reached(uid, token, inputs).token == token,
        live_reached(uid, token, inputs).asked matches Some(room) ==> exists|i: int|
            #[trigger] asked_at(inputs, i, room),
        live_reached(uid, token, inputs).room matches Some(room) ==> exists|i: int, j: int|
            #[trigger] confirmed_at(inputs, i, j, room),
    decreases inputs.len(),
{
    if inputs.len() > 0 {
        let before = inputs.drop_last();
        let last = inputs.len() - 1;
        lemma_live_reached(uid, token, before);
        let old_state = live_reached(uid, token, before);
        let new_state = live_reached(uid, token, inputs);
        assert forall|i: int, room: i64| #[trigger] asked_at(before, i, room) implies asked_at(
            inputs,
            i,
            room,
        ) by {
            assert(before[i] == inputs[i]);
        }
        assert forall|i: int, j: int, room: i64| #[trigger]
            confirmed_at(before, i, j, room) implies confirmed_at(inputs, i, j, room) by {
            assert(asked_at(before, i, room));
            assert(before[j] == inputs[j]);
        }
        match new_state.asked {
            Some(room) => {
                if old_state.asked == Some(room) {
                    let i = choose|i: int| #[trigger] asked_at(before, i, room);
                    assert(asked_at(inputs, i, room));
                } else {
                    assert(asked_at(inputs, last, room));
                }
            },
            None => {},
        }
        match new_state.room {
            Some(room) => {
                if old_state.room == Some(room) {
                    let (i, j) = choose|i: int, j: int| #[trigger]
                        confirmed_at(before, i, j, room);
                    assert(confirmed_at(inputs, i, j, room));
                } else {
                    let i = choose|i: int| #[trigger] asked_at(before, i, room);
                    assert(asked_at(inputs, i, room));
                    assert(confirmed_at(inputs, i, last, room));
                }
            },
            None => {},
        }
    }
}

/// A client is sent the messages of no other room than one that it asked for
/// while its session held, and in which its user was found after that.
pub proof fn law_only_members_follow_a_room(
    uid: i64,
    token: Seq<char>,
    inputs: Seq<LiveInput>,
    event: MessageEvent,
)
    requires
        on_broadcast(live_reached(uid, token, inputs), Broadcast::Message(event)) == LiveAction::Send(
            LiveMessage::Message(event),
        ),
    ensures
        exists|i: int, j: int| #[trigger] confirmed_at(inputs, i, j, event.room_id),
{
    lemma_live_reached(uid, token, inputs);
}

/// A client that follows a room is sent every message of it that is broadcast,
/// until it follows another one.
pub proof fn law_followers_get_every_message(
    uid: i64,
    token: Seq<char>,
    inputs: Seq<LiveInput>,
    later: Seq<LiveInput>,
    event: MessageEvent,
)
    requires
        live_reached(uid, token, inputs).room == Some(event.room_id),
        forall|k: int|
            0 <= k < later.len() ==> #[trigger] later[k] != LiveInput::Member(true),
    ensures
        on_broadcast(live_reached(uid, token, inputs + later), Broadcast::Message(event))
            == LiveAction::Send(LiveMessage::Message(event)),
    decreases later.len(),
{
    if later.len() == 0 {
        assert(inputs + later =~= inputs);
    } else {
        assert((inputs + later).drop_last() =~= inputs + later.drop_last());
        assert forall|k: int| 0 <= k < later.len() - 1 implies #[trigger] later.drop_last()[k]
            != LiveInput::Member(true) by {
            assert(later[k] != LiveInput::Member(true));
        }
        law_followers_get_every_message(uid, token, inputs, later.drop_last(), event);
        assert(later[later.len() - 1] != LiveInput::Member(true));
    }
}

/// Once the session no longer holds the connection ends with the next thing that
/// the client says, or with the next look at the clock.
pub proof fn law_connections_end_with_their_session(state: LiveView, frame: Frame)
    ensures
        live_step(state, LiveInput::Frame { active: false, frame }).1 is Close,
        live_step(state, LiveInput::Tick { active: false }).1 is Close,
{
}

/// Nothing that asks for a room or answers such a question.
pub open spec fn leaves_the_room_alone(input: LiveInput) -> bool {
    match input {
        LiveInput::Member(_) => false,
        LiveInput::Frame { active, frame } => match frame {
            Frame::Text(Some(command)) => command.room is None,
            _ => true,
        },
        _ => true,
    }
}

proof fn lemma_room_left_alone(
    uid: i64,
    token: Seq<char>,
    inputs: Seq<LiveInput>,
    later: Seq<LiveInput>,
)
    requires
        forall|k: int| 0 <= k < later.len() ==> leaves_the_room_alone(#[trigger] later[k]),
    ensures
        live_reached(uid, token, inputs + later) == live_reached(uid, token, inputs),
    decreases later.len(),
{
    if later.len() == 0 {
        assert(inputs + later =~= inputs);
    } else {
        let front = later.drop_last();
        assert((inputs + later).drop_last() =~= inputs + front);
        assert forall|k: int| 0 <= k < front.len() implies leaves_the_room_alone(
            #[trigger] front[k],
        ) by {
            assert(leaves_the_room_alone(later[k]));
        }
        lemma_room_left_alone(uid, token, inputs, front);
        assert(leaves_the_room_alone(later[later.len() - 1]));
        assert((inputs + later).last() == later.last());
    }
}

/// Whatever room a connection followed before, a client that asks for a room while
/// its session holds, and whose user is then found in it, follows that room: it is
/// told so, it is sent what is broadcast to that room and nothing of any other.
pub proof fn law_a_confirmed_room_is_followed(
    uid: i64,
    token: Seq<char>,
    inputs: Seq<LiveInput>,
    room: i64,
    between: Seq<LiveInput>,
    later: Seq<LiveInput>,
    event: MessageEvent,
)
    requires
        room > 0,
        forall|k: int| 0 <= k < between.len() ==> leaves_the_room_alone(#[trigger] between[k]),
        forall|k: int| 0 <= k < later.len() ==> leaves_the_room_alone(#[trigger] later[k]),
    ensures
        ({
            let request = LiveInput::Frame {
                active: true,
                frame: Frame::Text(Some(WebSocketCommand { room: Some(room) })),
            };
            let asked = live_reached(uid, token, inputs.push(request) + between);
            let state = live_reached(
                uid,
                token,
                (inputs.push(request) + between).push(LiveInput::Member(true)) + later,
            );
            &&& live_step(live_reached(uid, token, inputs), request).1 == LiveAction::AskMembership(
                room,
            )
            &&& live_step(asked, LiveInput::Member(true)).1 == LiveAction::Send(
                LiveMessage::Subscribed(room),
            )
            &&& state.room == Some(room)
            &&& live_step(state, LiveInput::Broadcast(Broadcast::Message(event))).1
                == if event.room_id == room {
                LiveAction::Send(LiveMessage::Message(event))
            } else {
                LiveAction::Wait
            }
        }),
{
    let request = LiveInput::Frame {
        active: true,
        frame: Frame::Text(Some(WebSocketCommand { room: Some(room) })),
    };
    let first = inputs.push(request);
    let second = (first + between).push(LiveInput::Member(true));
    assert(first.drop_last() =~= inputs);
    lemma_room_left_alone(uid, token, first, between);
    assert(second.drop_last() =~= first + between);
    lemma_room_left_alone(uid, token, second, later);
}

/// A client whose user is not found in the room that it asked for is told so, and
/// goes on following what it followed.
pub proof fn law_an_unconfirmed_room_is_not_followed(
    uid: i64,
    token: Seq<char>,
    inputs: Seq<LiveInput>,
    room: i64,
    between: Seq<LiveInput>,
)
    requires
        room > 0,
        forall|k: int| 0 <= k < between.len() ==> leaves_the_room_alone(#[trigger] between[k]),
    ensures
        ({
            let request = LiveInput::Frame {
                active: true,
                frame: Frame::Text(Some(WebSocketCommand { room: Some(room) })),
            };
            let asked = live_reached(uid, token, inputs.push(request) + between);
            let (state, action) = live_step(asked, LiveInput::Member(false));
            &&& action == LiveAction::TrySend(LiveMessage::NotMember)
            &&& state.room == live_reached(uid, token, inputs).room
        }),
{
    let request = LiveInput::Frame {
        active: true,
        frame: Frame::Text(Some(WebSocketCommand { room: Some(room) })),
    };
    let first = inputs.push(request);
    assert(first.drop_last() =~= inputs);
    lemma_room_left_alone(uid, token, first, between);
}

/// What a connection does with everything else: a ping is answered with what it
/// carried, an end is an end, someone who has missed something is told to catch up,
/// and what asks for nothing is passed over. None of it changes whose connection it
/// is or what it follows, and without a session nothing is answered.
pub proof fn law_frames_and_broadcasts(state: LiveView, payload: Vec<u8>, input: LiveInput)
    ensures
        live_step(state, LiveInput::Frame { active: true, frame: Frame::Ping(payload) }).1
            == LiveAction::Pong(payload),
        live_step(state, LiveInput::Frame { active: true, frame: Frame::Close }).1 is Close,
        live_step(state, LiveInput::Frame { active: true, frame: Frame::Gone }).1 is Close,
        live_step(state, LiveInput::Frame { active: true, frame: Frame::Other }).1 is Wait,
        live_step(state, LiveInput::Frame { active: true, frame: Frame::Text(None) }).1 is Wait,
        live_step(state, LiveInput::Tick { active: true }).1 is Wait,
        live_step(state, LiveInput::Broadcast(Broadcast::Lagged)).1 == LiveAction::Send(
            LiveMessage::SyncRequired,
        ),
        live_step(state, LiveInput::Broadcast(Broadcast::Closed)).1 is Close,
        live_step(state, input).0.uid == state.uid,
        live_step(state, input).0.token == state.token,
        !(input is Member) ==> live_step(state, input).0.room == state.room,
        input matches LiveInput::Frame { active, frame: Frame::Text(Some(command)) } ==> (
        command.room matches Some(room) ==> live_step(state, input).1 == if !active {
            LiveAction::Close
        } else if room > 0 {
            LiveAction::AskMembership(room)
        } else {
            LiveAction::Wait
        }),
        input matches LiveInput::Frame { active: true, frame: Frame::Text(Some(command)) } ==> (
        command.room is None ==> live_step(state, input) == (state, LiveAction::Wait)),
{
}

/// A connection belongs to the user whom the request's token admits, carries that
/// token and follows nothing yet. A request from elsewhere opens none, and neither
/// does one that comes from nobody.
pub proof fn law_connections_belong_to_their_user(
    all: Map<Seq<char>, Session>,
    headers: HeaderMap,
    now: int,
    uid: i64,
    token: Seq<char>,
)
    ensures
        connection(all, headers, now) == Ok::<LiveView, ApiError>(
            LiveView { uid, token, room: None, asked: None },
        ) <==> origin_allowed(headers) && token_in(headers) == Some(token) && all.contains_key(token)
            && all[token].expires_at > now && all[token].user_id == uid,
        connection(all, headers, now) == Err::<LiveView, ApiError>(ApiError::WrongOrigin)
            <==> !origin_allowed(headers),
        connection(all, headers, now) matches Err(error) ==> error == ApiError::WrongOrigin || error
            == ApiError::NotLoggedIn,
        connection(all, headers, now) matches Ok(state) ==> state.room is None && state.asked is None
            && token_in(headers) == Some(state.token) && all.contains_key(state.token)
            && all[state.token].user_id == state.uid,
{
}

/// A connection's session holds as long as its token admits its own user. Each look
/// prolongs it by a week, a session that does not hold is gone after it, and no
/// other session is touched.
pub proof fn law_looks_at_the_session(
    all: Map<Seq<char>, Session>,
    state: LiveView,
    now: i64,
    other: Seq<char>,
)
    requires
        now + 604_800 <= i64::MAX,
    ensures
        still_active(all, state, now as int) <==> all.contains_key(state.token)
            && all[state.token].expires_at > now && all[state.token].user_id == state.uid,
        ({
            let after = after_check(all, state, now);
            &&& after.contains_key(state.token) <==> still_active(all, state, now as int)
            &&& after.contains_key(state.token) ==> after[state.token] == (Session {
                user_id: state.uid,
                expires_at: (now + 604_800) as i64,
            })
            &&& other != state.token ==> after.contains_key(other) == all.contains_key(other)
                && after[other] == all[other]
        }),
{
}

/// What a call of `membership` comes to. Whatever room the connection followed, it
/// follows the one that was asked for from now on where the user is in it, and tells
/// the client so: of what is broadcast next, the messages of that room go to the
/// client, and no others. Else it goes on as it was.
pub proof fn law_membership_switches_rooms(
    live: &mut LiveSession,
    member: Result<bool, StorageError>,
    action: LiveAction,
    next: LiveSession,
    event: MessageEvent,
    sent: LiveAction,
    room: i64,
)
    requires
        call_ensures(LiveSession::membership, (live, member), action),
        old(live)@.asked == Some(room),
        next@ == final(live)@,
        call_ensures(LiveSession::event, (&next, Broadcast::Message(event)), sent),
    ensures
        next@.uid == old(live)@.uid,
        next@.token == old(live)@.token,
        next@.asked is None,
        member == Ok::<bool, StorageError>(true) ==> {
            &&& next@.room == Some(room)
            &&& action == LiveAction::Send(LiveMessage::Subscribed(room))
            &&& sent == if event.room_id == room {
                LiveAction::Send(LiveMessage::Message(event))
            } else {
                LiveAction::Wait
            }
        },
        member != Ok::<bool, StorageError>(true) ==> {
            &&& next@.room == old(live)@.room
            &&& action == LiveAction::TrySend(LiveMessage::NotMember)
            &&& sent == if old(live)@.room == Some(event.room_id) {
                LiveAction::Send(LiveMessage::Message(event))
            } else {
                LiveAction::Wait
            }
        },
{
}

/// Two connections that ask for the same room and whose users are both in it follow
/// the same room, however they differed before.
pub proof fn law_the_room_followed_is_the_last_confirmed(
    one: &mut LiveSession,
    other: &mut LiveSession,
    one_action: LiveAction,
    other_action: LiveAction,
)
    requires
        call_ensures(
            LiveSession::membership,
            (one, Ok::<bool, StorageError>(true)),
            one_action,
        ),
        call_ensures(
            LiveSession::membership,
            (other, Ok::<bool, StorageError>(true)),
            other_action,
        ),
        old(one)@.asked is Some,
        old(one)@.asked == old(other)@.asked,
    ensures
        final(one)@.room == old(one)@.asked,
        final(one)@.room == final(other)@.room,
        one_action == other_action,
{
}

/// What a call of `incoming` makes of a text that asks for a room: while the session
/// holds, the question whether the user is in that room, which a following call of
/// `membership` answers.
pub proof fn law_incoming_asks_for_the_room(
    live: &mut LiveSession,
    sessions: &mut Sessions,
    now: i64,
    room: i64,
    action: LiveAction,
)
    requires
        call_ensures(
            LiveSession::incoming,
            (
                live,
                sessions,
                Frame::Text(Some(WebSocketCommand { room: Some(room) })),
                now,
            ),
            action,
        ),
        room > 0,
    ensures
        final(live)@.room == old(live)@.room,
        final(live)@.uid == old(live)@.uid,
        final(live)@.token == old(live)@.token,
        ({
            let token = old(live)@.token;
            let holds = old(sessions)@.contains_key(token) && old(sessions)@[token].expires_at > now
                && old(sessions)@[token].user_id == old(live)@.uid;
            &&& holds ==> action == LiveAction::AskMembership(room) && final(live)@.asked == Some(
                room,
            )
            &&& !holds ==> action is Close
        }),
{
}

/// What a call of `tick` comes to: the connection goes on exactly where its session
/// holds.
pub proof fn law_a_tick_looks_at_the_session(
    live: &LiveSession,
    sessions: &mut Sessions,
    now: i64,
    action: LiveAction,
)
    requires
        call_ensures(LiveSession::tick, (live, sessions, now), action),
    ensures
        ({
            let token = live@.token;
            let holds = old(sessions)@.contains_key(token) && old(sessions)@[token].expires_at > now
                && old(sessions)@[token].user_id == live@.uid;
            &&& holds ==> action is Wait
            &&& !holds ==> action is Close
        }),
{
}

/// What a call of `websocket` does: a request from elsewhere opens nothing and leaves
/// every session as it was; any other opens a connection of the user whom its token
/// admits, which follows nothing yet.
pub proof fn law_who_gets_a_connection(
    sessions: &mut Sessions,
    headers: &HeaderMap,
    now: i64,
    opened: Result<LiveSession, ApiError>,
    uid: i64,
)
    requires
        call_ensures(websocket, (sessions, headers, now), opened),
        opened is Ok ==> call_ensures(LiveSession::uid, (&opened->Ok_0,), uid),
    ensures
        !origin_allowed(*headers) ==> opened == Err::<LiveSession, ApiError>(ApiError::WrongOrigin)
            && final(sessions)@ == old(sessions)@,
        opened is Ok <==> origin_allowed(*headers) && match token_in(*headers) {
            Some(token) => old(sessions)@.contains_key(token) && old(sessions)@[token].expires_at
                > now,
            None => false,
        },
        opened is Ok ==> {
            &&& token_in(*headers) == Some(opened->Ok_0@.token)
            &&& uid == old(sessions)@[opened->Ok_0@.token].user_id
            &&& uid == opened->Ok_0@.uid
            &&& opened->Ok_0@.room is None
            &&& opened->Ok_0@.asked is None
        },
        opened matches Err(error) ==> error == ApiError::WrongOrigin || error
            == ApiError::NotLoggedIn,
{
    law_connections_belong_to_their_user(
        old(sessions)@,
        *headers,
        now as int,
        old(sessions)@[token_in(*headers)->0].user_id,
        token_in(*headers)->0,
    );
    assert(viewed(opened) == connection(old(sessions)@, *headers, now as int));
}

/// What a call of `incoming` does to the sessions: a connection that is gone is not
/// looked into any more, and any other frame counts as a use of its own session and of
/// no other.
pub proof fn law_frames_use_their_session(
    live: &mut LiveSession,
    sessions: &mut Sessions,
    frame: Frame,
    now: i64,
    action: LiveAction,
    other: Seq<char>,
)
    requires
        call_ensures(LiveSession::incoming, (live, sessions, frame, now), action),
        now + 604_800 <= i64::MAX,
    ensures
        frame is Gone ==> final(sessions)@ == old(sessions)@ && action is Close,
        other != old(live)@.token ==> final(sessions)@.contains_key(other) == old(
            sessions,
        )@.contains_key(other) && final(sessions)@[other] == old(sessions)@[other],
        !(frame is Gone) && action !is Close ==> final(sessions)@.contains_key(old(live)@.token)
            && final(sessions)@[old(live)@.token] == (Session {
            user_id: old(live)@.uid,
            expires_at: (now + 604_800) as i64,
        }),
        final(live)@.uid == old(live)@.uid,
        final(live)@.token == old(live)@.token,
        final(live)@.room == old(live)@.room,
{
    law_looks_at_the_session(old(sessions)@, old(live)@, now, other);
    law_looks_at_the_session(old(sessions)@, old(live)@, now, old(live)@.token);
}

} // verus!
