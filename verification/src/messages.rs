//! Messages: which ones a client reads, and which ones are stored.

use crate::account::{law_requests_come_from_their_user, signed_in, signed_in_as};
use crate::api::{viewed, ApiError, StorageError};
use crate::headers::{after_request, token_in};
use crate::search::{containing, escaped, law_search_finds_occurrences, like};
use crate::sessions::{Sessions, SESSION_TTL_SECS};
use crate::text::{at_most, clean, optional_text, same_ignoring_case, text_or_empty, trimmed};
use axum::http::HeaderMap;
use vstd::prelude::*;
use vstd::string::*;

verus! {

/// The characters that a search may have.
pub const MAX_MESSAGE_SEARCH_CHARS: usize = 128;

/// What a client asks for.
pub struct MessageQuery {
    pub room: i64,
    pub before: Option<i64>,
    pub after: Option<i64>,
    pub limit: Option<i64>,
    pub q: Option<String>,
    pub from: Option<i64>,
    pub to: Option<i64>,
}

/// A value that stands for a question mark of a statement.
pub enum SqlValue {
    Integer(i64),
    Text(String),
}

/// A value, with a text as its characters.
pub ghost enum SqlView {
    Integer(i64),
    Text(Seq<char>),
}

impl View for SqlValue {
    type V = SqlView;

    open spec fn view(&self) -> SqlView {
        match self {
            SqlValue::Integer(n) => SqlView::Integer(*n),
            SqlValue::Text(text) => SqlView::Text(text@),
        }
    }
}

/// The values, by their views.
pub open spec fn values_view(values: Seq<SqlValue>) -> Seq<SqlView> {
    values.map_values(|value: SqlValue| value@)
}

/// Messages that are to be read: for whom, from which room, by which statement.
pub struct MessageSearch {
    pub uid: i64,
    pub room: i64,
    pub sql: String,
    pub values: Vec<SqlValue>,
    /// How many are wanted. The statement asks for one more.
    pub limit: usize,
    /// The statement gives the oldest first.
    pub oldest_first: bool,
}

/// A search, with the texts as their characters.
pub ghost struct SearchView {
    pub uid: i64,
    pub room: i64,
    pub sql: Seq<char>,
    pub values: Seq<SqlView>,
    pub limit: nat,
    pub oldest_first: bool,
}

impl View for MessageSearch {
    type V = SearchView;

    open spec fn view(&self) -> SearchView {
        SearchView {
            uid: self.uid,
            room: self.room,
            sql: self.sql@,
            values: values_view(self.values@),
            limit: self.limit as nat,
            oldest_first: self.oldest_first,
        }
    }
}

/// `now` less `seconds`, as far as it can go.
pub open spec fn seconds_before(now: i64, seconds: i64) -> i64 {
    if now - seconds < i64::MIN {
        i64::MIN
    } else if now - seconds > i64::MAX {
        i64::MAX
    } else {
        (now - seconds) as i64
    }
}

/// The time before which a message has expired.
pub fn expiration(now: i64, retention_secs: i64) -> (r: i64)
    ensures
        r == seconds_before(now, retention_secs),
{
    match now.checked_sub(retention_secs) {
        Some(time) => time,
        None => if retention_secs > 0 {
            i64::MIN
        } else {
            i64::MAX
        },
    }
}

/// How many messages are given for the number that is asked for: fifty where
/// none is, at least one and at most a hundred.
pub open spec fn page_size(limit: Option<i64>) -> nat {
    match limit {
        None => 50,
        Some(limit) => if limit < 1 {
            1
        } else if limit > 100 {
            100
        } else {
            limit as nat
        },
    }
}

fn page_limit(limit: Option<i64>) -> (r: usize)
    ensures
        r == page_size(limit),
        1 <= r <= 100,
{
    match limit {
        None => 50,
        Some(limit) => if limit < 1 {
            1
        } else if limit > 100 {
            100
        } else {
            limit as usize
        },
    }
}

/// A condition on the messages of a room.
pub ghost enum Condition {
    /// Sent at the time or later.
    Since(i64),
    /// Stored after this one.
    After(i64),
    /// Stored before this one.
    Before(i64),
    /// Like the pattern.
    Like(Seq<char>),
    /// Sent at the first time or later, and before the second.
    Between(i64, i64),
}

/// How a condition is written.
pub open spec fn condition_text(condition: Condition) -> Seq<char> {
    match condition {
        Condition::Since(_) => " AND m.created_at >= ?"@,
        Condition::After(_) => " AND m.id > ?"@,
        Condition::Before(_) => " AND m.id < ?"@,
        Condition::Like(_) => " AND m.text LIKE ? ESCAPE '\\'"@,
        Condition::Between(_, _) => " AND m.created_at >= ? AND m.created_at < ?"@,
    }
}

/// What stands for the question marks of a condition.
pub open spec fn condition_values(condition: Condition) -> Seq<SqlView> {
    match condition {
        Condition::Since(time) => seq![SqlView::Integer(time)],
        Condition::After(id) => seq![SqlView::Integer(id)],
        Condition::Before(id) => seq![SqlView::Integer(id)],
        Condition::Like(pattern) => seq![SqlView::Text(pattern)],
        Condition::Between(from, to) => seq![SqlView::Integer(from), SqlView::Integer(to)],
    }
}

/// The condition, or none.
pub open spec fn maybe(wanted: bool, condition: Condition) -> Seq<Condition> {
    if wanted {
        seq![condition]
    } else {
        Seq::empty()
    }
}

/// The text that is searched for, without white space at its ends.
pub open spec fn searched(query: MessageQuery) -> Seq<char> {
    trimmed(optional_text(query.q))
}

/// The query asks for a stretch of time.
pub open spec fn has_span(query: MessageQuery) -> bool {
    query.from is Some && query.to is Some && query.from->0 < query.to->0
}

/// The conditions that a query sets at the time `now`, where messages are kept
/// for `retention` seconds, or for ever where that is not positive.
pub open spec fn conditions(query: MessageQuery, now: i64, retention: i64) -> Seq<Condition> {
    maybe(retention > 0, Condition::Since(seconds_before(now, retention))) + maybe(
        query.after is Some,
        Condition::After(query.after->0),
    ) + maybe(
        query.after is None && query.before is Some,
        Condition::Before(query.before->0),
    ) + maybe(
        searched(query).len() > 0,
        Condition::Like("%"@ + escaped(searched(query)) + "%"@),
    ) + maybe(has_span(query), Condition::Between(query.from->0, query.to->0))
}

/// The conditions, one behind the other.
pub open spec fn conditions_text(conditions: Seq<Condition>) -> Seq<char>
    decreases conditions.len(),
{
    if conditions.len() == 0 {
        Seq::empty()
    } else {
        conditions_text(conditions.drop_last()) + condition_text(conditions.last())
    }
}

/// What stands for their question marks.
pub open spec fn conditions_values(conditions: Seq<Condition>) -> Seq<SqlView>
    decreases conditions.len(),
{
    if conditions.len() == 0 {
        Seq::empty()
    } else {
        conditions_values(conditions.drop_last()) + condition_values(conditions.last())
    }
}

/// What is selected, before the conditions.
pub open spec fn selection() -> Seq<char> {
    "SELECT m.id,u.username,m.text,m.created_at FROM messages m JOIN users u ON u.id=m.user_id WHERE m.room_id = ?"@
}

/// The order, behind the conditions.
pub open spec fn ordering(oldest_first: bool) -> Seq<char> {
    if oldest_first {
        " ORDER BY m.id ASC LIMIT ?"@
    } else {
        " ORDER BY m.id DESC LIMIT ?"@
    }
}

/// The search that a user's query comes to, or what is wrong with it.
pub open spec fn search_asked(
    user: Result<i64, ApiError>,
    query: MessageQuery,
    now: i64,
    retention: i64,
) -> Result<SearchView, ApiError> {
    let set = conditions(query, now, retention);
    match user {
        Err(error) => Err(error),
        Ok(uid) => if searched(query).len() > MAX_MESSAGE_SEARCH_CHARS {
            Err(ApiError::SearchTooLong)
        } else {
            Ok(
                SearchView {
                    uid,
                    room: query.room,
                    sql: selection() + conditions_text(set) + ordering(query.after is Some),
                    values: seq![SqlView::Integer(query.room)] + conditions_values(set)
                        + seq![SqlView::Integer((page_size(query.limit) + 1) as i64)],
                    limit: page_size(query.limit),
                    oldest_first: query.after is Some,
                },
            )
        },
    }
}

/// A statement that grows by conditions.
struct Statement {
    sql: String,
    values: Vec<SqlValue>,
    room: Ghost<i64>,
    set: Ghost<Seq<Condition>>,
}

/// One more condition.
proof fn lemma_grown(room: i64, set: Seq<Condition>, condition: Condition)
    ensures
        selection() + conditions_text(set.push(condition)) == selection() + conditions_text(set)
            + condition_text(condition),
        seq![SqlView::Integer(room)] + conditions_values(set.push(condition)) == seq![
            SqlView::Integer(room),
        ] + conditions_values(set) + condition_values(condition),
{
    assert(set.push(condition).drop_last() =~= set);
    assert(selection() + conditions_text(set.push(condition)) =~= selection() + conditions_text(set)
        + condition_text(condition));
    assert(seq![SqlView::Integer(room)] + conditions_values(set.push(condition)) =~= seq![
        SqlView::Integer(room),
    ] + conditions_values(set) + condition_values(condition));
}

impl Statement {
    /// The statement selects from the room under the conditions.
    spec fn holds(&self) -> bool {
        &&& self.sql@ == selection() + conditions_text(self.set@)
        &&& values_view(self.values@) == seq![SqlView::Integer(self.room@)] + conditions_values(
            self.set@,
        )
    }

    fn new(room: i64) -> (r: Self)
        ensures
            r.holds(),
            r.room@ == room,
            r.set@ == Seq::<Condition>::empty(),
    {
        let mut values: Vec<SqlValue> = Vec::new();
        values.push(SqlValue::Integer(room));
        let statement: Statement = Statement {
            sql: "SELECT m.id,u.username,m.text,m.created_at FROM messages m JOIN users u ON u.id=m.user_id WHERE m.room_id = ?".to_owned(),
            values,
            room: Ghost(room),
            set: Ghost(Seq::empty()),
        };
        assert(statement.sql@ =~= selection() + conditions_text(Seq::empty()));
        assert(values_view(statement.values@) =~= seq![SqlView::Integer(room)] + conditions_values(
            Seq::empty(),
        ));
        statement
    }

    fn since(&mut self, time: i64)
        requires
            old(self).holds(),
        ensures
            final(self).holds(),
            final(self).room == old(self).room,
            final(self).set@ == old(self).set@.push(Condition::Since(time)),
    {
        let ghost condition = Condition::Since(time);
        let ghost set = self.set@;
        let ghost values = values_view(self.values@);
        self.sql.append(" AND m.created_at >= ?");
        self.values.push(SqlValue::Integer(time));
        self.set = Ghost(set.push(condition));
        proof {
            lemma_grown(self.room@, set, condition);
            assert(values_view(self.values@) =~= values + condition_values(condition));
        }
    }

    fn after(&mut self, id: i64)
        requires
            old(self).holds(),
        ensures
            final(self).holds(),
            final(self).room == old(self).room,
            final(self).set@ == old(self).set@.push(Condition::After(id)),
    {
        let ghost condition = Condition::After(id);
        let ghost set = self.set@;
        let ghost values = values_view(self.values@);
        self.sql.append(" AND m.id > ?");
        self.values.push(SqlValue::Integer(id));
        self.set = Ghost(set.push(condition));
        proof {
            lemma_grown(self.room@, set, condition);
            assert(values_view(self.values@) =~= values + condition_values(condition));
        }
    }

    fn before(&mut self, id: i64)
        requires
            old(self).holds(),
        ensures
            final(self).holds(),
            final(self).room == old(self).room,
            final(self).set@ == old(self).set@.push(Condition::Before(id)),
    {
        let ghost condition = Condition::Before(id);
        let ghost set = self.set@;
        let ghost values = values_view(self.values@);
        self.sql.append(" AND m.id < ?");
        self.values.push(SqlValue::Integer(id));
        self.set = Ghost(set.push(condition));
        proof {
            lemma_grown(self.room@, set, condition);
            assert(values_view(self.values@) =~= values + condition_values(condition));
        }
    }

    fn like(&mut self, pattern: String)
        requires
            old(self).holds(),
        ensures
            final(self).holds(),
            final(self).room == old(self).room,
            final(self).set@ == old(self).set@.push(Condition::Like(pattern@)),
    {
        let ghost condition = Condition::Like(pattern@);
        let ghost set = self.set@;
        let ghost values = values_view(self.values@);
        self.sql.append(" AND m.text LIKE ? ESCAPE '\\'");
        self.values.push(SqlValue::Text(pattern));
        self.set = Ghost(set.push(condition));
        proof {
            lemma_grown(self.room@, set, condition);
            assert(values_view(self.values@) =~= values + condition_values(condition));
        }
    }

    fn between(&mut self, from: i64, to: i64)
        requires
            old(self).holds(),
        ensures
            final(self).holds(),
            final(self).room == old(self).room,
            final(self).set@ == old(self).set@.push(Condition::Between(from, to)),
    {
        let ghost condition = Condition::Between(from, to);
        let ghost set = self.set@;
        let ghost values = values_view(self.values@);
        self.sql.append(" AND m.created_at >= ? AND m.created_at < ?");
        self.values.push(SqlValue::Integer(from));
        self.values.push(SqlValue::Integer(to));
        self.set = Ghost(set.push(condition));
        proof {
            lemma_grown(self.room@, set, condition);
            assert(values_view(self.values@) =~= values + condition_values(condition));
        }
    }
}

/// Takes up the reading of messages.
pub fn messages(
    sessions: &mut Sessions,
    headers: &HeaderMap,
    query: MessageQuery,
    retention_secs: i64,
    current_time: i64,
) -> (r: Result<MessageSearch, ApiError>)
    requires
        current_time + SESSION_TTL_SECS <= i64::MAX,
    ensures
        final(sessions)@ == after_request(old(sessions)@, *headers, current_time),
        viewed(r) == search_asked(
            signed_in_as(old(sessions)@, *headers, current_time as int),
            query,
            current_time,
            retention_secs,
        ),
{
    let uid: i64 = signed_in(sessions, headers, current_time)?;
    let limit: usize = page_limit(query.limit);
    let search: &str = text_or_empty(&query.q).trim();
    if search.unicode_len() > MAX_MESSAGE_SEARCH_CHARS {
        return Err(ApiError::SearchTooLong);
    }
    let mut statement: Statement = Statement::new(query.room);
    if retention_secs > 0 {
        statement.since(expiration(current_time, retention_secs));
    }
    match query.after {
        Some(after) => {
            statement.after(after);
        },
        None => match query.before {
            Some(before) => {
                statement.before(before);
            },
            None => {},
        },
    }
    if !search.is_empty() {
        statement.like(containing(search));
    }
    match (query.from, query.to) {
        (Some(from), Some(to)) => {
            if from < to {
                statement.between(from, to);
            }
        },
        _ => {},
    }
    assert(statement.set@ =~= conditions(query, current_time, retention_secs));
    let oldest_first: bool = query.after.is_some();
    let mut sql: String = statement.sql;
    if oldest_first {
        sql.append(" ORDER BY m.id ASC LIMIT ?");
    } else {
        sql.append(" ORDER BY m.id DESC LIMIT ?");
    }
    let mut values: Vec<SqlValue> = statement.values;
    let ghost before = values_view(values@);
    values.push(SqlValue::Integer((limit + 1) as i64));
    assert(values_view(values@) =~= before + seq![SqlView::Integer((limit + 1) as i64)]);
    Ok(MessageSearch { uid, room: query.room, sql, values, limit, oldest_first })
}

/// A page of what was read.
pub struct MessagePage<T> {
    /// The oldest first.
    pub messages: Vec<T>,
    pub has_more: bool,
}

/// What a client gets to see of the rows: at most `limit`, the oldest first.
pub open spec fn page_of<T>(rows: Seq<T>, limit: nat, oldest_first: bool) -> Seq<T> {
    if oldest_first {
        at_most(rows, limit)
    } else {
        at_most(rows, limit).reverse()
    }
}

fn reversed<T>(items: Vec<T>) -> (r: Vec<T>)
    ensures
        r@ == items@.reverse(),
{
    let ghost all = items@;
    let mut left: Vec<T> = items;
    let mut out: Vec<T> = Vec::new();
    while left.len() > 0
        invariant
            left@.len() <= all.len(),
            left@ == all.take(left@.len() as int),
            out@ == all.skip(left@.len() as int).reverse(),
        decreases left@.len(),
    {
        let ghost n = left@.len() as int;
        match left.pop() {
            Some(item) => {
                out.push(item);
                assert(left@ =~= all.take(n - 1));
                assert(out@ =~= all.skip(n - 1).reverse());
            },
            None => {},
        }
    }
    assert(all.skip(0) =~= all);
    out
}

/// The page of the rows that were read. There are none to be had, `None`, where
/// the user is not in the room.
pub fn message_page<T>(
    limit: usize,
    oldest_first: bool,
    rows: Result<Option<Vec<T>>, StorageError>,
) -> (r: Result<MessagePage<T>, ApiError>)
    ensures
        match rows {
            Ok(Some(rows)) => r matches Ok(page) && page.messages@ == page_of(
                rows@,
                limit as nat,
                oldest_first,
            ) && page.has_more == (rows@.len() > limit),
            Ok(None) => r == Err::<MessagePage<T>, ApiError>(ApiError::NotMember),
            Err(_) => r == Err::<MessagePage<T>, ApiError>(ApiError::Database),
        },
{
    match rows {
        Ok(Some(rows)) => {
            let mut items: Vec<T> = rows;
            let has_more: bool = items.len() > limit;
            if has_more {
                items.truncate(limit);
            }
            assert(items@ =~= at_most(rows@, limit as nat));
            if !oldest_first {
                items = reversed(items);
            }
            Ok(MessagePage { messages: items, has_more })
        },
        Ok(None) => Err(ApiError::NotMember),
        Err(_) => Err(ApiError::Database),
    }
}

/// What a client sends to a room.
pub struct MessageRequest {
    pub room: i64,
    pub text: String,
}

/// A message that is to be sent.
pub struct MessageDraft {
    uid: i64,
    room: i64,
    text: String,
}

/// A message that is to be sent, with the text as its characters.
pub ghost struct DraftView {
    pub uid: i64,
    pub room: i64,
    pub text: Seq<char>,
}

impl View for MessageDraft {
    type V = DraftView;

    closed spec fn view(&self) -> DraftView {
        DraftView { uid: self.uid, room: self.room, text: self.text@ }
    }
}

/// The message that a user sends, or what is wrong with it.
pub open spec fn message_asked(user: Result<i64, ApiError>, input: MessageRequest) -> Result<
    DraftView,
    ApiError,
> {
    let text = trimmed(input.text@);
    match user {
        Err(error) => Err(error),
        Ok(uid) => if text.len() > 2000 {
            Err(ApiError::MessageTooLong)
        } else if text.len() == 0 {
            Err(ApiError::MessageEmpty)
        } else {
            Ok(DraftView { uid, room: input.room, text })
        },
    }
}

/// Takes up the sending of a message.
pub fn send_message(
    sessions: &mut Sessions,
    headers: &HeaderMap,
    input: MessageRequest,
    current_time: i64,
) -> (r: Result<MessageDraft, ApiError>)
    requires
        current_time + SESSION_TTL_SECS <= i64::MAX,
    ensures
        final(sessions)@ == after_request(old(sessions)@, *headers, current_time),
        viewed(r) == message_asked(
            signed_in_as(old(sessions)@, *headers, current_time as int),
            input,
        ),
{
    let uid: i64 = signed_in(sessions, headers, current_time)?;
    if input.text.as_str().trim().unicode_len() > 2000 {
        return Err(ApiError::MessageTooLong);
    }
    let text: String = clean(input.text.as_str(), 2000);
    if text.as_str().is_empty() {
        return Err(ApiError::MessageEmpty);
    }
    Ok(MessageDraft { uid, room: input.room, text })
}

impl MessageDraft {
    /// Who sends it.
    pub fn uid(&self) -> (r: i64)
        ensures
            r == self@.uid,
    {
        self.uid
    }

    /// Where it goes.
    pub fn room(&self) -> (r: i64)
        ensures
            r == self@.room,
    {
        self.room
    }

    /// What it says.
    pub fn text(&self) -> (r: &str)
        ensures
            r@ == self@.text,
    {
        self.text.as_str()
    }
}

/// What is kept of a room's messages.
#[derive(Clone, Copy, PartialEq, Eq, Structural, Debug)]
pub struct RoomLimits {
    /// For how many seconds, or for ever where that is not positive.
    pub retention_secs: i64,
    /// How many, or any number where that is not positive.
    pub max_messages: i64,
}

/// How far the storing of a message has come. All of it is one transaction,
/// which is committed only once the message is stored.
#[derive(Clone, Copy, PartialEq, Eq, Structural, Debug)]
pub enum SendStage {
    /// Is the sender in the room?
    Membership,
    /// What was sent to the room before the time goes.
    Purge { before: i64 },
    /// Does the room hold a message at the offset?
    Capacity { offset: i64 },
    /// The message is stored, and the transaction committed.
    Store,
    /// Nothing is stored, and the transaction is given up.
    Refuse(SendRefusal),
}

/// Why a message is not stored.
#[derive(Clone, Copy, PartialEq, Eq, Structural, Debug)]
pub enum SendRefusal {
    RoomFull,
    NotMember,
}

/// The stage once what has expired is gone.
pub open spec fn after_purge(limits: RoomLimits) -> SendStage {
    if limits.max_messages > 0 {
        SendStage::Capacity { offset: (limits.max_messages - 1) as i64 }
    } else {
        SendStage::Store
    }
}

/// The stage that follows where the answer is `yes`.
pub open spec fn send_after(stage: SendStage, yes: bool, limits: RoomLimits, now: i64) -> SendStage {
    match stage {
        SendStage::Membership => if !yes {
            SendStage::Refuse(SendRefusal::NotMember)
        } else if limits.retention_secs > 0 {
            SendStage::Purge { before: seconds_before(now, limits.retention_secs) }
        } else {
            after_purge(limits)
        },
        SendStage::Purge { .. } => after_purge(limits),
        SendStage::Capacity { .. } => if yes {
            SendStage::Refuse(SendRefusal::RoomFull)
        } else {
            SendStage::Store
        },
        SendStage::Store | SendStage::Refuse(_) => stage,
    }
}

fn purged(limits: RoomLimits) -> (r: SendStage)
    ensures
        r == after_purge(limits),
{
    if limits.max_messages > 0 {
        SendStage::Capacity { offset: limits.max_messages - 1 }
    } else {
        SendStage::Store
    }
}

impl SendStage {
    /// The stage that follows where the answer is `yes`. A purge has no answer.
    pub fn next(&self, yes: bool, limits: RoomLimits, current_time: i64) -> (r: SendStage)
        ensures
            r == send_after(*self, yes, limits, current_time),
    {
        match *self {
            SendStage::Membership => if !yes {
                SendStage::Refuse(SendRefusal::NotMember)
            } else if limits.retention_secs > 0 {
                SendStage::Purge { before: expiration(current_time, limits.retention_secs) }
            } else {
                purged(limits)
            },
            SendStage::Purge { .. } => purged(limits),
            SendStage::Capacity { .. } => if yes {
                SendStage::Refuse(SendRefusal::RoomFull)
            } else {
                SendStage::Store
            },
            SendStage::Store => SendStage::Store,
            SendStage::Refuse(refusal) => SendStage::Refuse(refusal),
        }
    }
}

/// A message as everyone in the room gets it.
pub struct MessageEvent {
    pub id: i64,
    pub room_id: i64,
    pub username: String,
    pub text: String,
    pub created_at: i64,
}

/// What became of a message.
pub enum SendMessageOutcome {
    Sent(MessageEvent),
    RoomFull,
    NotMember,
}

/// The answer to a message: the event that everyone in the room gets, where it
/// was stored.
pub fn send_answer(outcome: Result<SendMessageOutcome, StorageError>) -> (r: Result<
    MessageEvent,
    ApiError,
>)
    ensures
        r == match outcome {
            Ok(SendMessageOutcome::Sent(event)) => Ok::<MessageEvent, ApiError>(event),
            Ok(SendMessageOutcome::RoomFull) => Err(ApiError::RoomFull),
            Ok(SendMessageOutcome::NotMember) => Err(ApiError::NotMember),
            Err(_) => Err(ApiError::Database),
        },
{
    match outcome {
        Ok(SendMessageOutcome::Sent(event)) => Ok(event),
        Ok(SendMessageOutcome::RoomFull) => Err(ApiError::RoomFull),
        Ok(SendMessageOutcome::NotMember) => Err(ApiError::NotMember),
        Err(_) => Err(ApiError::Database),
    }
}

/// The seconds between two looks for messages that have expired: as many as they
/// are kept for, at least one and at most a day.
pub fn cleanup_period(retention_secs: i64) -> (r: u64)
    ensures
        r == if retention_secs < 1 {
            1
        } else if retention_secs > 86_400 {
            86_400
        } else {
            retention_secs as int
        },
{
    if retention_secs < 1 {
        1
    } else if retention_secs > 86_400 {
        86_400
    } else {
        retention_secs as u64
    }
}

/// The messages that one cleanup removes at most.
pub const CLEANUP_BATCH: usize = 1_000;

/// Whether there may be more to clean up, from the number that the last batch
/// removed.
pub fn cleanup_goes_on(deleted: Result<usize, StorageError>) -> (r: bool)
    ensures
        r == (deleted matches Ok(count) && count >= CLEANUP_BATCH),
{
    match deleted {
        Ok(count) => count >= CLEANUP_BATCH,
        Err(_) => false,
    }
}

/// A message of the room, as far as conditions speak of it.
pub ghost struct MessageRow {
    pub id: i64,
    pub text: Seq<char>,
    pub created_at: i64,
}

/// A condition holds of a message.
pub open spec fn satisfies(condition: Condition, row: MessageRow) -> bool {
    match condition {
        Condition::Since(time) => row.created_at >= time,
        Condition::After(id) => row.id > id,
        Condition::Before(id) => row.id < id,
        Condition::Like(pattern) => like(pattern, row.text),
        Condition::Between(from, to) => from <= row.created_at < to,
    }
}

/// A text occurs in another, with ASCII letters in either case.
pub open spec fn occurs_ignoring_case(part: Seq<char>, text: Seq<char>) -> bool {
    exists|i: int|
        0 <= i <= text.len() - part.len() && same_ignoring_case(
            part,
            #[trigger] text.subrange(i, i + part.len()),
        )
}

/// A query asks for a message of its room: it has not expired, it was stored
/// after or before the one that is named, it holds what is searched for, and it
/// was sent in the stretch of time. `before` counts only without `after`.
pub open spec fn asks_for(query: MessageQuery, now: i64, retention: i64, row: MessageRow) -> bool {
    &&& retention > 0 ==> row.created_at >= seconds_before(now, retention)
    &&& match (query.after, query.before) {
        (Some(after), _) => row.id > after,
        (None, Some(before)) => row.id < before,
        (None, None) => true,
    }
    &&& searched(query).len() > 0 ==> occurs_ignoring_case(searched(query), row.text)
    &&& has_span(query) ==> query.from->0 <= row.created_at < query.to->0
}

/// The conditions of a query hold of exactly the messages that it asks for.
pub proof fn law_conditions_say_what_is_asked_for(
    query: MessageQuery,
    now: i64,
    retention: i64,
    row: MessageRow,
)
    ensures
        asks_for(query, now, retention, row) <==> forall|i: int|
            0 <= i < conditions(query, now, retention).len() ==> satisfies(
                #[trigger] conditions(query, now, retention)[i],
                row,
            ),
{
    let a = maybe(retention > 0, Condition::Since(seconds_before(now, retention)));
    let b = maybe(query.after is Some, Condition::After(query.after->0));
    let c = maybe(
        query.after is None && query.before is Some,
        Condition::Before(query.before->0),
    );
    let d = maybe(
        searched(query).len() > 0,
        Condition::Like("%"@ + escaped(searched(query)) + "%"@),
    );
    let e = maybe(has_span(query), Condition::Between(query.from->0, query.to->0));
    let all = conditions(query, now, retention);
    law_search_finds_occurrences(searched(query), row.text);
    assert(all == a + b + c + d + e);
    lemma_hold_in_parts(a, b, row);
    lemma_hold_in_parts(a + b, c, row);
    lemma_hold_in_parts(a + b + c, d, row);
    lemma_hold_in_parts(a + b + c + d, e, row);
    assert(hold(all, row) <==> hold(a, row) && hold(b, row) && hold(c, row) && hold(d, row) && hold(
        e,
        row,
    ));
    lemma_holds_maybe(retention > 0, Condition::Since(seconds_before(now, retention)), row);
    lemma_holds_maybe(query.after is Some, Condition::After(query.after->0), row);
    lemma_holds_maybe(
        query.after is None && query.before is Some,
        Condition::Before(query.before->0),
        row,
    );
    lemma_holds_maybe(
        searched(query).len() > 0,
        Condition::Like("%"@ + escaped(searched(query)) + "%"@),
        row,
    );
    lemma_holds_maybe(has_span(query), Condition::Between(query.from->0, query.to->0), row);
}

/// All of the conditions hold of the message.
spec fn hold(set: Seq<Condition>, row: MessageRow) -> bool {
    forall|i: int| 0 <= i < set.len() ==> satisfies(#[trigger] set[i], row)
}

proof fn lemma_holds_maybe(wanted: bool, condition: Condition, row: MessageRow)
    ensures
        hold(maybe(wanted, condition), row) <==> (wanted ==> satisfies(condition, row)),
{
    if wanted {
        assert(maybe(wanted, condition)[0] == condition);
    }
}

proof fn lemma_hold_in_parts(a: Seq<Condition>, b: Seq<Condition>, row: MessageRow)
    ensures
        hold(a + b, row) <==> hold(a, row) && hold(b, row),
{
    if hold(a + b, row) {
        assert forall|i: int| 0 <= i < a.len() implies satisfies(#[trigger] a[i], row) by {
            assert((a + b)[i] == a[i]);
        }
        assert forall|i: int| 0 <= i < b.len() implies satisfies(#[trigger] b[i], row) by {
            assert((a + b)[a.len() + i] == b[i]);
        }
    }
}

/// Two conditions of the same kind.
pub open spec fn same_kind(a: Condition, b: Condition) -> bool {
    match (a, b) {
        (Condition::Since(_), Condition::Since(_)) => true,
        (Condition::After(_), Condition::After(_)) => true,
        (Condition::Before(_), Condition::Before(_)) => true,
        (Condition::Like(_), Condition::Like(_)) => true,
        (Condition::Between(_, _), Condition::Between(_, _)) => true,
        _ => false,
    }
}

/// Nothing that a client sends gets into the text of a statement: conditions of
/// the same kinds are written alike, whatever they ask for.
pub proof fn law_statements_hold_no_input(a: Seq<Condition>, b: Seq<Condition>)
    requires
        a.len() == b.len(),
        forall|i: int| 0 <= i < a.len() ==> same_kind(#[trigger] a[i], b[i]),
    ensures
        conditions_text(a) == conditions_text(b),
    decreases a.len(),
{
    if a.len() > 0 {
        assert forall|i: int| 0 <= i < a.len() - 1 implies same_kind(
            #[trigger] a.drop_last()[i],
            b.drop_last()[i],
        ) by {
            assert(same_kind(a[i], b[i]));
        }
        law_statements_hold_no_input(a.drop_last(), b.drop_last());
        assert(same_kind(a[a.len() - 1], b[a.len() - 1]));
    }
}

/// A page shows the first of everything that is selected, as many as are wanted,
/// and says truly whether there are more, though one row more than that is read
/// at most.
pub proof fn law_page_says_whether_there_are_more<T>(
    selected: Seq<T>,
    limit: nat,
    oldest_first: bool,
)
    ensures
        page_of(at_most(selected, limit + 1), limit, oldest_first) == page_of(
            selected,
            limit,
            oldest_first,
        ),
        at_most(selected, limit + 1).len() > limit <==> selected.len() > limit,
        page_of(selected, limit, oldest_first).len() <= limit,
{
    assert(at_most(at_most(selected, limit + 1), limit) =~= at_most(selected, limit));
}

/// A page is in the order in which its messages were stored, whichever way they
/// were read.
pub proof fn law_pages_are_in_order(ids: Seq<i64>, limit: nat, oldest_first: bool)
    requires
        oldest_first ==> forall|i: int, j: int| 0 <= i < j < ids.len() ==> ids[i] < ids[j],
        !oldest_first ==> forall|i: int, j: int| 0 <= i < j < ids.len() ==> ids[i] > ids[j],
    ensures
        forall|i: int, j: int|
            #![trigger page_of(ids, limit, oldest_first)[i], page_of(ids, limit, oldest_first)[j]]
            0 <= i < j < page_of(ids, limit, oldest_first).len() ==> page_of(
                ids,
                limit,
                oldest_first,
            )[i] < page_of(ids, limit, oldest_first)[j],
{
}

/// The messages of a room that were stored after the one that is named.
pub open spec fn newer(ids: Seq<i64>, after: i64) -> Seq<i64> {
    ids.filter(|id: i64| id > after)
}

/// The messages of a room that were stored before the one that is named.
pub open spec fn older(ids: Seq<i64>, before: i64) -> Seq<i64> {
    ids.filter(|id: i64| id < before)
}

/// In the order in which they were stored.
pub open spec fn ascending(ids: Seq<i64>) -> bool {
    forall|i: int, j: int| 0 <= i < j < ids.len() ==> ids[i] < ids[j]
}

/// What is newer stands behind some point, and there only.
proof fn lemma_newer(ids: Seq<i64>, after: i64) -> (k: int)
    requires
        ascending(ids),
    ensures
        0 <= k <= ids.len(),
        newer(ids, after) == ids.skip(k),
        forall|i: int| 0 <= i < k ==> #[trigger] ids[i] <= after,
        forall|i: int| k <= i < ids.len() ==> #[trigger] ids[i] > after,
    decreases ids.len(),
{
    reveal(Seq::filter);
    if ids.len() == 0 {
        assert(newer(ids, after) =~= ids.skip(0));
        0
    } else {
        let front = ids.drop_last();
        let k = lemma_newer(front, after);
        assert forall|i: int| 0 <= i < front.len() implies #[trigger] ids[i] == front[i] by {}
        if ids.last() > after {
            assert(newer(ids, after) =~= ids.skip(k));
            k
        } else {
            assert forall|i: int| 0 <= i < front.len() implies #[trigger] ids[i] <= after by {
                assert(ids[i] < ids[ids.len() - 1]);
            }
            assert(k == front.len()) by {
                if k < front.len() {
                    assert(front[k] > after);
                    assert(ids[k] <= after);
                }
            }
            assert(newer(ids, after) =~= ids.skip(ids.len() as int));
            ids.len() as int
        }
    }
}

/// What is older stands before some point, and there only.
proof fn lemma_older(ids: Seq<i64>, before: i64) -> (k: int)
    requires
        ascending(ids),
    ensures
        0 <= k <= ids.len(),
        older(ids, before) == ids.take(k),
        forall|i: int| 0 <= i < k ==> #[trigger] ids[i] < before,
        forall|i: int| k <= i < ids.len() ==> #[trigger] ids[i] >= before,
    decreases ids.len(),
{
    reveal(Seq::filter);
    if ids.len() == 0 {
        assert(older(ids, before) =~= ids.take(0));
        0
    } else {
        let front = ids.drop_last();
        let k = lemma_older(front, before);
        assert forall|i: int| 0 <= i < front.len() implies #[trigger] ids[i] == front[i] by {}
        if ids.last() < before {
            assert forall|i: int| 0 <= i < front.len() implies #[trigger] ids[i] < before by {
                assert(ids[i] < ids[ids.len() - 1]);
            }
            assert(k == front.len()) by {
                if k < front.len() {
                    assert(front[k] >= before);
                    assert(ids[k] < before);
                }
            }
            assert(older(ids, before) =~= ids.take(ids.len() as int));
            ids.len() as int
        } else {
            assert(older(ids, before) =~= ids.take(k));
            k
        }
    }
}

/// Catching up misses nothing and repeats nothing: what is newer than a message
/// is the page behind it, followed by what is newer than the last of that page.
pub proof fn law_catching_up_misses_nothing(ids: Seq<i64>, after: i64, limit: nat)
    requires
        ascending(ids),
        limit > 0,
        newer(ids, after).len() > 0,
    ensures
        ({
            let page = page_of(newer(ids, after), limit, true);
            &&& page.len() > 0
            &&& newer(ids, after) == page + newer(ids, page.last())
        }),
{
    let k = lemma_newer(ids, after);
    let page = page_of(newer(ids, after), limit, true);
    let n = lemma_newer(ids, page.last());
    let end = k + page.len();
    assert(page.last() == ids[end - 1]);
    assert(n == end) by {
        if n < end {
            assert(ids[end - 1] > page.last());
        }
        if n > end {
            assert(ids[end] <= page.last());
            assert(ids[end - 1] < ids[end]);
        }
    }
    assert(newer(ids, after) =~= page + newer(ids, page.last()));
}

/// Reading back misses nothing and repeats nothing: what is older than a message
/// is what is older than the first of the page before it, followed by that page.
pub proof fn law_reading_back_misses_nothing(ids: Seq<i64>, before: i64, limit: nat)
    requires
        ascending(ids),
        limit > 0,
        older(ids, before).len() > 0,
    ensures
        ({
            let page = page_of(older(ids, before).reverse(), limit, false);
            &&& page.len() > 0
            &&& older(ids, before) == older(ids, page.first()) + page
        }),
{
    let k = lemma_older(ids, before);
    let page = page_of(older(ids, before).reverse(), limit, false);
    let start = k - page.len();
    assert(page =~= ids.subrange(start, k));
    let n = lemma_older(ids, page.first());
    assert(n == start) by {
        if n > start {
            assert(ids[start] < page.first());
        }
        if n < start {
            assert(ids[n] >= page.first());
            assert(ids[n] < ids[start]);
        }
    }
    assert(older(ids, before) =~= older(ids, page.first()) + page);
}

/// The stage after the answers.
pub open spec fn send_reached(answers: Seq<bool>, limits: RoomLimits, now: i64) -> SendStage
    decreases answers.len(),
{
    if answers.len() == 0 {
        SendStage::Membership
    } else {
        send_after(send_reached(answers.drop_last(), limits, now), answers.last(), limits, now)
    }
}

/// A message is stored only where the sender was found in the room, and the room
/// was found to have a place for it where its messages are counted. Three answers
/// settle it.
pub proof fn law_stored_only_where_allowed(answers: Seq<bool>, limits: RoomLimits, now: i64)
    ensures
        send_reached(answers, limits, now) == SendStage::Store ==> answers.len() > 0 && answers[0],
        send_reached(answers, limits, now) == SendStage::Store && limits.max_messages > 0
            ==> exists|i: int|
            0 < i < answers.len() && !#[trigger] answers[i] && send_reached(
                answers.take(i),
                limits,
                now,
            ) == (SendStage::Capacity { offset: (limits.max_messages - 1) as i64 }),
        answers.len() >= 3 ==> send_reached(answers, limits, now) is Store || send_reached(
            answers,
            limits,
            now,
        ) is Refuse,
    decreases answers.len(),
{
    if answers.len() > 0 {
        let before = answers.drop_last();
        let n = answers.len() - 1;
        law_stored_only_where_allowed(before, limits, now);
        lemma_send_progress(before, limits, now);
        assert(answers.take(n) =~= before);
        if send_reached(before, limits, now) == SendStage::Store && limits.max_messages > 0 {
            let i = choose|i: int|
                0 < i < before.len() && !#[trigger] before[i] && send_reached(
                    before.take(i),
                    limits,
                    now,
                ) == (SendStage::Capacity { offset: (limits.max_messages - 1) as i64 });
            assert(before.take(i) =~= answers.take(i));
            assert(!answers[i]);
        }
    }
}

/// What the stage says of the answers that led to it.
proof fn lemma_send_progress(answers: Seq<bool>, limits: RoomLimits, now: i64)
    ensures
        match send_reached(answers, limits, now) {
            SendStage::Membership => answers.len() == 0,
            SendStage::Purge { .. } => answers.len() == 1 && answers[0],
            SendStage::Capacity { offset } => {
                &&& 1 <= answers.len() <= 2
                &&& answers[0]
                &&& limits.max_messages > 0
                &&& offset == limits.max_messages - 1
            },
            _ => answers.len() > 0,
        },
    decreases answers.len(),
{
    if answers.len() > 0 {
        lemma_send_progress(answers.drop_last(), limits, now);
    }
}

/// A room never holds more messages than it may: with so many in it that there
/// is none at the offset that is asked for, there is a place for one more.
pub proof fn law_rooms_never_overfill(held: nat, limits: RoomLimits, offset: i64)
    requires
        limits.max_messages > 0,
        after_purge(limits) == (SendStage::Capacity { offset }),
        !(held > offset),
    ensures
        held + 1 <= limits.max_messages,
{
}

/// The question marks in a text.
pub open spec fn marks(text: Seq<char>) -> nat
    decreases text.len(),
{
    if text.len() == 0 {
        0
    } else {
        marks(text.drop_last()) + if text.last() == '?' {
            1nat
        } else {
            0nat
        }
    }
}

proof fn lemma_marks_add(a: Seq<char>, b: Seq<char>)
    ensures
        marks(a + b) == marks(a) + marks(b),
    decreases b.len(),
{
    if b.len() == 0 {
        assert(a + b =~= a);
    } else {
        assert((a + b).drop_last() =~= a + b.drop_last());
        lemma_marks_add(a, b.drop_last());
    }
}

proof fn lemma_no_marks(text: Seq<char>)
    requires
        forall|i: int| 0 <= i < text.len() ==> #[trigger] text[i] != '?',
    ensures
        marks(text) == 0,
    decreases text.len(),
{
    if text.len() > 0 {
        lemma_no_marks(text.drop_last());
    }
}

/// A question mark at the end, and none before it.
proof fn lemma_one_mark(text: Seq<char>)
    requires
        text.len() > 0,
        text.last() == '?',
        forall|i: int| 0 <= i < text.len() - 1 ==> #[trigger] text[i] != '?',
    ensures
        marks(text) == 1,
{
    lemma_no_marks(text.drop_last());
}

proof fn lemma_marks_selection()
    ensures
        marks(selection()) == 1,
{
    reveal_strlit(
        "SELECT m.id,u.username,m.text,m.created_at FROM messages m JOIN users u ON u.id=m.user_id WHERE m.room_id = ?",
    );
    lemma_one_mark(selection());
}

proof fn lemma_marks_ordering(oldest_first: bool)
    ensures
        marks(ordering(oldest_first)) == 1,
{
    reveal_strlit(" ORDER BY m.id ASC LIMIT ?");
    reveal_strlit(" ORDER BY m.id DESC LIMIT ?");
    lemma_one_mark(ordering(oldest_first));
}

proof fn lemma_marks_condition(condition: Condition)
    ensures
        marks(condition_text(condition)) == condition_values(condition).len(),
{
    let text = condition_text(condition);
    match condition {
        Condition::Since(_) => {
            reveal_strlit(" AND m.created_at >= ?");
            lemma_one_mark(text);
        },
        Condition::After(_) => {
            reveal_strlit(" AND m.id > ?");
            lemma_one_mark(text);
        },
        Condition::Before(_) => {
            reveal_strlit(" AND m.id < ?");
            lemma_one_mark(text);
        },
        Condition::Like(_) => {
            reveal_strlit(" AND m.text LIKE ? ESCAPE '\\'");
            assert(text =~= text.take(18) + text.skip(18));
            lemma_marks_add(text.take(18), text.skip(18));
            lemma_one_mark(text.take(18));
            lemma_no_marks(text.skip(18));
        },
        Condition::Between(_, _) => {
            reveal_strlit(" AND m.created_at >= ? AND m.created_at < ?");
            assert(text =~= text.take(22) + text.skip(22));
            lemma_marks_add(text.take(22), text.skip(22));
            lemma_one_mark(text.take(22));
            lemma_one_mark(text.skip(22));
        },
    }
}

proof fn lemma_marks_conditions(set: Seq<Condition>)
    ensures
        marks(conditions_text(set)) == conditions_values(set).len(),
    decreases set.len(),
{
    if set.len() > 0 {
        lemma_marks_conditions(set.drop_last());
        lemma_marks_condition(set.last());
        lemma_marks_add(conditions_text(set.drop_last()), condition_text(set.last()));
    }
}

/// Every question mark of a statement has its value, and every value its
/// question mark.
pub proof fn law_every_mark_has_its_value(
    user: Result<i64, ApiError>,
    query: MessageQuery,
    now: i64,
    retention: i64,
)
    ensures
        search_asked(user, query, now, retention) matches Ok(search) ==> marks(search.sql)
            == search.values.len(),
{
    let set = conditions(query, now, retention);
    lemma_marks_selection();
    lemma_marks_conditions(set);
    lemma_marks_ordering(query.after is Some);
    lemma_marks_add(selection(), conditions_text(set));
    lemma_marks_add(selection() + conditions_text(set), ordering(query.after is Some));
}

/// What is stored of an accepted message is the sender's own text, without white
/// space at its ends and otherwise unchanged, in the room that it was sent to and
/// under the sender's name. A message is refused exactly where nothing is left of
/// it, or more than two thousand characters.
pub proof fn law_a_message_is_what_was_sent(user: Result<i64, ApiError>, input: MessageRequest)
    ensures
        message_asked(user, input) matches Ok(draft) ==> {
            &&& user == Ok::<i64, ApiError>(draft.uid)
            &&& draft.room == input.room
            &&& draft.text == trimmed(input.text@)
        },
        message_asked(user, input) is Ok <==> user is Ok && 1 <= trimmed(input.text@).len() <= 2000,
        user matches Err(error) ==> message_asked(user, input) == Err::<DraftView, ApiError>(error),
        user is Ok && trimmed(input.text@).len() > 2000 ==> message_asked(user, input) == Err::<
            DraftView,
            ApiError,
        >(ApiError::MessageTooLong),
        user is Ok && trimmed(input.text@).len() == 0 ==> message_asked(user, input) == Err::<
            DraftView,
            ApiError,
        >(ApiError::MessageEmpty),
{
}

/// The conditions of a statement, held against the query's own fields. A stretch of
/// time from `f` to `t` leaves only what was sent in it, whatever else is asked for;
/// so do the message after which or before which to read, the text that is searched
/// for, and the time for which messages are kept.
pub proof fn law_every_filter_is_kept(
    query: MessageQuery,
    now: i64,
    retention: i64,
    row: MessageRow,
)
    requires
        forall|i: int|
            0 <= i < conditions(query, now, retention).len() ==> satisfies(
                #[trigger] conditions(query, now, retention)[i],
                row,
            ),
    ensures
        match (query.from, query.to) {
            (Some(f), Some(t)) => f < t ==> f <= row.created_at < t,
            _ => true,
        },
        query.after matches Some(after) ==> row.id > after,
        query.after is None ==> (query.before matches Some(before) ==> row.id < before),
        query.q matches Some(q) ==> exists|i: int|
            0 <= i <= row.text.len() - trimmed(q@).len() && same_ignoring_case(
                trimmed(q@),
                #[trigger] row.text.subrange(i, i + trimmed(q@).len()),
            ),
        retention > 0 && now - retention >= i64::MIN ==> row.created_at >= now - retention,
{
    law_conditions_say_what_is_asked_for(query, now, retention, row);
    match query.q {
        Some(q) => {
            let part = trimmed(q@);
            if part.len() == 0 {
                let i: int = 0;
                assert(row.text.subrange(i, i + part.len()) =~= part);
                assert(same_ignoring_case(part, row.text.subrange(i, i + part.len())));
            } else {
                assert(searched(query) == part);
            }
        },
        None => {},
    }
}

/// Nothing that a query asks for is held back: a message that lies within every
/// bound that the query's fields set satisfies every condition of the statement.
pub proof fn law_nothing_asked_for_is_held_back(
    query: MessageQuery,
    now: i64,
    retention: i64,
    row: MessageRow,
)
    requires
        match (query.from, query.to) {
            (Some(f), Some(t)) => f < t ==> f <= row.created_at < t,
            _ => true,
        },
        query.after matches Some(after) ==> row.id > after,
        query.after is None ==> (query.before matches Some(before) ==> row.id < before),
        query.q matches Some(q) ==> exists|i: int|
            0 <= i <= row.text.len() - trimmed(q@).len() && same_ignoring_case(
                trimmed(q@),
                #[trigger] row.text.subrange(i, i + trimmed(q@).len()),
            ),
        retention > 0 ==> row.created_at >= now - retention,
    ensures
        forall|i: int|
            0 <= i < conditions(query, now, retention).len() ==> satisfies(
                #[trigger] conditions(query, now, retention)[i],
                row,
            ),
{
    if searched(query).len() > 0 {
        assert(query.q is Some) by {
            if query.q is None {
                assert(optional_text(query.q) =~= Seq::empty());
            }
        }
        assert(searched(query) == trimmed(query.q->0@));
    }
    assert(asks_for(query, now, retention, row));
    law_conditions_say_what_is_asked_for(query, now, retention, row);
}

/// A condition is written as what it says, with its bounds in the order of its
/// question marks.
pub proof fn law_conditions_are_written_as_they_read(a: i64, b: i64, pattern: Seq<char>)
    ensures
        condition_text(Condition::Since(a)) == " AND m.created_at >= ?"@,
        condition_text(Condition::After(a)) == " AND m.id > ?"@,
        condition_text(Condition::Before(a)) == " AND m.id < ?"@,
        condition_text(Condition::Like(pattern)) == " AND m.text LIKE ? ESCAPE '\\'"@,
        condition_text(Condition::Between(a, b)) == " AND m.created_at >= ? AND m.created_at < ?"@,
        condition_values(Condition::Since(a)) == seq![SqlView::Integer(a)],
        condition_values(Condition::After(a)) == seq![SqlView::Integer(a)],
        condition_values(Condition::Before(a)) == seq![SqlView::Integer(a)],
        condition_values(Condition::Like(pattern)) == seq![SqlView::Text(pattern)],
        condition_values(Condition::Between(a, b)) == seq![
            SqlView::Integer(a),
            SqlView::Integer(b),
        ],
{
}

/// Conditions are written one behind the other, and their values stand in the same
/// order.
pub proof fn law_conditions_stand_in_order(a: Seq<Condition>, b: Seq<Condition>)
    ensures
        conditions_text(a + b) == conditions_text(a) + conditions_text(b),
        conditions_values(a + b) == conditions_values(a) + conditions_values(b),
        a.len() == 0 ==> conditions_text(a).len() == 0 && conditions_values(a).len() == 0,
        a.len() == 1 ==> conditions_text(a) == condition_text(a[0]) && conditions_values(a)
            == condition_values(a[0]),
    decreases b.len(),
{
    if a.len() == 1 {
        assert(a.drop_last() =~= Seq::empty());
        assert(conditions_text(a.drop_last()) =~= Seq::empty());
        assert(conditions_values(a.drop_last()) =~= Seq::empty());
        assert(conditions_text(a) =~= condition_text(a[0]));
        assert(conditions_values(a) =~= condition_values(a[0]));
    }
    if b.len() == 0 {
        assert(a + b =~= a);
        assert(conditions_text(a) + conditions_text(b) =~= conditions_text(a));
        assert(conditions_values(a) + conditions_values(b) =~= conditions_values(a));
    } else {
        law_conditions_stand_in_order(a, b.drop_last());
        assert((a + b).drop_last() =~= a + b.drop_last());
        assert(conditions_text(a + b) =~= conditions_text(a) + conditions_text(b));
        assert(conditions_values(a + b) =~= conditions_values(a) + conditions_values(b));
    }
}

/// A search reads for who asked, from the room that was named, one message more
/// than are wanted, the oldest first exactly where it reads on from a message. As
/// many are wanted as were asked for, within one and a hundred, and fifty without a
/// word. Only a search text of more than a hundred and twenty-eight characters is
/// refused.
pub proof fn law_a_search_is_what_was_asked_for(
    user: Result<i64, ApiError>,
    query: MessageQuery,
    now: i64,
    retention: i64,
)
    ensures
        user matches Err(error) ==> search_asked(user, query, now, retention) == Err::<
            SearchView,
            ApiError,
        >(error),
        search_asked(user, query, now, retention) is Ok <==> user is Ok && (query.q matches Some(
            q,
        ) ==> trimmed(q@).len() <= 128),
        user is Ok && search_asked(user, query, now, retention) is Err ==> search_asked(
            user,
            query,
            now,
            retention,
        )->Err_0 == ApiError::SearchTooLong,
        search_asked(user, query, now, retention) matches Ok(search) ==> {
            let set = conditions(query, now, retention);
            &&& user == Ok::<i64, ApiError>(search.uid)
            &&& search.room == query.room
            &&& search.oldest_first <==> query.after is Some
            &&& 1 <= search.limit <= 100
            &&& query.limit is None ==> search.limit == 50
            &&& query.limit matches Some(n) ==> {
                &&& 1 <= n <= 100 ==> search.limit == n
                &&& n < 1 ==> search.limit == 1
                &&& n > 100 ==> search.limit == 100
            }
            &&& search.values.len() >= 2
            &&& search.values.first() == SqlView::Integer(query.room)
            &&& search.values.last() == SqlView::Integer((search.limit + 1) as i64)
            &&& search.values.subrange(1, search.values.len() - 1) == conditions_values(set)
            &&& search.sql
                == "SELECT m.id,u.username,m.text,m.created_at FROM messages m JOIN users u ON u.id=m.user_id WHERE m.room_id = ?"@
                + conditions_text(set) + if query.after is Some {
                " ORDER BY m.id ASC LIMIT ?"@
            } else {
                " ORDER BY m.id DESC LIMIT ?"@
            }
        },
{
    if query.q is None {
        assert(trimmed(optional_text(query.q)) =~= Seq::empty());
    }
    match search_asked(user, query, now, retention) {
        Ok(search) => {
            let set = conditions(query, now, retention);
            assert(search.values.subrange(1, search.values.len() - 1) =~= conditions_values(set));
        },
        Err(_) => {},
    }
}

/// A page holds as many of the rows as fit, each of them unchanged: the first that
/// were read, in their order where the oldest came first, else the other way round.
pub proof fn law_a_page_holds_its_rows<T>(rows: Seq<T>, limit: nat, oldest_first: bool)
    ensures
        ({
            let page = page_of(rows, limit, oldest_first);
            &&& page.len() == if rows.len() <= limit {
                rows.len()
            } else {
                limit
            }
            &&& forall|i: int|
                0 <= i < page.len() ==> #[trigger] page[i] == if oldest_first {
                    rows[i]
                } else {
                    rows[page.len() - 1 - i]
                }
        }),
{
}

/// The time so many seconds before another is just that wherever there is such a
/// time, and the first or the last time there is elsewhere.
pub proof fn law_seconds_before(now: i64, seconds: i64)
    ensures
        i64::MIN <= now - seconds <= i64::MAX ==> seconds_before(now, seconds) + seconds == now,
        now - seconds < i64::MIN ==> seconds_before(now, seconds) == i64::MIN,
        now - seconds > i64::MAX ==> seconds_before(now, seconds) == i64::MAX,
{
}

/// The course of sending a message, answer by answer. Who is not in the room is
/// refused; what has expired goes first where messages expire; where messages are
/// counted the place of the last one that fits is looked at, and a message there
/// means that the room is full.
pub proof fn law_sending_takes_its_course(limits: RoomLimits, now: i64, any: bool, full: bool)
    ensures
        send_reached(seq![false], limits, now) == SendStage::Refuse(SendRefusal::NotMember),
        limits.retention_secs > 0 && now - limits.retention_secs >= i64::MIN ==> send_reached(
            seq![true],
            limits,
            now,
        ) == (SendStage::Purge { before: (now - limits.retention_secs) as i64 }),
        limits.retention_secs > 0 ==> send_reached(seq![true, any], limits, now)
            == if limits.max_messages > 0 {
            SendStage::Capacity { offset: (limits.max_messages - 1) as i64 }
        } else {
            SendStage::Store
        },
        limits.retention_secs <= 0 ==> send_reached(seq![true], limits, now)
            == if limits.max_messages > 0 {
            SendStage::Capacity { offset: (limits.max_messages - 1) as i64 }
        } else {
            SendStage::Store
        },
        limits.retention_secs > 0 && limits.max_messages > 0 ==> send_reached(
            seq![true, any, full],
            limits,
            now,
        ) == if full {
            SendStage::Refuse(SendRefusal::RoomFull)
        } else {
            SendStage::Store
        },
        limits.retention_secs <= 0 && limits.max_messages > 0 ==> send_reached(
            seq![true, full],
            limits,
            now,
        ) == if full {
            SendStage::Refuse(SendRefusal::RoomFull)
        } else {
            SendStage::Store
        },
{
    reveal_with_fuel(send_reached, 5);
    assert(seq![false].drop_last() =~= Seq::<bool>::empty());
    assert(seq![true].drop_last() =~= Seq::<bool>::empty());
    assert(seq![true, any].drop_last() =~= seq![true]);
    assert(seq![true, full].drop_last() =~= seq![true]);
    assert(seq![true, any, full].drop_last() =~= seq![true, any]);
}

/// From sending a message to storing it: what is stored is the text that was sent,
/// without white space at its ends and otherwise unchanged, in the room that it was
/// sent to and under the user whom the request's token belongs to.
pub proof fn law_sending_hands_on_what_was_sent(
    sessions: &mut Sessions,
    headers: &HeaderMap,
    input: MessageRequest,
    now: i64,
    sent: Result<MessageDraft, ApiError>,
    draft: MessageDraft,
    uid: i64,
    room: i64,
    text: &str,
)
    requires
        call_ensures(send_message, (sessions, headers, input, now), sent),
        sent == Ok::<MessageDraft, ApiError>(draft),
        call_ensures(MessageDraft::uid, (&draft,), uid),
        call_ensures(MessageDraft::room, (&draft,), room),
        call_ensures(MessageDraft::text, (&draft,), text),
    ensures
        text@ == trimmed(input.text@),
        1 <= text@.len() <= 2000,
        room == input.room,
        match token_in(*headers) {
            Some(token) => old(sessions)@.contains_key(token) && old(sessions)@[token].user_id
                == uid && old(sessions)@[token].expires_at > now,
            None => false,
        },
{
    let user = signed_in_as(old(sessions)@, *headers, now as int);
    assert(message_asked(user, input) == Ok::<DraftView, ApiError>(draft@));
    law_a_message_is_what_was_sent(user, input);
    law_requests_come_from_their_user(old(sessions)@, *headers, now as int, uid);
}

/// Two messages from the same user, in any rooms: their stored texts are the same
/// exactly where what was sent is, apart from white space at the ends.
pub proof fn law_two_messages(
    sessions: &mut Sessions,
    other_sessions: &mut Sessions,
    headers: &HeaderMap,
    input: MessageRequest,
    other_input: MessageRequest,
    now: i64,
    draft: MessageDraft,
    other: MessageDraft,
)
    requires
        call_ensures(
            send_message,
            (sessions, headers, input, now),
            Ok::<MessageDraft, ApiError>(draft),
        ),
        call_ensures(
            send_message,
            (other_sessions, headers, other_input, now),
            Ok::<MessageDraft, ApiError>(other),
        ),
    ensures
        draft@.text == other@.text <==> trimmed(input.text@) == trimmed(other_input.text@),
        draft@.room == other@.room <==> input.room == other_input.room,
{
    let user = signed_in_as(old(sessions)@, *headers, now as int);
    let other_user = signed_in_as(old(other_sessions)@, *headers, now as int);
    assert(message_asked(user, input) == Ok::<DraftView, ApiError>(draft@));
    assert(message_asked(other_user, other_input) == Ok::<DraftView, ApiError>(other@));
    law_a_message_is_what_was_sent(user, input);
    law_a_message_is_what_was_sent(other_user, other_input);
}

/// Whoever is signed in and sends between one and two thousand characters, white
/// space at the ends left out, gets a message to be stored.
pub proof fn law_messages_that_are_taken(
    sessions: &mut Sessions,
    headers: &HeaderMap,
    input: MessageRequest,
    now: i64,
    sent: Result<MessageDraft, ApiError>,
    token: Seq<char>,
)
    requires
        call_ensures(send_message, (sessions, headers, input, now), sent),
        token_in(*headers) == Some(token),
        old(sessions)@.contains_key(token),
        old(sessions)@[token].expires_at > now,
    ensures
        sent is Ok <==> 1 <= trimmed(input.text@).len() <= 2000,
        trimmed(input.text@).len() > 2000 ==> sent == Err::<MessageDraft, ApiError>(
            ApiError::MessageTooLong,
        ),
        trimmed(input.text@).len() == 0 ==> sent == Err::<MessageDraft, ApiError>(
            ApiError::MessageEmpty,
        ),
{
    let user = signed_in_as(old(sessions)@, *headers, now as int);
    law_requests_come_from_their_user(
        old(sessions)@,
        *headers,
        now as int,
        old(sessions)@[token].user_id,
    );
    law_a_message_is_what_was_sent(user, input);
    assert(viewed(sent) == message_asked(user, input));
}

/// What a call of `messages` makes of a stretch of time: wherever the query names its
/// ends, the first before the second, the statement closes with the condition on
/// them, and they are the last two values before the number of messages. That holds
/// whatever else the query asks for.
pub proof fn law_a_span_is_kept(
    sessions: &mut Sessions,
    headers: &HeaderMap,
    query: MessageQuery,
    retention: i64,
    now: i64,
    search: MessageSearch,
    from: i64,
    to: i64,
)
    requires
        call_ensures(
            messages,
            (sessions, headers, query, retention, now),
            Ok::<MessageSearch, ApiError>(search),
        ),
        query.from == Some(from),
        query.to == Some(to),
        from < to,
    ensures
        (" AND m.created_at >= ? AND m.created_at < ?"@ + if query.after is Some {
            " ORDER BY m.id ASC LIMIT ?"@
        } else {
            " ORDER BY m.id DESC LIMIT ?"@
        }).is_suffix_of(search.sql@),
        search.values@.len() >= 4,
        search.values@[search.values@.len() - 3]@ == SqlView::Integer(from),
        search.values@[search.values@.len() - 2]@ == SqlView::Integer(to),
        search.values@[search.values@.len() - 1]@ == SqlView::Integer((search.limit + 1) as i64),
        search.values@[0]@ == SqlView::Integer(query.room),
{
    let user = signed_in_as(old(sessions)@, *headers, now as int);
    assert(search_asked(user, query, now, retention) == Ok::<SearchView, ApiError>(search@));
    law_a_search_is_what_was_asked_for(user, query, now, retention);
    let set = conditions(query, now, retention);
    let span = Condition::Between(from, to);
    assert(set.last() == span);
    let front = set.drop_last();
    let text = conditions_text(front);
    let closing = condition_text(span) + ordering(query.after is Some);
    law_conditions_are_written_as_they_read(from, to, Seq::empty());
    assert(conditions_text(set) == text + condition_text(span));
    assert(search.sql@ =~= selection() + text + closing);
    assert(closing =~= search.sql@.subrange(
        search.sql@.len() - closing.len(),
        search.sql@.len() as int,
    ));
    let values = conditions_values(front);
    assert(conditions_values(set) =~= values + seq![SqlView::Integer(from), SqlView::Integer(to)]);
    let all = seq![SqlView::Integer(query.room)] + conditions_values(set) + seq![
        SqlView::Integer((page_size(query.limit) + 1) as i64),
    ];
    let n = all.len() as int;
    assert(values_view(search.values@) == all);
    assert(search.values@.len() == n);
    assert(all[n - 3] == SqlView::Integer(from));
    assert(all[n - 2] == SqlView::Integer(to));
    assert(values_view(search.values@)[n - 3] == search.values@[n - 3]@);
    assert(values_view(search.values@)[n - 2] == search.values@[n - 2]@);
    assert(values_view(search.values@)[n - 1] == search.values@[n - 1]@);
    assert(values_view(search.values@)[0] == search.values@[0]@);
}

/// The statement of a search, from the call that makes it: the selection from the room,
/// the conditions, the order and the limit, with the values in the order of their
/// question marks. A message satisfies the conditions exactly where it lies within
/// every bound that the query's own fields set.
pub proof fn law_a_search_selects_what_was_asked_for(
    sessions: &mut Sessions,
    headers: &HeaderMap,
    query: MessageQuery,
    retention: i64,
    now: i64,
    search: MessageSearch,
    set: Seq<Condition>,
    row: MessageRow,
)
    requires
        call_ensures(
            messages,
            (sessions, headers, query, retention, now),
            Ok::<MessageSearch, ApiError>(search),
        ),
        set == conditions(query, now, retention),
    ensures
        search.room == query.room,
        search.oldest_first <==> query.after is Some,
        search.sql@
            == "SELECT m.id,u.username,m.text,m.created_at FROM messages m JOIN users u ON u.id=m.user_id WHERE m.room_id = ?"@
            + conditions_text(set) + if query.after is Some {
            " ORDER BY m.id ASC LIMIT ?"@
        } else {
            " ORDER BY m.id DESC LIMIT ?"@
        },
        values_view(search.values@) == seq![SqlView::Integer(query.room)] + conditions_values(set)
            + seq![SqlView::Integer((search.limit + 1) as i64)],
        1 <= search.limit <= 100,
        query.limit is None ==> search.limit == 50,
        query.limit matches Some(n) ==> 1 <= n <= 100 ==> search.limit == n,
        now - retention >= i64::MIN ==> ((forall|i: int|
            0 <= i < set.len() ==> satisfies(#[trigger] set[i], row)) <==> {
            &&& match (query.from, query.to) {
                (Some(f), Some(t)) => f < t ==> f <= row.created_at < t,
                _ => true,
            }
            &&& query.after matches Some(after) ==> row.id > after
            &&& query.after is None ==> (query.before matches Some(before) ==> row.id < before)
            &&& query.q matches Some(q) ==> exists|i: int|
                0 <= i <= row.text.len() - trimmed(q@).len() && same_ignoring_case(
                    trimmed(q@),
                    #[trigger] row.text.subrange(i, i + trimmed(q@).len()),
                )
            &&& retention > 0 ==> row.created_at >= now - retention
        }),
{
    let user = signed_in_as(old(sessions)@, *headers, now as int);
    assert(search_asked(user, query, now, retention) == Ok::<SearchView, ApiError>(search@));
    law_a_search_is_what_was_asked_for(user, query, now, retention);
    if now - retention >= i64::MIN {
        if forall|i: int| 0 <= i < set.len() ==> satisfies(#[trigger] set[i], row) {
            law_every_filter_is_kept(query, now, retention, row);
        }
        if {
            &&& match (query.from, query.to) {
                (Some(f), Some(t)) => f < t ==> f <= row.created_at < t,
                _ => true,
            }
            &&& query.after matches Some(after) ==> row.id > after
            &&& query.after is None ==> (query.before matches Some(before) ==> row.id < before)
            &&& query.q matches Some(q) ==> exists|i: int|
                0 <= i <= row.text.len() - trimmed(q@).len() && same_ignoring_case(
                    trimmed(q@),
                    #[trigger] row.text.subrange(i, i + trimmed(q@).len()),
                )
            &&& retention > 0 ==> row.created_at >= now - retention
        } {
            law_nothing_asked_for_is_held_back(query, now, retention, row);
        }
    }
}

/// A page from the call that makes it: the rows that fit, each unchanged, the oldest
/// first, with a word on whether there were more. Rows of a room that the user is not
/// in are not shown.
pub proof fn law_pages_from_rows<T>(
    limit: usize,
    oldest_first: bool,
    rows: Vec<T>,
    page: Result<MessagePage<T>, ApiError>,
    i: int,
)
    requires
        call_ensures(
            message_page::<T>,
            (limit, oldest_first, Ok::<Option<Vec<T>>, StorageError>(Some(rows))),
            page,
        ),
    ensures
        page is Ok,
        page->Ok_0.has_more <==> rows@.len() > limit,
        page->Ok_0.messages@.len() == if rows@.len() <= limit {
            rows@.len()
        } else {
            limit as nat
        },
        0 <= i < page->Ok_0.messages@.len() ==> page->Ok_0.messages@[i] == if oldest_first {
            rows@[i]
        } else {
            rows@[page->Ok_0.messages@.len() - 1 - i]
        },
{
    law_a_page_holds_its_rows(rows@, limit as nat, oldest_first);
}

/// What a message is answered with: the event itself where it was stored, and why not
/// elsewhere.
pub proof fn law_answers_to_messages(
    outcome: Result<SendMessageOutcome, StorageError>,
    answer: Result<MessageEvent, ApiError>,
)
    requires
        call_ensures(send_answer, (outcome,), answer),
    ensures
        outcome matches Ok(SendMessageOutcome::Sent(event)) ==> answer == Ok::<
            MessageEvent,
            ApiError,
        >(event),
        outcome == Ok::<SendMessageOutcome, StorageError>(SendMessageOutcome::RoomFull)
            ==> answer == Err::<MessageEvent, ApiError>(ApiError::RoomFull),
        outcome == Ok::<SendMessageOutcome, StorageError>(SendMessageOutcome::NotMember)
            ==> answer == Err::<MessageEvent, ApiError>(ApiError::NotMember),
        outcome is Err ==> answer == Err::<MessageEvent, ApiError>(ApiError::Database),
{
}

/// Cleanups come at least once a day and at most once a second, and as often as
/// messages expire within that. One goes on as long as a batch was full.
pub proof fn law_cleanups(retention: i64, period: u64, deleted: usize, goes_on: bool)
    requires
        call_ensures(cleanup_period, (retention,), period),
        call_ensures(cleanup_goes_on, (Ok::<usize, StorageError>(deleted),), goes_on),
    ensures
        1 <= period <= 86_400,
        1 <= retention <= 86_400 ==> period == retention,
        retention < 1 ==> period == 1,
        retention > 86_400 ==> period == 86_400,
        goes_on <==> deleted >= 1_000,
{
}

/// Rows that could not be read are a failure of the database, and those of a room that
/// the user is not in are not shown.
pub proof fn law_pages_that_cannot_be_had<T>(
    limit: usize,
    oldest_first: bool,
    error: StorageError,
    failed: Result<MessagePage<T>, ApiError>,
    outside: Result<MessagePage<T>, ApiError>,
)
    requires
        call_ensures(
            message_page::<T>,
            (limit, oldest_first, Err::<Option<Vec<T>>, StorageError>(error)),
            failed,
        ),
        call_ensures(
            message_page::<T>,
            (limit, oldest_first, Ok::<Option<Vec<T>>, StorageError>(None)),
            outside,
        ),
    ensures
        failed == Err::<MessagePage<T>, ApiError>(ApiError::Database),
        outside == Err::<MessagePage<T>, ApiError>(ApiError::NotMember),
{
}

} // verus!
