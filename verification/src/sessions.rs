//! Who is logged in: session tokens, whose they are and how long they hold.

use crate::table::Table;
use vstd::prelude::*;

verus! {

/// How long a session holds after it was last used, in seconds.
pub const SESSION_TTL_SECS: i64 = 604_800;

/// The sessions that are held at one time.
pub const MAX_SESSIONS: usize = 10_000;

/// The sessions that one user holds at one time.
pub const MAX_SESSIONS_PER_USER: usize = 20;

/// A session: whose it is, and the time at which it no longer holds.
#[derive(Clone, Copy)]
pub struct Session {
    pub user_id: i64,
    pub expires_at: i64,
}

/// The sessions, by their tokens.
pub type Sessions = Table<Session>;

/// The sessions of `all` that still hold at the time `now`.
pub open spec fn live(all: Map<Seq<char>, Session>, now: int) -> Map<Seq<char>, Session> {
    all.restrict(Set::new(|token: Seq<char>| all[token].expires_at > now))
}

/// The tokens of the sessions of `all` that belong to the user.
pub open spec fn tokens_of(all: Map<Seq<char>, Session>, user_id: i64) -> Set<Seq<char>> {
    all.dom().filter(|token: Seq<char>| all[token].user_id == user_id)
}

/// `after` is `before` without the user's sessions that expire first, as many
/// of them as it takes to leave no more than `limit`.
pub open spec fn user_trimmed(
    before: Map<Seq<char>, Session>,
    after: Map<Seq<char>, Session>,
    user_id: i64,
    limit: nat,
) -> bool {
    &&& after.submap_of(before)
    &&& forall|token: Seq<char>|
        #[trigger] before.contains_key(token) && before[token].user_id != user_id
            ==> after.contains_key(token)
    &&& tokens_of(after, user_id).len() == if tokens_of(before, user_id).len() <= limit {
        tokens_of(before, user_id).len()
    } else {
        limit
    }
    &&& forall|gone: Seq<char>, kept: Seq<char>|
        #![trigger before.contains_key(gone), tokens_of(after, user_id).contains(kept)]
        before.contains_key(gone) && !after.contains_key(gone) && tokens_of(
            after,
            user_id,
        ).contains(kept) ==> before[gone].expires_at <= before[kept].expires_at
}

/// `after` is `before`, without the session that expires first (one of them,
/// where several do) if `before` holds `capacity` sessions or more.
pub open spec fn room_made(
    before: Map<Seq<char>, Session>,
    after: Map<Seq<char>, Session>,
    capacity: nat,
) -> bool {
    if before.len() < capacity {
        after == before
    } else {
        exists|gone: Seq<char>|
            {
                &&& #[trigger] before.contains_key(gone)
                &&& expires_first(before, gone)
                &&& after == before.remove(gone)
            }
    }
}

/// No session of `all` expires before the one of `token`.
pub open spec fn expires_first(all: Map<Seq<char>, Session>, token: Seq<char>) -> bool {
    forall|other: Seq<char>|
        #[trigger] all.contains_key(other) ==> all[token].expires_at <= all[other].expires_at
}

/// `after` is what a new session makes of `before`: what has expired goes, the
/// user's sessions are brought below their limit, room is made if there is
/// none, and the session is entered.
pub open spec fn session_entered(
    before: Map<Seq<char>, Session>,
    after: Map<Seq<char>, Session>,
    token: Seq<char>,
    session: Session,
    now: int,
) -> bool {
    exists|below: Map<Seq<char>, Session>, roomy: Map<Seq<char>, Session>|
        {
            &&& #[trigger] user_trimmed(
                live(before, now),
                below,
                session.user_id,
                (MAX_SESSIONS_PER_USER - 1) as nat,
            )
            &&& #[trigger] room_made(below, roomy, MAX_SESSIONS as nat)
            &&& after == roomy.insert(token, session)
        }
}

/// The user whom `token` admits at the time `now`.
pub open spec fn admits(all: Map<Seq<char>, Session>, token: Seq<char>, now: int) -> Option<i64> {
    if all.contains_key(token) && all[token].expires_at > now {
        Some(all[token].user_id)
    } else {
        None
    }
}

/// The sessions after `token` was shown at the time `now`: a session that holds
/// is prolonged, one that has expired is dropped.
pub open spec fn after_use(
    all: Map<Seq<char>, Session>,
    token: Seq<char>,
    now: i64,
) -> Map<Seq<char>, Session> {
    match admits(all, token, now as int) {
        Some(user_id) => all.insert(
            token,
            Session { user_id, expires_at: (now + SESSION_TTL_SECS) as i64 },
        ),
        None => all.remove(token),
    }
}

/// The sessions without those of the user.
pub open spec fn without_user(all: Map<Seq<char>, Session>, user_id: i64) -> Map<
    Seq<char>,
    Session,
> {
    all.restrict(Set::new(|token: Seq<char>| all[token].user_id != user_id))
}

/// Which sessions `keep_where` leaves.
pub enum Keep {
    /// Those that expire after the time.
    LiveAt(i64),
    /// Those of every user but this one.
    NotOf(i64),
}

impl Keep {
    /// Whether the session is left.
    pub open spec fn keeps(self, session: Session) -> bool {
        match self {
            Keep::LiveAt(now) => session.expires_at > now,
            Keep::NotOf(user_id) => session.user_id != user_id,
        }
    }
}

/// Drops the sessions that `keep` does not leave.
fn keep_where(sessions: &mut Sessions, keep: Keep)
    ensures
        final(sessions)@ == old(sessions)@.restrict(
            Set::new(|token: Seq<char>| keep.keeps(old(sessions)@[token])),
        ),
        final(sessions)@.dom().finite(),
{
    let ghost all = sessions@;
    let mut left: Sessions = Table::new();
    let _ = sessions.len();
    let mut more: bool = true;
    while more
        invariant
            sessions@.submap_of(all),
            forall|token: Seq<char>|
                #[trigger] left@.contains_key(token) <==> all.contains_key(token)
                    && !sessions@.contains_key(token) && keep.keeps(all[token]),
            forall|token: Seq<char>|
                #[trigger] left@.contains_key(token) ==> left@[token] == all[token],
            !more ==> sessions@ == Map::<Seq<char>, Session>::empty(),
            more ==> sessions@.dom().finite(),
        decreases
                if more {
                    sessions@.len() + 1
                } else {
                    0
                },
    {
        let ghost rest = sessions@;
        match sessions.pop() {
            Some((token, session)) => {
                assert(rest.dom().contains(token@) && rest[token@] == session);
                assert(all.dom().contains(token@));
                let stays: bool = match keep {
                    Keep::LiveAt(now) => session.expires_at > now,
                    Keep::NotOf(user_id) => session.user_id != user_id,
                };
                if stays {
                    left.push_new(token, session);
                }
            },
            None => {
                more = false;
            },
        }
    }
    let _ = left.len();
    *sessions = left;
    assert(sessions@ =~= all.restrict(Set::new(|token: Seq<char>| keep.keeps(all[token]))));
}

/// Drops the sessions that have expired.
pub fn drop_expired_sessions(sessions: &mut Sessions, current_time: i64)
    ensures
        final(sessions)@ == live(old(sessions)@, current_time as int),
        final(sessions)@.dom().finite(),
{
    keep_where(sessions, Keep::LiveAt(current_time));
    assert(sessions@ =~= live(old(sessions)@, current_time as int));
}

/// Drops the sessions of the user.
pub fn drop_user_sessions(sessions: &mut Sessions, user_id: i64)
    ensures
        final(sessions)@ == without_user(old(sessions)@, user_id),
{
    keep_where(sessions, Keep::NotOf(user_id));
    assert(sessions@ =~= without_user(old(sessions)@, user_id));
}

/// The number of sessions that the user holds.
pub fn count_sessions(sessions: &Sessions, user_id: i64) -> (r: usize)
    ensures
        r == tokens_of(sessions@, user_id).len(),
        tokens_of(sessions@, user_id).finite(),
{
    let n: usize = sessions.len();
    let ghost keys = sessions.keys();
    let ghost mine = |token: Seq<char>| sessions@[token].user_id == user_id;
    let mut count: usize = 0;
    proof {
        assert(keys.take(0).to_set() =~= Set::empty());
        assert(Set::<Seq<char>>::empty().filter(mine) =~= Set::empty());
    }
    for i in 0..n
        invariant
            n == keys.len(),
            keys == sessions.keys(),
            keys.no_duplicates(),
            mine == |token: Seq<char>| sessions@[token].user_id == user_id,
            keys.take(i as int).to_set().filter(mine).finite(),
            count == keys.take(i as int).to_set().filter(mine).len(),
            count <= i,
    {
        let ghost seen = keys.take(i as int).to_set();
        let ghost token = keys[i as int];
        proof {
            assert(!seen.contains(token)) by {
                if seen.contains(token) {
                    let j = choose|j: int| 0 <= j < i && keys.take(i as int)[j] == token;
                    assert(keys[j] == token);
                }
            }
            assert(keys.take(i + 1) =~= keys.take(i as int).push(token));
            assert(keys.take(i + 1).to_set() =~= seen.insert(token)) by {
                keys.take(i as int).lemma_push_to_set_commute(token);
            }
        }
        if sessions.value_at(i).user_id == user_id {
            count = count + 1;
            assert(seen.insert(token).filter(mine) =~= seen.filter(mine).insert(token));
        } else {
            assert(seen.insert(token).filter(mine) =~= seen.filter(mine));
        }
    }
    proof {
        assert(keys.take(n as int) =~= keys);
        assert(tokens_of(sessions@, user_id) =~= keys.to_set().filter(mine));
    }
    count
}

/// Whether the session is the user's, where a user is given.
spec fn belongs_to(session: Session, user_id: Option<i64>) -> bool {
    user_id matches Some(u) ==> session.user_id == u
}

/// The place of a session that expires first, among those of the user where
/// one is given. There is none where no session is asked about.
fn first_to_expire(sessions: &Sessions, user_id: Option<i64>) -> (r: Option<usize>)
    ensures
        match r {
            Some(i) => {
                &&& i < sessions.keys().len()
                &&& sessions@.contains_key(sessions.keys()[i as int])
                &&& belongs_to(sessions@[sessions.keys()[i as int]], user_id)
                &&& forall|token: Seq<char>|
                    #[trigger] sessions@.contains_key(token) && belongs_to(sessions@[token], user_id)
                        ==> sessions@[sessions.keys()[i as int]].expires_at
                        <= sessions@[token].expires_at
            },
            None => forall|token: Seq<char>|
                #[trigger] sessions@.contains_key(token) ==> !belongs_to(sessions@[token], user_id),
        },
{
    let n: usize = sessions.len();
    let ghost keys = sessions.keys();
    let mut best: Option<usize> = None;
    for i in 0..n
        invariant
            n == keys.len(),
            keys == sessions.keys(),
            match best {
                Some(b) => {
                    &&& b < i
                    &&& sessions@.contains_key(keys[b as int])
                    &&& belongs_to(sessions@[keys[b as int]], user_id)
                    &&& forall|j: int|
                        0 <= j < i && belongs_to(sessions@[keys[j]], user_id)
                            ==> sessions@[keys[b as int]].expires_at <= (
                        #[trigger] sessions@[keys[j]]).expires_at
                },
                None => forall|j: int|
                    0 <= j < i ==> !belongs_to(#[trigger] sessions@[keys[j]], user_id),
            },
    {
        let session: Session = *sessions.value_at(i);
        let counts: bool = match user_id {
            Some(u) => session.user_id == u,
            None => true,
        };
        if counts {
            match best {
                Some(b) => {
                    if session.expires_at < sessions.value_at(b).expires_at {
                        best = Some(i);
                    }
                },
                None => {
                    best = Some(i);
                },
            }
        }
    }
    proof {
        assert forall|token: Seq<char>| #[trigger] sessions@.contains_key(token) implies exists|
            j: int,
        | 0 <= j < n && keys[j] == token by {
            assert(keys.to_set().contains(token));
        }
    }
    best
}

/// Enters a session for the user. Sessions that have expired go first; a user
/// who holds too many loses those that expire first, and where the table is
/// full the session that expires first makes room.
pub fn insert_session(sessions: &mut Sessions, token: String, user_id: i64, current_time: i64)
    requires
        current_time + SESSION_TTL_SECS <= i64::MAX,
    ensures
        session_entered(
            old(sessions)@,
            final(sessions)@,
            token@,
            Session { user_id, expires_at: (current_time + SESSION_TTL_SECS) as i64 },
            current_time as int,
        ),
        old(sessions)@.dom().finite(),
{
    let _ = sessions.len();
    drop_expired_sessions(sessions, current_time);
    let ghost alive = sessions@;
    let ghost limit: nat = (MAX_SESSIONS_PER_USER - 1) as nat;
    let mut count: usize = count_sessions(sessions, user_id);
    while count >= MAX_SESSIONS_PER_USER
        invariant
            count == tokens_of(sessions@, user_id).len(),
            tokens_of(sessions@, user_id).finite(),
            sessions@.dom().finite(),
            limit == MAX_SESSIONS_PER_USER - 1,
            alive == live(old(sessions)@, current_time as int),
            user_trimmed(
                alive,
                sessions@,
                user_id,
                if tokens_of(alive, user_id).len() <= limit {
                    limit
                } else {
                    count as nat
                },
            ),
            count >= limit || count == tokens_of(alive, user_id).len(),
        decreases count,
    {
        let ghost before = sessions@;
        match first_to_expire(sessions, Some(user_id)) {
            Some(i) => {
                let (gone, _) = sessions.take_at(i);
                proof {
                    assert(tokens_of(sessions@, user_id) =~= tokens_of(before, user_id).remove(
                        gone@,
                    ));
                    assert(tokens_of(before, user_id).contains(gone@));
                    lemma_trim_one(alive, before, sessions@, user_id, gone@);
                }
                count = count - 1;
            },
            None => {
                assert(tokens_of(sessions@, user_id) =~= Set::empty());
            },
        }
    }
    let ghost below = sessions@;
    if sessions.len() >= MAX_SESSIONS {
        match first_to_expire(sessions, None) {
            Some(i) => {
                let (gone, _) = sessions.take_at(i);
                assert(below.contains_key(gone@) && expires_first(below, gone@));
            },
            None => {
                assert(sessions@.dom() =~= Set::empty());
            },
        }
    }
    let ghost roomy = sessions@;
    assert(user_trimmed(alive, below, user_id, limit));
    assert(room_made(below, roomy, MAX_SESSIONS as nat));
    let session: Session = Session { user_id, expires_at: current_time + SESSION_TTL_SECS };
    sessions.insert(token, session);
    assert(session_entered(
        old(sessions)@,
        sessions@,
        token@,
        session,
        current_time as int,
    )) by {
        assert(user_trimmed(
            live(old(sessions)@, current_time as int),
            below,
            session.user_id,
            limit,
        ));
    }
}

proof fn lemma_trim_one(
    alive: Map<Seq<char>, Session>,
    before: Map<Seq<char>, Session>,
    after: Map<Seq<char>, Session>,
    user_id: i64,
    gone: Seq<char>,
)
    requires
        tokens_of(before, user_id).finite(),
        tokens_of(before, user_id).contains(gone),
        forall|token: Seq<char>|
            #[trigger] before.contains_key(token) && before[token].user_id == user_id
                ==> before[gone].expires_at <= before[token].expires_at,
        after == before.remove(gone),
        tokens_of(before, user_id).len() <= tokens_of(alive, user_id).len(),
        user_trimmed(alive, before, user_id, tokens_of(before, user_id).len()),
    ensures
        user_trimmed(alive, after, user_id, tokens_of(after, user_id).len()),
        tokens_of(after, user_id).len() + 1 == tokens_of(before, user_id).len(),
{
    assert(tokens_of(after, user_id) =~= tokens_of(before, user_id).remove(gone));
    assert(before.dom().contains(gone) && alive.dom().contains(gone));
    assert(alive[gone] == before[gone]);
    assert(after.submap_of(alive)) by {
        assert forall|token: Seq<char>| #[trigger] after.dom().contains(token) implies
            #[trigger] alive.dom().contains(token) && after[token] == alive[token] by {
            assert(before.dom().contains(token));
        }
    }
    assert forall|lost: Seq<char>, kept: Seq<char>|
        #![trigger alive.contains_key(lost), tokens_of(after, user_id).contains(kept)]
        alive.contains_key(lost) && !after.contains_key(lost) && tokens_of(after, user_id).contains(
            kept,
        ) implies alive[lost].expires_at <= alive[kept].expires_at by {
        assert(tokens_of(before, user_id).contains(kept));
        assert(before.dom().contains(kept) && alive.dom().contains(kept));
        if lost == gone {
            assert(before.contains_key(kept));
        } else {
            assert(!before.contains_key(lost));
        }
    }
}

/// The user whom the token admits now. Showing a token prolongs the session,
/// or drops it where it has expired.
pub fn use_token(sessions: &mut Sessions, token: &str, current_time: i64) -> (r: Option<i64>)
    requires
        current_time + SESSION_TTL_SECS <= i64::MAX,
    ensures
        r == admits(old(sessions)@, token@, current_time as int),
        final(sessions)@ == after_use(old(sessions)@, token@, current_time),
{
    match sessions.remove(token) {
        Some(session) => {
            if session.expires_at <= current_time {
                return None;
            }
            let user_id: i64 = session.user_id;
            sessions.push_new(
                token.to_owned(),
                Session { user_id, expires_at: current_time + SESSION_TTL_SECS },
            );
            assert(sessions@ =~= after_use(old(sessions)@, token@, current_time));
            Some(user_id)
        },
        None => None,
    }
}

/// Whether the token still admits the user whom it admitted before. It is
/// dropped where it does not, and prolonged where it does.
pub fn session_active(
    sessions: &mut Sessions,
    token: &str,
    expected_uid: i64,
    current_time: i64,
) -> (r: bool)
    requires
        current_time + SESSION_TTL_SECS <= i64::MAX,
    ensures
        r == (admits(old(sessions)@, token@, current_time as int) == Some(expected_uid)),
        final(sessions)@ == if r {
            after_use(old(sessions)@, token@, current_time)
        } else {
            old(sessions)@.remove(token@)
        },
{
    match use_token(sessions, token, current_time) {
        Some(user_id) => {
            if user_id == expected_uid {
                return true;
            }
            let _ = sessions.remove(token);
            assert(sessions@ =~= old(sessions)@.remove(token@));
            false
        },
        None => false,
    }
}

/// The steps by which a new session is entered.
proof fn lemma_steps(
    before: Map<Seq<char>, Session>,
    after: Map<Seq<char>, Session>,
    token: Seq<char>,
    session: Session,
    now: int,
) -> (steps: (Map<Seq<char>, Session>, Map<Seq<char>, Session>))
    requires
        before.dom().finite(),
        session_entered(before, after, token, session, now),
    ensures
        user_trimmed(
            live(before, now),
            steps.0,
            session.user_id,
            (MAX_SESSIONS_PER_USER - 1) as nat,
        ),
        room_made(steps.0, steps.1, MAX_SESSIONS as nat),
        after == steps.1.insert(token, session),
        live(before, now).dom().finite(),
        live(before, now).len() <= before.len(),
        steps.0.dom().finite(),
        steps.0.dom().subset_of(live(before, now).dom()),
        steps.0.len() <= live(before, now).len(),
        steps.1.dom().finite(),
        steps.1.submap_of(steps.0),
        steps.1.len() < MAX_SESSIONS || steps.0.len() > MAX_SESSIONS,
{
    let alive = live(before, now);
    assert(alive.dom().subset_of(before.dom()));
    vstd::set_lib::lemma_len_subset(alive.dom(), before.dom());
    let (below, roomy) = choose|below: Map<Seq<char>, Session>, roomy: Map<Seq<char>, Session>|
        {
            &&& #[trigger] user_trimmed(
                alive,
                below,
                session.user_id,
                (MAX_SESSIONS_PER_USER - 1) as nat,
            )
            &&& #[trigger] room_made(below, roomy, MAX_SESSIONS as nat)
            &&& after == roomy.insert(token, session)
        };
    assert(below.dom().subset_of(alive.dom()));
    vstd::set_lib::lemma_len_subset(below.dom(), alive.dom());
    (below, roomy)
}

proof fn lemma_tokens_shrink(
    before: Map<Seq<char>, Session>,
    after: Map<Seq<char>, Session>,
    user_id: i64,
)
    requires
        before.dom().finite(),
        after.submap_of(before),
    ensures
        tokens_of(after, user_id).finite(),
        tokens_of(after, user_id).len() <= tokens_of(before, user_id).len(),
{
    assert(tokens_of(after, user_id).subset_of(tokens_of(before, user_id))) by {
        assert forall|token: Seq<char>| #[trigger] tokens_of(after, user_id).contains(
            token,
        ) implies tokens_of(before, user_id).contains(token) by {
            assert(after.dom().contains(token) && before.dom().contains(token));
        }
    }
    vstd::set_lib::lemma_len_subset(tokens_of(after, user_id), tokens_of(before, user_id));
}

proof fn lemma_tokens_insert(
    all: Map<Seq<char>, Session>,
    token: Seq<char>,
    session: Session,
    user_id: i64,
)
    requires
        all.dom().finite(),
    ensures
        tokens_of(all.insert(token, session), user_id).len() <= tokens_of(all, user_id).len()
            + if session.user_id == user_id {
            1int
        } else {
            0int
        },
{
    let more = all.insert(token, session);
    if session.user_id == user_id {
        assert(tokens_of(more, user_id) =~= tokens_of(all, user_id).insert(token));
    } else {
        assert(tokens_of(more, user_id) =~= tokens_of(all, user_id).remove(token));
    }
}

/// Logging in never leaves a user with more than their share of sessions, nor
/// the table with more than it may hold.
pub proof fn law_sessions_stay_bounded(
    before: Map<Seq<char>, Session>,
    after: Map<Seq<char>, Session>,
    token: Seq<char>,
    session: Session,
    now: int,
    user_id: i64,
)
    requires
        before.dom().finite(),
        session_entered(before, after, token, session, now),
    ensures
        tokens_of(after, session.user_id).len() <= MAX_SESSIONS_PER_USER,
        tokens_of(before, user_id).len() <= MAX_SESSIONS_PER_USER ==> tokens_of(
            after,
            user_id,
        ).len() <= MAX_SESSIONS_PER_USER,
        live(before, now).len() <= MAX_SESSIONS ==> after.len() <= MAX_SESSIONS,
        after.dom().finite(),
{
    let (below, roomy) = lemma_steps(before, after, token, session, now);
    let mine = session.user_id;
    lemma_tokens_shrink(below, roomy, mine);
    lemma_tokens_insert(roomy, token, session, mine);
    assert(roomy.submap_of(before)) by {
        assert forall|t: Seq<char>| #[trigger] roomy.dom().contains(t) implies
            #[trigger] before.dom().contains(t) && roomy[t] == before[t] by {
            assert(below.dom().contains(t));
            assert(live(before, now).dom().contains(t));
        }
    }
    if user_id != mine {
        lemma_tokens_shrink(before, roomy, user_id);
        lemma_tokens_insert(roomy, token, session, user_id);
    }
}

/// A user who logs in over and over cannot push out others: while the table
/// has room, or once the user holds their full share, every session of another
/// user that still holds is left as it is.
pub proof fn law_others_keep_their_sessions(
    before: Map<Seq<char>, Session>,
    after: Map<Seq<char>, Session>,
    token: Seq<char>,
    session: Session,
    now: int,
    other: Seq<char>,
)
    requires
        before.dom().finite(),
        live(before, now).len() <= MAX_SESSIONS,
        session_entered(before, after, token, session, now),
        live(before, now).len() < MAX_SESSIONS || tokens_of(
            live(before, now),
            session.user_id,
        ).len() >= MAX_SESSIONS_PER_USER,
        other != token,
        live(before, now).contains_key(other),
        before[other].user_id != session.user_id,
    ensures
        after.contains_key(other),
        after[other] == before[other],
{
    let (below, roomy) = lemma_steps(before, after, token, session, now);
    let alive = live(before, now);
    let mine = session.user_id;
    if tokens_of(alive, mine).len() >= MAX_SESSIONS_PER_USER {
        assert(below.dom() != alive.dom()) by {
            if below.dom() == alive.dom() {
                assert(below =~= alive);
            }
        }
        let gone = choose|t: Seq<char>| alive.dom().contains(t) && !below.dom().contains(t);
        assert(exists|t: Seq<char>| alive.dom().contains(t) && !below.dom().contains(t)) by {
            if forall|t: Seq<char>| alive.dom().contains(t) ==> below.dom().contains(t) {
                assert(below.dom() =~= alive.dom());
            }
        }
        assert(below.dom().subset_of(alive.dom().remove(gone)));
        vstd::set_lib::lemma_len_subset(below.dom(), alive.dom().remove(gone));
    }
    assert(below.len() < MAX_SESSIONS);
    assert(below.dom().contains(other) && alive.dom().contains(other));
}

/// A new session admits its user until it expires, and nothing that has
/// expired is left beside it.
pub proof fn law_new_session_admits(
    before: Map<Seq<char>, Session>,
    after: Map<Seq<char>, Session>,
    token: Seq<char>,
    session: Session,
    now: int,
    later: int,
)
    requires
        before.dom().finite(),
        session_entered(before, after, token, session, now),
        now < session.expires_at,
    ensures
        admits(after, token, later) == if later < session.expires_at {
            Some(session.user_id)
        } else {
            None
        },
        live(after, now) == after,
{
    let (below, roomy) = lemma_steps(before, after, token, session, now);
    assert forall|t: Seq<char>| after.contains_key(t) implies (#[trigger] after[t]).expires_at
        > now by {
        if t != token {
            assert(roomy.dom().contains(t) && below.dom().contains(t));
            assert(live(before, now).dom().contains(t));
        }
    }
    assert(live(after, now) =~= after);
}

/// Using a session prolongs it: it admits the same user until a full term has
/// passed without use. A token that admits no one admits no one later.
pub proof fn law_use_prolongs(
    all: Map<Seq<char>, Session>,
    token: Seq<char>,
    now: i64,
    later: int,
)
    requires
        now + SESSION_TTL_SECS <= i64::MAX,
    ensures
        admits(after_use(all, token, now), token, later) == if later < now + SESSION_TTL_SECS {
            admits(all, token, now as int)
        } else {
            None
        },
{
}

/// Using one token changes nothing about another.
pub proof fn law_use_is_local(
    all: Map<Seq<char>, Session>,
    token: Seq<char>,
    other: Seq<char>,
    now: i64,
    later: int,
)
    requires
        token != other,
    ensures
        admits(after_use(all, token, now), other, later) == admits(all, other, later),
{
}

/// Once the sessions of a user are dropped none of their tokens admits anyone,
/// and the tokens of everyone else admit whom they did.
pub proof fn law_dropped_user_is_out(
    all: Map<Seq<char>, Session>,
    user_id: i64,
    token: Seq<char>,
    now: int,
)
    ensures
        admits(without_user(all, user_id), token, now) == if admits(all, token, now) == Some(
            user_id,
        ) {
            None
        } else {
            admits(all, token, now)
        },
{
}

/// A token admits the user whose session it is, until the session expires.
pub proof fn law_whom_a_token_admits(
    all: Map<Seq<char>, Session>,
    token: Seq<char>,
    now: int,
    user_id: i64,
)
    ensures
        admits(all, token, now) == Some(user_id) <==> all.contains_key(token)
            && all[token].expires_at > now && all[token].user_id == user_id,
{
}

/// Showing a token gives a session that holds another week from now, drops one that
/// has expired, and leaves every other session as it is.
pub proof fn law_using_a_token(
    all: Map<Seq<char>, Session>,
    token: Seq<char>,
    now: i64,
    other: Seq<char>,
)
    requires
        now + 604_800 <= i64::MAX,
    ensures
        ({
            let after = after_use(all, token, now);
            &&& after.contains_key(token) <==> all.contains_key(token) && all[token].expires_at > now
            &&& after.contains_key(token) ==> after[token].user_id == all[token].user_id
                && after[token].expires_at == now + 604_800
            &&& other != token ==> after.contains_key(other) == all.contains_key(other)
                && after[other] == all[other]
        }),
{
}

/// Of sessions that are dropped by their time exactly those go that have expired, of
/// those that are dropped by their user exactly that user's; the others stay as they
/// are. A user's tokens are those of the user's sessions.
pub proof fn law_what_is_dropped(
    all: Map<Seq<char>, Session>,
    token: Seq<char>,
    now: int,
    user_id: i64,
)
    ensures
        live(all, now).contains_key(token) <==> all.contains_key(token) && all[token].expires_at
            > now,
        live(all, now).contains_key(token) ==> live(all, now)[token] == all[token],
        without_user(all, user_id).contains_key(token) <==> all.contains_key(token)
            && all[token].user_id != user_id,
        without_user(all, user_id).contains_key(token) ==> without_user(all, user_id)[token]
            == all[token],
        tokens_of(all, user_id).contains(token) <==> all.contains_key(token) && all[token].user_id
            == user_id,
{
}

/// A user holds at most twenty sessions after logging in, and ten thousand are held
/// at most, where no more of them held before.
pub proof fn law_sessions_in_numbers(
    before: Map<Seq<char>, Session>,
    after: Map<Seq<char>, Session>,
    token: Seq<char>,
    session: Session,
    now: int,
)
    requires
        before.dom().finite(),
        session_entered(before, after, token, session, now),
    ensures
        tokens_of(after, session.user_id).len() <= 20,
        live(before, now).len() <= 10_000 ==> after.len() <= 10_000,
        after.contains_key(token),
        after[token] == session,
{
    law_sessions_stay_bounded(before, after, token, session, now, session.user_id);
}

/// Nothing is lost without need: where the user holds fewer than twenty sessions and
/// fewer than ten thousand are held, a new session leaves everything that has not
/// expired as it is.
pub proof fn law_nothing_is_lost_without_need(
    before: Map<Seq<char>, Session>,
    after: Map<Seq<char>, Session>,
    token: Seq<char>,
    session: Session,
    now: int,
)
    requires
        before.dom().finite(),
        session_entered(before, after, token, session, now),
        live(before, now).len() < 10_000,
        tokens_of(live(before, now), session.user_id).len() < 20,
    ensures
        after == live(before, now).insert(token, session),
{
    let (below, roomy) = lemma_steps(before, after, token, session, now);
    let alive = live(before, now);
    let mine = session.user_id;
    lemma_tokens_shrink(alive, below, mine);
    assert(tokens_of(alive, mine).subset_of(alive.dom()));
    assert(tokens_of(below, mine).subset_of(tokens_of(alive, mine))) by {
        assert forall|t: Seq<char>| #[trigger] tokens_of(below, mine).contains(t) implies tokens_of(
            alive,
            mine,
        ).contains(t) by {
            assert(below.dom().contains(t) && alive.dom().contains(t));
        }
    }
    vstd::set_lib::lemma_subset_equality(tokens_of(below, mine), tokens_of(alive, mine));
    assert(below =~= alive) by {
        assert forall|t: Seq<char>| alive.dom().contains(t) implies #[trigger] below.dom().contains(
            t,
        ) by {
            if alive[t].user_id == mine {
                assert(tokens_of(alive, mine).contains(t));
            } else {
                assert(alive.contains_key(t));
            }
        }
        assert(below.dom() =~= alive.dom());
        assert forall|t: Seq<char>| below.dom().contains(t) implies below[t] == alive[t] by {
            assert(alive.dom().contains(t));
        }
    }
    assert(after =~= alive.insert(token, session));
}

/// Where a session has to go for a new one, it is one that expires first: among the
/// user's own where the user holds too many, among all where there is no room. A
/// session of someone else goes for no other reason.
pub proof fn law_the_first_to_expire_go(
    before: Map<Seq<char>, Session>,
    after: Map<Seq<char>, Session>,
    token: Seq<char>,
    session: Session,
    now: int,
    gone: Seq<char>,
    kept: Seq<char>,
)
    requires
        before.dom().finite(),
        session_entered(before, after, token, session, now),
        before.contains_key(gone),
        before[gone].expires_at > now,
        !after.contains_key(gone),
        after.contains_key(kept),
        kept != token,
    ensures
        before.contains_key(kept),
        after[kept] == before[kept],
        before[kept].expires_at > now,
        before[kept].user_id == session.user_id || before[gone].user_id != session.user_id
            ==> before[gone].expires_at <= before[kept].expires_at,
{
    let (below, roomy) = lemma_steps(before, after, token, session, now);
    let alive = live(before, now);
    let mine = session.user_id;
    assert(alive.contains_key(gone));
    assert(roomy.dom().contains(kept));
    assert(below.dom().contains(kept));
    assert(alive.dom().contains(kept));
    assert(roomy[kept] == below[kept] && below[kept] == alive[kept]);
    if below.contains_key(gone) {
        assert(below.dom().contains(gone) && alive.dom().contains(gone));
        assert(!roomy.contains_key(gone));
        assert(below.contains_key(kept));
        assert(below[gone] == alive[gone]);
    } else {
        assert(before[gone].user_id == mine);
        if before[kept].user_id == mine {
            assert(tokens_of(below, mine).contains(kept));
        }
    }
}

/// A session is active exactly where its token admits the user who is expected. Then
/// it holds for another week; else it is gone. No other session is touched.
pub proof fn law_active_sessions(
    sessions: &mut Sessions,
    token: &str,
    uid: i64,
    now: i64,
    active: bool,
    other: Seq<char>,
)
    requires
        call_ensures(session_active, (sessions, token, uid, now), active),
        now + 604_800 <= i64::MAX,
    ensures
        active <==> old(sessions)@.contains_key(token@) && old(sessions)@[token@].expires_at > now
            && old(sessions)@[token@].user_id == uid,
        active ==> final(sessions)@.contains_key(token@) && final(sessions)@[token@] == (Session {
            user_id: uid,
            expires_at: (now + 604_800) as i64,
        }),
        !active ==> !final(sessions)@.contains_key(token@),
        other != token@ ==> final(sessions)@.contains_key(other) == old(sessions)@.contains_key(
            other,
        ) && final(sessions)@[other] == old(sessions)@[other],
{
}

/// The sessions that a call drops are those of the user, or those that have expired,
/// and no others.
pub proof fn law_calls_that_drop_sessions(
    of_user: &mut Sessions,
    uid: i64,
    expired: &mut Sessions,
    now: i64,
    token: Seq<char>,
)
    requires
        call_ensures(drop_user_sessions, (of_user, uid), ()),
        call_ensures(drop_expired_sessions, (expired, now), ()),
    ensures
        final(of_user)@.contains_key(token) <==> old(of_user)@.contains_key(token) && old(
            of_user,
        )@[token].user_id != uid,
        final(of_user)@.contains_key(token) ==> final(of_user)@[token] == old(of_user)@[token],
        final(expired)@.contains_key(token) <==> old(expired)@.contains_key(token) && old(
            expired,
        )@[token].expires_at > now,
        final(expired)@.contains_key(token) ==> final(expired)@[token] == old(expired)@[token],
{
}

} // verus!
