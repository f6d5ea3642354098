//! How often a key may try something within a sliding window of time.

use crate::table::Table;
use std::collections::VecDeque;
use vstd::prelude::*;

verus! {

/// The window for logging in, in seconds.
pub const LOGIN_WINDOW_SECS: i64 = 60;

/// The attempts to log in that a user name has within the window.
pub const MAX_LOGIN_ATTEMPTS: usize = 5;

/// The attempts to log in that a source address has within the window.
pub const MAX_LOGIN_ATTEMPTS_PER_IP: usize = 30;

/// The source addresses that are watched at one time.
pub const MAX_LOGIN_IPS: usize = 100_000;

/// The user names that are watched at one time.
pub const MAX_LOGIN_USERS: usize = 10_000;

/// The window for registering, in seconds.
pub const REGISTRATION_WINDOW_SECS: i64 = 3_600;

/// The attempts to register that a source address has within the window.
pub const MAX_REGISTRATION_ATTEMPTS: usize = 10;

/// The source addresses whose registrations are watched at one time.
pub const MAX_REGISTRATION_SOURCES: usize = 10_000;

/// For each key the times of its granted attempts, oldest first.
pub struct Attempts {
    table: Table<VecDeque<i64>>,
}

impl View for Attempts {
    type V = Map<Seq<char>, Seq<i64>>;

    closed spec fn view(&self) -> Map<Seq<char>, Seq<i64>> {
        self.table@.map_values(|times: VecDeque<i64>| times@)
    }
}

/// `times` without the leading ones that are not after `cutoff`.
pub open spec fn fresh(times: Seq<i64>, cutoff: int) -> Seq<i64>
    decreases times.len(),
{
    if times.len() > 0 && times.first() <= cutoff {
        fresh(times.drop_first(), cutoff)
    } else {
        times
    }
}

/// `log` without what is not after `cutoff`, and without the keys of which
/// nothing is left.
pub open spec fn pruned(log: Map<Seq<char>, Seq<i64>>, cutoff: int) -> Map<Seq<char>, Seq<i64>> {
    Map::new(
        |key: Seq<char>| log.contains_key(key) && fresh(log[key], cutoff).len() > 0,
        |key: Seq<char>| fresh(log[key], cutoff),
    )
}

/// The times that `log` holds for `key`.
pub open spec fn times_of(log: Map<Seq<char>, Seq<i64>>, key: Seq<char>) -> Seq<i64> {
    if log.contains_key(key) {
        log[key]
    } else {
        Seq::empty()
    }
}

/// How many attempts are granted, to how many keys, over which time.
pub struct Limits {
    pub window_secs: int,
    pub max_attempts: nat,
    pub max_keys: nat,
}

/// Whether an attempt of `key` at the time `now` is granted: there is room for
/// the key, and it has attempts left in the window that ends now.
pub open spec fn grants(
    log: Map<Seq<char>, Seq<i64>>,
    key: Seq<char>,
    now: int,
    limits: Limits,
) -> bool {
    let kept = pruned(log, now - limits.window_secs);
    &&& kept.contains_key(key) || kept.len() < limits.max_keys
    &&& times_of(kept, key).len() < limits.max_attempts
}

/// The log after an attempt of `key` at the time `now`. A key that there is no
/// room for is not entered; a refused attempt is not recorded.
pub open spec fn after_attempt(
    log: Map<Seq<char>, Seq<i64>>,
    key: Seq<char>,
    now: i64,
    limits: Limits,
) -> Map<Seq<char>, Seq<i64>> {
    let kept = pruned(log, now - limits.window_secs);
    if !kept.contains_key(key) && kept.len() >= limits.max_keys {
        kept
    } else if grants(log, key, now as int, limits) {
        kept.insert(key, times_of(kept, key).push(now))
    } else {
        kept.insert(key, times_of(kept, key))
    }
}

/// The limits on attempts to log in under one user name.
pub open spec fn user_limits() -> Limits {
    Limits {
        window_secs: LOGIN_WINDOW_SECS as int,
        max_attempts: MAX_LOGIN_ATTEMPTS as nat,
        max_keys: MAX_LOGIN_USERS as nat,
    }
}

/// The limits on attempts to log in from one source address.
pub open spec fn source_limits() -> Limits {
    Limits {
        window_secs: LOGIN_WINDOW_SECS as int,
        max_attempts: MAX_LOGIN_ATTEMPTS_PER_IP as nat,
        max_keys: MAX_LOGIN_IPS as nat,
    }
}

/// The limits on attempts to register from one source address.
pub open spec fn registration_limits() -> Limits {
    Limits {
        window_secs: REGISTRATION_WINDOW_SECS as int,
        max_attempts: MAX_REGISTRATION_ATTEMPTS as nat,
        max_keys: MAX_REGISTRATION_SOURCES as nat,
    }
}

impl Attempts {
    /// A log without attempts.
    pub fn new() -> (r: Self)
        ensures
            r@ == Map::<Seq<char>, Seq<i64>>::empty(),
            r@.dom().finite(),
    {
        let r = Attempts { table: Table::new() };
        assert(r@ =~= Map::<Seq<char>, Seq<i64>>::empty());
        r
    }

    /// Forgets the attempts of the key.
    pub fn clear(&mut self, key: &str)
        ensures
            final(self)@ == old(self)@.remove(key@),
            old(self)@.dom().finite(),
            final(self)@.dom().finite(),
    {
        let _ = self.table.len();
        assert(self@.dom() =~= self.table@.dom());
        let _ = self.table.remove(key);
        assert(self@ =~= old(self)@.remove(key@));
    }
}

/// Drops the leading times that are not after `cutoff`.
fn drop_expired(times: &mut VecDeque<i64>, cutoff: i64)
    ensures
        final(times)@ == fresh(old(times)@, cutoff as int),
{
    while times.len() > 0 && times[0] <= cutoff
        invariant
            fresh(times@, cutoff as int) == fresh(old(times)@, cutoff as int),
        decreases times@.len(),
    {
        let ghost before = times@;
        let _ = times.pop_front();
        assert(times@ =~= before.drop_first());
    }
}

/// Drops the times that are not after `cutoff`, and the keys without any.
fn prune(attempts: &mut Attempts, cutoff: i64)
    ensures
        final(attempts)@ == pruned(old(attempts)@, cutoff as int),
        old(attempts)@.dom().finite(),
        final(attempts)@.dom().finite(),
        final(attempts).table@.dom().finite(),
        final(attempts).table@.len() == final(attempts)@.len(),
{
    let ghost log = attempts@;
    let ghost all = attempts.table@;
    let _ = attempts.table.len();
    assert(log.dom() =~= all.dom());
    let mut kept: Table<VecDeque<i64>> = Table::new();
    let mut more: bool = true;
    while more
        invariant
            log == all.map_values(|times: VecDeque<i64>| times@),
            attempts.table@.submap_of(all),
            forall|key: Seq<char>|
                #[trigger] kept@.contains_key(key) <==> all.contains_key(key)
                    && !attempts.table@.contains_key(key) && fresh(
                    all[key]@,
                    cutoff as int,
                ).len() > 0,
            forall|key: Seq<char>|
                #[trigger] kept@.contains_key(key) ==> kept@[key]@ == fresh(
                    all[key]@,
                    cutoff as int,
                ),
            !more ==> attempts.table@ == Map::<Seq<char>, VecDeque<i64>>::empty(),
            more ==> attempts.table@.dom().finite(),
        decreases
                if more {
                    attempts.table@.len() + 1
                } else {
                    0
                },
    {
        let ghost rest = attempts.table@;
        match attempts.table.pop() {
            Some((key, held)) => {
                assert(rest.dom().contains(key@) && rest[key@] == held);
                assert(all.dom().contains(key@));
                let mut times: VecDeque<i64> = held;
                drop_expired(&mut times, cutoff);
                if times.len() > 0 {
                    kept.push_new(key, times);
                }
            },
            None => {
                more = false;
            },
        }
    }
    let _ = kept.len();
    attempts.table = kept;
    proof {
        assert(attempts@ =~= pruned(log, cutoff as int));
        assert(attempts@.dom() =~= attempts.table@.dom());
    }
}

/// Whether the key may try once more now. A granted attempt is recorded.
pub fn attempt_allowed(
    attempts: &mut Attempts,
    key: &str,
    current_time: i64,
    window_secs: i64,
    max_attempts: usize,
    max_keys: usize,
) -> (r: bool)
    requires
        i64::MIN <= current_time - window_secs <= i64::MAX,
    ensures
        ({
            let limits = Limits {
                window_secs: window_secs as int,
                max_attempts: max_attempts as nat,
                max_keys: max_keys as nat,
            };
            &&& r == grants(old(attempts)@, key@, current_time as int, limits)
            &&& final(attempts)@ == after_attempt(old(attempts)@, key@, current_time, limits)
        }),
        old(attempts)@.dom().finite(),
        final(attempts)@.dom().finite(),
{
    prune(attempts, current_time - window_secs);
    let ghost kept = attempts@;
    let ghost held = attempts.table@;
    if !attempts.table.contains_key(key) && attempts.table.len() >= max_keys {
        return false;
    }
    let mut times: VecDeque<i64> = match attempts.table.remove(key) {
        Some(times) => times,
        None => VecDeque::new(),
    };
    assert(times@ =~= times_of(kept, key@));
    let allowed: bool = times.len() < max_attempts;
    if allowed {
        times.push_back(current_time);
    }
    attempts.table.insert(key.to_owned(), times);
    assert(attempts@ =~= kept.insert(key@, times@));
    allowed
}

/// Whether a login under the user name may be tried now from the source. The
/// source is asked only where the user name has attempts left.
pub fn login_allowed(
    by_user: &mut Attempts,
    by_source: &mut Attempts,
    username: &str,
    source: &str,
    current_time: i64,
) -> (r: bool)
    requires
        i64::MIN + LOGIN_WINDOW_SECS <= current_time,
    ensures
        ({
            let user_granted = grants(old(by_user)@, username@, current_time as int, user_limits());
            &&& r == (user_granted && grants(
                old(by_source)@,
                source@,
                current_time as int,
                source_limits(),
            ))
            &&& final(by_user)@ == after_attempt(
                old(by_user)@,
                username@,
                current_time,
                user_limits(),
            )
            &&& final(by_source)@ == if user_granted {
                after_attempt(old(by_source)@, source@, current_time, source_limits())
            } else {
                old(by_source)@
            }
        }),
        old(by_user)@.dom().finite(),
        final(by_user)@.dom().finite(),
        old(by_source)@.dom().finite(),
        final(by_source)@.dom().finite(),
{
    let _ = by_source.table.len();
    assert(by_source@.dom() =~= by_source.table@.dom());
    if !attempt_allowed(
        by_user,
        username,
        current_time,
        LOGIN_WINDOW_SECS,
        MAX_LOGIN_ATTEMPTS,
        MAX_LOGIN_USERS,
    ) {
        return false;
    }
    attempt_allowed(
        by_source,
        source,
        current_time,
        LOGIN_WINDOW_SECS,
        MAX_LOGIN_ATTEMPTS_PER_IP,
        MAX_LOGIN_IPS,
    )
}

/// Forgets the attempts of the user name and of the source.
pub fn clear_login_attempts(
    by_user: &mut Attempts,
    by_source: &mut Attempts,
    username: &str,
    source: &str,
)
    ensures
        final(by_user)@ == old(by_user)@.remove(username@),
        final(by_source)@ == old(by_source)@.remove(source@),
        old(by_user)@.dom().finite(),
        final(by_user)@.dom().finite(),
        old(by_source)@.dom().finite(),
        final(by_source)@.dom().finite(),
{
    by_user.clear(username);
    by_source.clear(source);
}

/// Whether a registration may be tried now from the source.
pub fn registration_allowed(attempts: &mut Attempts, source: &str, current_time: i64) -> (r: bool)
    requires
        i64::MIN + REGISTRATION_WINDOW_SECS <= current_time,
    ensures
        r == grants(old(attempts)@, source@, current_time as int, registration_limits()),
        final(attempts)@ == after_attempt(
            old(attempts)@,
            source@,
            current_time,
            registration_limits(),
        ),
        old(attempts)@.dom().finite(),
        final(attempts)@.dom().finite(),
{
    attempt_allowed(
        attempts,
        source,
        current_time,
        REGISTRATION_WINDOW_SECS,
        MAX_REGISTRATION_ATTEMPTS,
        MAX_REGISTRATION_SOURCES,
    )
}

/// One attempt: who, and when.
pub struct Attempt {
    pub key: Seq<char>,
    pub time: i64,
}

/// The log after the attempts `trace`, one after the other.
pub open spec fn log_after(trace: Seq<Attempt>, limits: Limits) -> Map<Seq<char>, Seq<i64>>
    decreases trace.len(),
{
    if trace.len() == 0 {
        Map::empty()
    } else {
        let attempt = trace.last();
        after_attempt(log_after(trace.drop_last(), limits), attempt.key, attempt.time, limits)
    }
}

/// The times at which `trace` has an attempt of `key` granted.
pub open spec fn granted_times(trace: Seq<Attempt>, key: Seq<char>, limits: Limits) -> Seq<i64>
    decreases trace.len(),
{
    if trace.len() == 0 {
        Seq::empty()
    } else {
        let before = trace.drop_last();
        let attempt = trace.last();
        let times = granted_times(before, key, limits);
        if attempt.key == key && grants(
            log_after(before, limits),
            key,
            attempt.time as int,
            limits,
        ) {
            times.push(attempt.time)
        } else {
            times
        }
    }
}

/// How many of `times` lie after `low` and not after `high`.
pub open spec fn count_within(times: Seq<i64>, low: int, high: int) -> nat {
    times.filter(|time: i64| low < time <= high).len()
}

/// No attempt of `trace` comes before an earlier one.
pub open spec fn in_order(trace: Seq<Attempt>) -> bool {
    forall|i: int, j: int|
        0 <= i <= j < trace.len() ==> (#[trigger] trace[i]).time <= (#[trigger] trace[j]).time
}

proof fn lemma_fresh_again(times: Seq<i64>, low: int, high: int)
    requires
        low <= high,
    ensures
        fresh(fresh(times, low), high) == fresh(times, high),
        fresh(times, high).len() <= fresh(times, low).len(),
        fresh(times, low).len() <= times.len(),
    decreases times.len(),
{
    if times.len() > 0 && times.first() <= high {
        lemma_fresh_again(times.drop_first(), low, high);
    }
}

proof fn lemma_fresh_push(times: Seq<i64>, cutoff: int, time: i64)
    requires
        cutoff < time,
    ensures
        fresh(times.push(time), cutoff) == fresh(times, cutoff).push(time),
    decreases times.len(),
{
    if times.len() > 0 && times.first() <= cutoff {
        lemma_fresh_push(times.drop_first(), cutoff, time);
        assert(times.push(time).drop_first() =~= times.drop_first().push(time));
    }
}

proof fn lemma_count_fresh(times: Seq<i64>, low: int, high: int)
    ensures
        count_within(times, low, high) <= fresh(times, low).len(),
    decreases times.len(),
{
    let within = |time: i64| low < time <= high;
    if times.len() > 0 && times.first() <= low {
        lemma_count_fresh(times.drop_first(), low, high);
        let head = seq![times.first()];
        assert(times =~= head + times.drop_first());
        Seq::filter_distributes_over_add(head, times.drop_first(), within);
        assert(head.filter(within).len() == 0) by {
            head.lemma_all_neg_filter_empty(within);
        }
    } else {
        times.lemma_filter_len(within);
    }
}

/// The log holds, for every key, its granted attempts within the window that
/// ends at the last attempt.
proof fn lemma_log_is_window(trace: Seq<Attempt>, key: Seq<char>, limits: Limits)
    requires
        in_order(trace),
        limits.window_secs > 0,
    ensures
        trace.len() > 0 ==> times_of(log_after(trace, limits), key) == fresh(
            granted_times(trace, key, limits),
            trace.last().time - limits.window_secs,
        ),
        trace.len() == 0 ==> times_of(log_after(trace, limits), key) == Seq::<i64>::empty(),
    decreases trace.len(),
{
    if trace.len() > 0 {
        let before = trace.drop_last();
        let attempt = trace.last();
        let cutoff = attempt.time - limits.window_secs;
        lemma_log_is_window(before, key, limits);
        let log = log_after(before, limits);
        let times = granted_times(before, key, limits);
        let kept = pruned(log, cutoff);
        if before.len() > 0 {
            assert(before.last().time <= attempt.time);
            lemma_fresh_again(times, before.last().time - limits.window_secs, cutoff);
        }
        assert(times_of(kept, key) =~= fresh(times, cutoff)) by {
            assert(times_of(kept, key) =~= fresh(times_of(log, key), cutoff));
        }
        lemma_fresh_push(times, cutoff, attempt.time);
    }
}

/// However the attempts of any number of keys interleave, no key has more than
/// `max_attempts` of its own granted within any window of `window_secs`.
pub proof fn law_window_bound(trace: Seq<Attempt>, key: Seq<char>, limits: Limits, end: int)
    requires
        in_order(trace),
        limits.window_secs > 0,
    ensures
        count_within(granted_times(trace, key, limits), end - limits.window_secs, end)
            <= limits.max_attempts,
    decreases trace.len(),
{
    let low = end - limits.window_secs;
    if trace.len() == 0 {
        lemma_count_fresh(Seq::<i64>::empty(), low, end);
    } else {
        let before = trace.drop_last();
        let attempt = trace.last();
        let times = granted_times(before, key, limits);
        let log = log_after(before, limits);
        law_window_bound(before, key, limits, end);
        if attempt.key == key && grants(log, key, attempt.time as int, limits) {
            let cutoff = attempt.time - limits.window_secs;
            times.lemma_filter_len_push(|time: i64| low < time <= end, attempt.time);
            if attempt.time <= end {
                lemma_log_is_window(before, key, limits);
                if before.len() > 0 {
                    assert(before.last().time <= attempt.time);
                    lemma_fresh_again(times, before.last().time - limits.window_secs, cutoff);
                }
                assert(times_of(pruned(log, cutoff), key) =~= fresh(times_of(log, key), cutoff));
                lemma_fresh_again(times, cutoff, low);
                lemma_count_fresh(times, low, end);
            }
        }
    }
}

/// No key ever holds more times than `max_attempts`, and no more keys are held
/// than `max_keys`.
pub proof fn law_log_stays_bounded(
    log: Map<Seq<char>, Seq<i64>>,
    key: Seq<char>,
    now: i64,
    limits: Limits,
)
    requires
        log.dom().finite(),
        log.len() <= limits.max_keys,
        forall|k: Seq<char>| log.contains_key(k) ==> (#[trigger] log[k]).len() <= limits.max_attempts,
    ensures
        ({
            let after = after_attempt(log, key, now, limits);
            &&& after.dom().finite()
            &&& after.len() <= limits.max_keys
            &&& forall|k: Seq<char>|
                after.contains_key(k) ==> (#[trigger] after[k]).len() <= limits.max_attempts
        }),
{
    let cutoff = now - limits.window_secs;
    let kept = pruned(log, cutoff);
    assert(kept.dom().subset_of(log.dom()));
    vstd::set_lib::lemma_len_subset(kept.dom(), log.dom());
    assert forall|k: Seq<char>| kept.contains_key(k) implies (#[trigger] kept[k]).len()
        <= limits.max_attempts by {
        lemma_fresh_again(log[k], cutoff, cutoff);
    }
}

/// A log that keeps to its limits at the time `now`: it holds no more keys than
/// it may, and of each key no more times than it may, in order, and none that is
/// still to come.
pub open spec fn keeps_to(log: Map<Seq<char>, Seq<i64>>, limits: Limits, now: int) -> bool {
    &&& log.dom().finite()
    &&& log.len() <= limits.max_keys
    &&& forall|k: Seq<char>| log.contains_key(k) ==> times_keep_to(#[trigger] log[k], limits, now)
}

/// Not too many times, in order, and none that is still to come.
pub open spec fn times_keep_to(times: Seq<i64>, limits: Limits, now: int) -> bool {
    &&& times.len() <= limits.max_attempts
    &&& forall|i: int, j: int| 0 <= i <= j < times.len() ==> times[i] <= times[j]
    &&& forall|i: int| 0 <= i < times.len() ==> #[trigger] times[i] <= now
}

proof fn lemma_fresh_keeps_to(times: Seq<i64>, cutoff: int, limits: Limits, now: int)
    requires
        times_keep_to(times, limits, now),
    ensures
        times_keep_to(fresh(times, cutoff), limits, now),
        forall|i: int|
            0 <= i < fresh(times, cutoff).len() ==> #[trigger] fresh(times, cutoff)[i] > cutoff,
    decreases times.len(),
{
    if times.len() > 0 && times.first() <= cutoff {
        let rest = times.drop_first();
        assert(times_keep_to(rest, limits, now)) by {
            assert forall|i: int| 0 <= i < rest.len() implies #[trigger] rest[i] <= now by {
                assert(times[i + 1] <= now);
            }
        }
        lemma_fresh_keeps_to(rest, cutoff, limits, now);
    } else {
        assert forall|i: int| 0 <= i < times.len() implies #[trigger] times[i] > cutoff by {
            assert(times[0] <= times[i]);
        }
    }
}

/// An attempt leaves a log that keeps to its limits as one, of which moreover no
/// key is without times and every time lies in the window that ends now.
pub proof fn law_attempts_keep_to_the_limits(
    log: Map<Seq<char>, Seq<i64>>,
    key: Seq<char>,
    now: i64,
    limits: Limits,
)
    requires
        limits.window_secs >= 1,
        limits.max_attempts >= 1,
        keeps_to(log, limits, now as int),
    ensures
        ({
            let after = after_attempt(log, key, now, limits);
            &&& keeps_to(after, limits, now as int)
            &&& forall|k: Seq<char>|
                #![trigger after[k]]
                after.contains_key(k) ==> after[k].len() > 0 && forall|i: int|
                    0 <= i < after[k].len() ==> now - limits.window_secs < #[trigger] after[k][i]
                        <= now
        }),
{
    let cutoff = now - limits.window_secs;
    let kept = pruned(log, cutoff);
    let after = after_attempt(log, key, now, limits);
    assert forall|k: Seq<char>| log.contains_key(k) implies (#[trigger] log[k]).len()
        <= limits.max_attempts by {
        assert(times_keep_to(log[k], limits, now as int));
    }
    law_log_stays_bounded(log, key, now, limits);
    assert forall|k: Seq<char>| after.contains_key(k) implies times_keep_to(
        #[trigger] after[k],
        limits,
        now as int,
    ) && after[k].len() > 0 && forall|i: int|
        0 <= i < after[k].len() ==> cutoff < #[trigger] after[k][i] <= now by {
        let held = times_of(kept, k);
        if kept.contains_key(k) {
            assert(times_keep_to(log[k], limits, now as int));
            lemma_fresh_keeps_to(log[k], cutoff, limits, now as int);
        }
        assert(times_keep_to(held, limits, now as int));
        if k == key && grants(log, key, now as int, limits) {
            assert(after[k] == held.push(now));
        } else {
            assert(after[k] == held);
        }
    }
}

/// An attempt of one key takes nothing from another: what the other key holds
/// is what it held, without what has left the window.
pub proof fn law_keys_are_independent(
    log: Map<Seq<char>, Seq<i64>>,
    key: Seq<char>,
    other: Seq<char>,
    now: i64,
    limits: Limits,
)
    requires
        key != other,
    ensures
        times_of(after_attempt(log, key, now, limits), other) == fresh(
            times_of(log, other),
            now - limits.window_secs,
        ),
{
    assert(times_of(pruned(log, now - limits.window_secs), other) =~= fresh(
        times_of(log, other),
        now - limits.window_secs,
    ));
}

/// Once every attempt of a known key has left the window, the key is granted
/// an attempt again wherever keys and attempts are granted at all.
pub proof fn law_expiry_restores(
    log: Map<Seq<char>, Seq<i64>>,
    key: Seq<char>,
    now: i64,
    limits: Limits,
)
    requires
        log.dom().finite(),
        log.len() <= limits.max_keys,
        log.contains_key(key),
        limits.max_attempts > 0,
        forall|i: int| 0 <= i < log[key].len() ==> #[trigger] log[key][i] <= now - limits.window_secs,
    ensures
        grants(log, key, now as int, limits),
{
    let cutoff = now - limits.window_secs;
    let kept = pruned(log, cutoff);
    lemma_fresh_empty(log[key], cutoff);
    assert(kept.dom().subset_of(log.dom().remove(key)));
    vstd::set_lib::lemma_len_subset(kept.dom(), log.dom().remove(key));
}

proof fn lemma_fresh_empty(times: Seq<i64>, cutoff: int)
    requires
        forall|i: int| 0 <= i < times.len() ==> #[trigger] times[i] <= cutoff,
    ensures
        fresh(times, cutoff).len() == 0,
    decreases times.len(),
{
    if times.len() > 0 {
        assert forall|i: int| 0 <= i < times.drop_first().len() implies #[trigger] times.drop_first()[i]
            <= cutoff by {
            assert(times[i + 1] <= cutoff);
        }
        lemma_fresh_empty(times.drop_first(), cutoff);
    }
}

/// After the attempts of a user name are forgotten, its next login is granted
/// wherever there is room for one more name.
pub proof fn law_cleared_key_starts_over(
    log: Map<Seq<char>, Seq<i64>>,
    key: Seq<char>,
    now: i64,
    limits: Limits,
)
    requires
        log.dom().finite(),
        log.remove(key).len() < limits.max_keys,
        limits.max_attempts > 0,
    ensures
        grants(log.remove(key), key, now as int, limits),
        times_of(after_attempt(log.remove(key), key, now, limits), key) == seq![now],
{
    let cleared = log.remove(key);
    let kept = pruned(cleared, now - limits.window_secs);
    assert(kept.dom().subset_of(cleared.dom()));
    vstd::set_lib::lemma_len_subset(kept.dom(), cleared.dom());
    assert(times_of(kept, key).push(now) =~= seq![now]);
}

/// The limits in numbers: five logins in a minute under one name, thirty from one
/// source, ten registrations in an hour from one source; and so many names and
/// sources that are watched.
pub proof fn law_limits_in_numbers()
    ensures
        user_limits() == (Limits { window_secs: 60, max_attempts: 5, max_keys: 10_000 }),
        source_limits() == (Limits { window_secs: 60, max_attempts: 30, max_keys: 100_000 }),
        registration_limits() == (Limits { window_secs: 3_600, max_attempts: 10, max_keys: 10_000 }),
{
}

/// The times after `cutoff`.
pub open spec fn recent(times: Seq<i64>, cutoff: int) -> Seq<i64> {
    times.filter(|time: i64| time > cutoff)
}

/// The times of each key are in order.
pub open spec fn log_in_order(log: Map<Seq<char>, Seq<i64>>) -> bool {
    forall|k: Seq<char>, i: int, j: int|
        log.contains_key(k) && 0 <= i <= j < log[k].len() ==> #[trigger] log[k][i]
            <= #[trigger] log[k][j]
}

proof fn lemma_fresh_is_recent(times: Seq<i64>, cutoff: int)
    requires
        forall|i: int, j: int| 0 <= i <= j < times.len() ==> times[i] <= times[j],
    ensures
        fresh(times, cutoff) == recent(times, cutoff),
    decreases times.len(),
{
    let after = |time: i64| time > cutoff;
    if times.len() > 0 && times.first() <= cutoff {
        let rest = times.drop_first();
        let head = seq![times.first()];
        lemma_fresh_is_recent(rest, cutoff);
        assert(times =~= head + rest);
        Seq::filter_distributes_over_add(head, rest, after);
        assert(head.filter(after).len() == 0) by {
            head.lemma_all_neg_filter_empty(after);
        }
        assert(head.filter(after) + rest.filter(after) =~= rest.filter(after));
    } else {
        assert forall|i: int| 0 <= i < times.len() implies after(#[trigger] times[i]) by {
            assert(times[0] <= times[i]);
        }
        lemma_filter_all(times, after);
    }
}

proof fn lemma_filter_all(times: Seq<i64>, keep: spec_fn(i64) -> bool)
    requires
        forall|i: int| 0 <= i < times.len() ==> keep(#[trigger] times[i]),
    ensures
        times.filter(keep) == times,
    decreases times.len(),
{
    reveal(Seq::filter);
    if times.len() > 0 {
        let front = times.drop_last();
        assert forall|i: int| 0 <= i < front.len() implies keep(#[trigger] front[i]) by {
            assert(keep(times[i]));
        }
        lemma_filter_all(front, keep);
        assert(keep(times[times.len() - 1]));
        assert(times.filter(keep) =~= times);
    }
}

/// An attempt is granted exactly where the key has had fewer attempts granted in the
/// window that ends now than it may, and is watched already or one more key can be.
/// What is granted is recorded behind the times that are still in the window, what is
/// refused is not, and of every other key the times in the window are kept.
pub proof fn law_attempts_are_counted(
    log: Map<Seq<char>, Seq<i64>>,
    key: Seq<char>,
    other: Seq<char>,
    now: i64,
    limits: Limits,
)
    requires
        log_in_order(log),
    ensures
        ({
            let cutoff = now - limits.window_secs;
            let had = if log.contains_key(key) {
                recent(log[key], cutoff)
            } else {
                Seq::empty()
            };
            let watched = log.dom().filter(|k: Seq<char>| recent(log[k], cutoff).len() > 0);
            let after = after_attempt(log, key, now, limits);
            let granted = had.len() < limits.max_attempts && (had.len() > 0 || watched.len()
                < limits.max_keys);
            &&& grants(log, key, now as int, limits) <==> granted
            &&& granted ==> after.contains_key(key) && after[key] == had.push(now)
            &&& !granted && after.contains_key(key) ==> after[key] == had
            &&& other != key ==> (after.contains_key(other) <==> log.contains_key(other) && recent(
                log[other],
                cutoff,
            ).len() > 0)
            &&& other != key && after.contains_key(other) ==> after[other] == recent(
                log[other],
                cutoff,
            )
        }),
{
    let cutoff = now - limits.window_secs;
    let kept = pruned(log, cutoff);
    let watched = log.dom().filter(|k: Seq<char>| recent(log[k], cutoff).len() > 0);
    assert forall|k: Seq<char>| log.contains_key(k) implies fresh(#[trigger] log[k], cutoff)
        == recent(log[k], cutoff) by {
        lemma_fresh_is_recent(log[k], cutoff);
    }
    assert(kept.dom() =~= watched) by {
        assert forall|k: Seq<char>| kept.dom().contains(k) <==> watched.contains(k) by {
            if log.contains_key(k) {
                assert(fresh(log[k], cutoff) == recent(log[k], cutoff));
            }
        }
    }
    if log.contains_key(key) {
        assert(fresh(log[key], cutoff) == recent(log[key], cutoff));
    }
    if log.contains_key(other) {
        assert(fresh(log[other], cutoff) == recent(log[other], cutoff));
    }
    let had = if log.contains_key(key) {
        recent(log[key], cutoff)
    } else {
        Seq::empty()
    };
    assert(times_of(kept, key) =~= had);
}

/// A login is let through exactly where both the name and the source may try once
/// more. A name that may not costs its source nothing.
pub proof fn law_logins_that_are_let_through(
    by_user: &mut Attempts,
    by_source: &mut Attempts,
    name: &str,
    source: &str,
    now: i64,
    allowed: bool,
)
    requires
        call_ensures(login_allowed, (by_user, by_source, name, source, now), allowed),
    ensures
        ({
            let users = Limits { window_secs: 60, max_attempts: 5, max_keys: 10_000 };
            let sources = Limits { window_secs: 60, max_attempts: 30, max_keys: 100_000 };
            let user = grants(old(by_user)@, name@, now as int, users);
            let place = grants(old(by_source)@, source@, now as int, sources);
            &&& allowed <==> user && place
            &&& !user ==> final(by_source)@ == old(by_source)@
            &&& user ==> final(by_source)@ == after_attempt(old(by_source)@, source@, now, sources)
            &&& final(by_user)@ == after_attempt(old(by_user)@, name@, now, users)
        }),
{
    law_limits_in_numbers();
}

/// What is cleared of the attempts is what stands under the name and under the source,
/// and nothing else.
pub proof fn law_what_is_cleared(
    by_user: &mut Attempts,
    by_source: &mut Attempts,
    name: &str,
    source: &str,
    key: Seq<char>,
)
    requires
        call_ensures(clear_login_attempts, (by_user, by_source, name, source), ()),
    ensures
        !final(by_user)@.contains_key(name@),
        !final(by_source)@.contains_key(source@),
        key != name@ ==> final(by_user)@.contains_key(key) == old(by_user)@.contains_key(key)
            && final(by_user)@[key] == old(by_user)@[key],
        key != source@ ==> final(by_source)@.contains_key(key) == old(by_source)@.contains_key(key)
            && final(by_source)@[key] == old(by_source)@[key],
{
}

} // verus!
