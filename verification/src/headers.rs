//! What a request's headers say: the session token it carries, and whether it
//! may come from where it says it comes from.

use crate::sessions::{admits, after_use, use_token, Session, Sessions, SESSION_TTL_SECS};
use crate::text::{
    decimal, is_alphanumeric, is_white_space, lowercase, position, push_decimal, same_ignoring_case,
    same_text, split_once, strip_prefix, trimmed,
};
use axum::http::HeaderMap;
use vstd::prelude::*;
use vstd::string::*;

verus! {

/// `http::HeaderMap`, the headers of a request.
#[verifier::external_type_specification]
#[verifier::external_body]
#[verifier::reject_recursive_types(T)]
pub struct ExHeaderMap<T>(axum::http::HeaderMap<T>);

/// `http::HeaderValue`, the value of one header.
#[verifier::external_type_specification]
#[verifier::external_body]
pub struct ExHeaderValue(axum::http::HeaderValue);

/// What the headers hold: for each name, in small letters, the bytes of its
/// first value.
pub uninterp spec fn header_fields(headers: HeaderMap) -> Map<Seq<char>, Seq<u8>>;

/// A byte that a header's text may hold: visible ASCII, a space or a tab.
pub open spec fn is_text_byte(b: u8) -> bool {
    32 <= b < 127 || b == 9
}

/// The text of the field `name`. There is none where the field is missing, or
/// where it holds other bytes than a text's.
pub open spec fn text_in(fields: Map<Seq<char>, Seq<u8>>, name: Seq<char>) -> Option<Seq<char>> {
    if fields.contains_key(name) && (forall|i: int|
        0 <= i < fields[name].len() ==> is_text_byte(#[trigger] fields[name][i])) {
        Some(fields[name].map_values(|b: u8| b as char))
    } else {
        None
    }
}

/// The text of the first value of the header `name`.
pub open spec fn field_text(headers: HeaderMap, name: Seq<char>) -> Option<Seq<char>> {
    text_in(header_fields(headers), name)
}

/// `HeaderMap::get`, which finds the first value of a name whatever the case of
/// its letters, and `HeaderValue::to_str`, which turns it into a text where it
/// is made of visible ASCII, spaces and tabs.
#[verifier::external_body]
fn header_text<'a>(headers: &'a HeaderMap, name: &str) -> (r: Option<&'a str>)
    requires
        forall|i: int| 0 <= i < name@.len() ==> !('A' <= #[trigger] name@[i] <= 'Z'),
    ensures
        match r {
            Some(text) => text_in(header_fields(*headers), name@) == Some(text@),
            None => text_in(header_fields(*headers), name@) is None,
        },
{
    headers.get(name).and_then(|value| value.to_str().ok())
}

/// `HeaderMap::contains_key`, which tells whether a name has a value, text or
/// not, whatever the case of its letters.
#[verifier::external_body]
fn header_present(headers: &HeaderMap, name: &str) -> (r: bool)
    requires
        forall|i: int| 0 <= i < name@.len() ==> !('A' <= #[trigger] name@[i] <= 'Z'),
    ensures
        r == header_fields(*headers).contains_key(name@),
{
    headers.contains_key(name)
}

/// The token that a `Cookie` header carries: of its parts between semicolons,
/// without white space at their ends, the first that gives `y2m_session` a
/// value.
pub open spec fn cookie_token(cookie: Seq<char>) -> Option<Seq<char>>
    decreases cookie.len(),
{
    let end = position(cookie, ';') as int;
    let part = trimmed(cookie.take(end));
    if "y2m_session="@.is_prefix_of(part) {
        Some(part.skip("y2m_session="@.len() as int))
    } else if end < cookie.len() {
        cookie_token(cookie.skip(end + 1))
    } else {
        None
    }
}

/// The token that the headers carry.
pub open spec fn token_in(headers: HeaderMap) -> Option<Seq<char>> {
    match field_text(headers, "cookie"@) {
        Some(cookie) => cookie_token(cookie),
        None => None,
    }
}

/// `origin` names `host`, over `http` or `https`.
pub open spec fn origin_names(origin: Seq<char>, host: Seq<char>) -> bool {
    ||| "http://"@.is_prefix_of(origin) && same_ignoring_case(
        origin.skip("http://"@.len() as int),
        host,
    )
    ||| "https://"@.is_prefix_of(origin) && same_ignoring_case(
        origin.skip("https://"@.len() as int),
        host,
    )
}

/// A request without an origin is let through; one with an origin must have a
/// host that the origin names. An origin that is no text names none.
pub open spec fn origin_allowed(headers: HeaderMap) -> bool {
    match field_text(headers, "origin"@) {
        Some(origin) => match field_text(headers, "host"@) {
            Some(host) => origin_names(origin, host),
            None => false,
        },
        None => !header_fields(headers).contains_key("origin"@),
    }
}

/// A browser says that the request comes from another site.
pub open spec fn cross_site(headers: HeaderMap) -> bool {
    match field_text(headers, "sec-fetch-site"@) {
        Some(site) => same_ignoring_case(site, "cross-site"@),
        None => false,
    }
}

/// The methods that change what the server holds.
pub open spec fn changes_state(method: Seq<char>) -> bool {
    method == "POST"@ || method == "PUT"@ || method == "PATCH"@ || method == "DELETE"@
}

proof fn lemma_position_before(before: Seq<char>, rest: Seq<char>, c: char)
    requires
        !before.contains(c),
        rest.len() == 0 || rest.first() == c,
    ensures
        position(before + rest, c) == before.len(),
    decreases before.len(),
{
    if before.len() > 0 {
        assert(before.contains(before[0]));
        assert((before + rest).drop_first() =~= before.drop_first() + rest);
        assert(!before.drop_first().contains(c)) by {
            if before.drop_first().contains(c) {
                let i = choose|i: int| 0 <= i < before.len() - 1 && before.drop_first()[i] == c;
                assert(before[i + 1] == c);
            }
        }
        lemma_position_before(before.drop_first(), rest, c);
    } else {
        assert(before + rest =~= rest);
    }
}

/// The session token that the headers carry.
pub fn session_token(headers: &HeaderMap) -> (r: Option<&str>)
    ensures
        match r {
            Some(token) => token_in(*headers) == Some(token@),
            None => token_in(*headers) is None,
        },
{
    proof {
        reveal_strlit("cookie");
    }
    match header_text(headers, "cookie") {
        Some(cookie) => token_in_cookie(cookie),
        None => None,
    }
}

/// The session token that the text of a `Cookie` header carries.
pub fn token_in_cookie(cookie: &str) -> (r: Option<&str>)
    ensures
        match r {
            Some(token) => cookie_token(cookie@) == Some(token@),
            None => cookie_token(cookie@) is None,
        },
{
    let mut rest: &str = cookie;
    loop
        invariant
            cookie_token(rest@) == cookie_token(cookie@),
        decreases rest@.len(),
    {
        let (part, after): (&str, Option<&str>) = match split_once(rest, ';') {
            Some((before, after)) => (before, Some(after)),
            None => (rest, None),
        };
        proof {
            match after {
                Some(tail) => {
                    assert(rest@ =~= part@ + seq![';'] + tail@);
                    assert(part@ + seq![';'] + tail@ =~= part@ + (seq![';'] + tail@));
                    lemma_position_before(part@, seq![';'] + tail@, ';');
                    assert(rest@.take(part@.len() as int) =~= part@);
                    assert(rest@.skip(part@.len() as int + 1) =~= tail@);
                },
                None => {
                    assert(rest@ =~= part@ + Seq::empty());
                    lemma_position_before(part@, Seq::empty(), ';');
                    assert(rest@.take(rest@.len() as int) =~= rest@);
                },
            }
        }
        match strip_prefix(part.trim(), "y2m_session=") {
            Some(token) => {
                assert("y2m_session="@.is_prefix_of(trimmed(part@)));
                assert(trimmed(part@).skip("y2m_session="@.len() as int) =~= token@);
                return Some(token);
            },
            None => {},
        }
        match after {
            Some(tail) => {
                rest = tail;
            },
            None => {
                return None;
            },
        }
    }
}

/// The user whom a request comes from at the time `now`: the one whom its token
/// admits.
pub open spec fn user_of(all: Map<Seq<char>, Session>, headers: HeaderMap, now: int) -> Option<
    i64,
> {
    match token_in(headers) {
        Some(token) => admits(all, token, now),
        None => None,
    }
}

/// The sessions after a request at the time `now`.
pub open spec fn after_request(
    all: Map<Seq<char>, Session>,
    headers: HeaderMap,
    now: i64,
) -> Map<Seq<char>, Session> {
    match token_in(headers) {
        Some(token) => after_use(all, token, now),
        None => all,
    }
}

/// The user whom the headers' token admits now. Showing a token prolongs the
/// session, or drops it where it has expired.
pub fn user_id(sessions: &mut Sessions, headers: &HeaderMap, current_time: i64) -> (r: Option<i64>)
    requires
        current_time + SESSION_TTL_SECS <= i64::MAX,
    ensures
        r == user_of(old(sessions)@, *headers, current_time as int),
        final(sessions)@ == after_request(old(sessions)@, *headers, current_time),
{
    match session_token(headers) {
        Some(token) => use_token(sessions, token, current_time),
        None => None,
    }
}

/// The sessions without the one whose token the headers carry.
pub open spec fn after_logout(all: Map<Seq<char>, Session>, headers: HeaderMap) -> Map<
    Seq<char>,
    Session,
> {
    match token_in(headers) {
        Some(token) => all.remove(token),
        None => all,
    }
}

/// Drops the session whose token the headers carry.
pub fn end_session(sessions: &mut Sessions, headers: &HeaderMap)
    ensures
        final(sessions)@ == after_logout(old(sessions)@, *headers),
{
    match session_token(headers) {
        Some(token) => {
            let _ = sessions.remove(token);
        },
        None => {},
    }
}

/// Whether an origin names a host, over `http` or `https`, with the letters in
/// any case.
pub fn origin_matches(origin: &str, host: &str) -> (r: bool)
    ensures
        r == origin_names(origin@, host@),
{
    let plain: bool = match strip_prefix(origin, "http://") {
        Some(name) => {
            assert(origin@.skip("http://"@.len() as int) =~= name@);
            assert("http://"@.is_prefix_of(origin@));
            name.eq_ignore_ascii_case(host)
        },
        None => false,
    };
    let secure: bool = match strip_prefix(origin, "https://") {
        Some(name) => {
            assert(origin@.skip("https://"@.len() as int) =~= name@);
            assert("https://"@.is_prefix_of(origin@));
            name.eq_ignore_ascii_case(host)
        },
        None => false,
    };
    plain || secure
}

/// Whether a WebSocket may be opened from where the headers say.
pub fn websocket_origin_allowed(headers: &HeaderMap) -> (r: bool)
    ensures
        r == origin_allowed(*headers),
{
    proof {
        reveal_strlit("origin");
        reveal_strlit("host");
    }
    match header_text(headers, "origin") {
        Some(origin) => match header_text(headers, "host") {
            Some(host) => origin_matches(origin, host),
            None => false,
        },
        None => !header_present(headers, "origin"),
    }
}

/// Whether the headers name no origin, or the server's own.
pub fn same_origin_request(headers: &HeaderMap) -> (r: bool)
    ensures
        r == origin_allowed(*headers),
{
    proof {
        reveal_strlit("origin");
        reveal_strlit("http://");
        reveal_strlit("https://");
    }
    match header_text(headers, "origin") {
        Some(origin) => websocket_origin_allowed(headers) && !origin.is_empty(),
        None => !header_present(headers, "origin"),
    }
}

/// Whether a browser says that the request comes from another site.
pub fn browser_cross_site_request(headers: &HeaderMap) -> (r: bool)
    ensures
        r == cross_site(*headers),
{
    proof {
        reveal_strlit("sec-fetch-site");
    }
    match header_text(headers, "sec-fetch-site") {
        Some(site) => site.eq_ignore_ascii_case("cross-site"),
        None => false,
    }
}

/// Whether a request is refused for where it comes from: it would change
/// something, and comes from another site or names another origin.
pub fn request_refused(method: &str, headers: &HeaderMap) -> (r: bool)
    ensures
        r == (changes_state(method@) && (cross_site(*headers) || !origin_allowed(*headers))),
{
    let is_state_change: bool = same_text(method, "POST") || same_text(method, "PUT") || same_text(
        method,
        "PATCH",
    ) || same_text(method, "DELETE");
    is_state_change && (browser_cross_site_request(headers) || !same_origin_request(headers))
}

/// The headers that every answer carries.
pub fn security_headers() -> (r: [(&'static str, &'static str); 4])
    ensures
        r@[0].0@ == "x-content-type-options"@,
        r@[0].1@ == "nosniff"@,
        r@[1].0@ == "x-frame-options"@,
        r@[1].1@ == "DENY"@,
        r@[2].0@ == "referrer-policy"@,
        r@[2].1@ == "same-origin"@,
        r@[3].0@ == "content-security-policy"@,
        r@[3].1@
            == "default-src 'self'; script-src 'self'; style-src 'self'; style-src-attr 'unsafe-inline'; connect-src 'self'; frame-ancestors 'none'; base-uri 'none'; form-action 'self'"@,
{
    [
        ("x-content-type-options", "nosniff"),
        ("x-frame-options", "DENY"),
        ("referrer-policy", "same-origin"),
        (
            "content-security-policy",
            "default-src 'self'; script-src 'self'; style-src 'self'; style-src-attr 'unsafe-inline'; connect-src 'self'; frame-ancestors 'none'; base-uri 'none'; form-action 'self'",
        ),
    ]
}

/// The `Set-Cookie` text that hands out `token` for `seconds`.
pub open spec fn cookie_text(token: Seq<char>, seconds: int, secure: bool) -> Seq<char> {
    "y2m_session="@ + token + "; HttpOnly; SameSite=Strict; Path=/; Max-Age="@ + decimal(seconds)
        + if secure {
        "; Secure"@
    } else {
        Seq::empty()
    }
}

fn cookie_with(token: &str, seconds: i64, secure: bool) -> (r: String)
    ensures
        r@ == cookie_text(token@, seconds as int, secure),
{
    let mut cookie: String = "y2m_session=".to_owned();
    cookie.append(token);
    cookie.append("; HttpOnly; SameSite=Strict; Path=/; Max-Age=");
    push_decimal(&mut cookie, seconds);
    if secure {
        cookie.append("; Secure");
    }
    assert(cookie@ =~= cookie_text(token@, seconds as int, secure));
    cookie
}

/// The `Set-Cookie` text that hands out the session token.
pub fn session_cookie(token: &str, secure: bool) -> (r: String)
    ensures
        r@ == cookie_text(token@, SESSION_TTL_SECS as int, secure),
{
    cookie_with(token, SESSION_TTL_SECS, secure)
}

/// The `Set-Cookie` text that takes the session token back.
pub fn clear_session_cookie(secure: bool) -> (r: String)
    ensures
        r@ == cookie_text(Seq::empty(), 0, secure),
{
    proof {
        reveal_strlit("");
        assert(""@ =~= Seq::<char>::empty());
    }
    cookie_with("", 0, secure)
}

proof fn lemma_trim_keeps(s: Seq<char>)
    requires
        s.len() > 0,
        !is_white_space(s.first()),
        !is_white_space(s.last()),
    ensures
        trimmed(s) == s,
{
}

/// What a browser keeps of a `Set-Cookie` text: the pair before the first
/// semicolon.
pub open spec fn cookie_pair(set_cookie: Seq<char>) -> Seq<char> {
    set_cookie.take(position(set_cookie, ';') as int)
}

proof fn lemma_pair(token: Seq<char>, seconds: int, secure: bool)
    requires
        !token.contains(';'),
    ensures
        cookie_pair(cookie_text(token, seconds, secure)) == "y2m_session="@ + token,
        !("y2m_session="@ + token).contains(';'),
{
    reveal_strlit("y2m_session=");
    reveal_strlit("; HttpOnly; SameSite=Strict; Path=/; Max-Age=");
    let pair = "y2m_session="@ + token;
    let tail = "; HttpOnly; SameSite=Strict; Path=/; Max-Age="@ + decimal(seconds) + if secure {
        "; Secure"@
    } else {
        Seq::empty()
    };
    assert(!pair.contains(';')) by {
        if pair.contains(';') {
            let i = choose|i: int| 0 <= i < pair.len() && pair[i] == ';';
            if i >= 12 {
                assert(token[i - 12] == ';');
            }
        }
    }
    assert(cookie_text(token, seconds, secure) =~= pair + tail);
    lemma_position_before(pair, tail, ';');
    assert((pair + tail).take(pair.len() as int) =~= pair);
}

/// The token that a session cookie hands out is the token that is read back
/// from the cookie that a browser returns.
pub proof fn law_cookie_round_trip(token: Seq<char>, seconds: int, secure: bool)
    requires
        token.len() > 0,
        forall|i: int| 0 <= i < token.len() ==> is_alphanumeric(#[trigger] token[i]),
    ensures
        cookie_token(cookie_pair(cookie_text(token, seconds, secure))) == Some(token),
{
    reveal_strlit("y2m_session=");
    let pair = "y2m_session="@ + token;
    assert(!token.contains(';'));
    lemma_pair(token, seconds, secure);
    assert(pair =~= pair + Seq::empty());
    lemma_position_before(pair, Seq::empty(), ';');
    assert(pair.take(pair.len() as int) =~= pair);
    assert(pair.last() == token.last());
    assert(is_alphanumeric(token[token.len() - 1]));
    lemma_trim_keeps(pair);
    assert("y2m_session="@.is_prefix_of(pair));
    assert(pair.skip(12) =~= token);
}

/// Cookies that are not the session's do not hide it: a token that is found in
/// a cookie text is found behind any others that carry none.
pub proof fn law_token_found_behind_others(others: Seq<char>, cookie: Seq<char>)
    requires
        cookie_token(others) is None,
    ensures
        cookie_token(others.push(';') + cookie) == cookie_token(cookie),
    decreases others.len(),
{
    let end = position(others, ';') as int;
    lemma_position_bound(others, ';');
    let all = others.push(';') + cookie;
    let first = others.take(end);
    assert(!first.contains(';'));
    if end < others.len() {
        let rest = others.skip(end + 1);
        law_token_found_behind_others(rest, cookie);
        assert(all =~= first + (seq![';'] + (rest.push(';') + cookie)));
        lemma_position_before(first, seq![';'] + (rest.push(';') + cookie), ';');
        assert(all.take(end) =~= first);
        assert(all.skip(end + 1) =~= rest.push(';') + cookie);
    } else {
        assert(first =~= others);
        assert(all =~= first + (seq![';'] + cookie));
        lemma_position_before(first, seq![';'] + cookie, ';');
        assert(all.take(end) =~= first);
        assert(all.skip(end + 1) =~= cookie);
    }
}

proof fn lemma_position_bound(s: Seq<char>, c: char)
    ensures
        position(s, c) <= s.len(),
        position(s, c) < s.len() ==> s[position(s, c) as int] == c,
        !s.take(position(s, c) as int).contains(c),
    decreases s.len(),
{
    if s.len() > 0 && s.first() != c {
        lemma_position_bound(s.drop_first(), c);
        let n = position(s.drop_first(), c) as int;
        assert(s.take(n + 1) =~= seq![s.first()] + s.drop_first().take(n));
        assert(!s.take(n + 1).contains(c)) by {
            if s.take(n + 1).contains(c) {
                let i = s.take(n + 1).index_of(c);
                if i > 0 {
                    assert(s.drop_first().take(n)[i - 1] == c);
                }
            }
        }
    }
}

/// The server's own origin is let through over both schemes, and an origin that
/// is let through differs from one of them at most in the case of its letters.
pub proof fn law_only_own_origin_passes(headers: HeaderMap, origin: Seq<char>, host: Seq<char>)
    requires
        field_text(headers, "origin"@) == Some(origin),
        field_text(headers, "host"@) == Some(host),
    ensures
        origin == "http://"@ + host ==> origin_allowed(headers),
        origin == "https://"@ + host ==> origin_allowed(headers),
        origin_allowed(headers) ==> same_ignoring_case(origin, "http://"@ + host)
            || same_ignoring_case(origin, "https://"@ + host),
{
    lemma_scheme(origin, "http://"@, host);
    lemma_scheme(origin, "https://"@, host);
}

/// Any origin that is supplied is validated: one that is let through is a text
/// that names the host of the request, which is a text too.
pub proof fn law_any_supplied_origin_is_validated(headers: HeaderMap)
    requires
        header_fields(headers).contains_key("origin"@),
    ensures
        origin_allowed(headers) <==> match (
            field_text(headers, "origin"@),
            field_text(headers, "host"@),
        ) {
            (Some(origin), Some(host)) => origin_names(origin, host),
            _ => false,
        },
{
}

proof fn lemma_scheme(origin: Seq<char>, scheme: Seq<char>, host: Seq<char>)
    ensures
        (scheme + host).skip(scheme.len() as int) == host,
        scheme.is_prefix_of(scheme + host),
        scheme.is_prefix_of(origin) && same_ignoring_case(origin.skip(scheme.len() as int), host)
            ==> same_ignoring_case(origin, scheme + host),
{
    assert((scheme + host).skip(scheme.len() as int) =~= host);
    if scheme.is_prefix_of(origin) && same_ignoring_case(origin.skip(scheme.len() as int), host) {
        let rest = origin.skip(scheme.len() as int);
        assert(origin =~= scheme + rest);
        assert(lowercase(origin) =~= lowercase(scheme) + lowercase(rest));
        assert(lowercase(scheme + host) =~= lowercase(scheme) + lowercase(host));
    }
}

/// Of the cookies of a request the first that is the session's counts, whatever
/// follows it, without white space round it: what stands behind the equals sign is
/// the token, character for character.
pub proof fn law_the_first_session_cookie_counts(part: Seq<char>, rest: Seq<char>, token: Seq<char>)
    requires
        !part.contains(';'),
        trimmed(part) == "y2m_session="@ + token,
    ensures
        cookie_token(part) == Some(token),
        cookie_token(part.push(';') + rest) == Some(token),
{
    let all = part.push(';') + rest;
    assert(all =~= part + (seq![';'] + rest));
    lemma_position_before(part, seq![';'] + rest, ';');
    assert(all.take(part.len() as int) =~= part);
    assert(part =~= part + Seq::empty());
    lemma_position_before(part, Seq::empty(), ';');
    assert(part.take(part.len() as int) =~= part);
    assert("y2m_session="@.is_prefix_of(trimmed(part)));
    assert(trimmed(part).skip("y2m_session="@.len() as int) =~= token);
}

/// A single cookie that is not the session's carries no token.
pub proof fn law_other_cookies_carry_no_token(part: Seq<char>)
    requires
        !part.contains(';'),
        !"y2m_session="@.is_prefix_of(trimmed(part)),
    ensures
        cookie_token(part) is None,
{
    assert(part =~= part + Seq::empty());
    lemma_position_before(part, Seq::empty(), ';');
    assert(part.take(part.len() as int) =~= part);
}

/// The token of a request is the one in its `Cookie` header. With it the request
/// comes from the user whose session it is until that expires, and prolongs it by a
/// week; without it the request comes from nobody and touches nothing. Logging out
/// takes just that session away.
pub proof fn law_requests_and_their_token(
    all: Map<Seq<char>, Session>,
    headers: HeaderMap,
    now: i64,
    cookie: Seq<char>,
    other: Seq<char>,
)
    requires
        now + 604_800 <= i64::MAX,
    ensures
        field_text(headers, "cookie"@) is None ==> token_in(headers) is None,
        field_text(headers, "cookie"@) == Some(cookie) ==> token_in(headers) == cookie_token(cookie),
        token_in(headers) is None ==> user_of(all, headers, now as int) is None && after_request(
            all,
            headers,
            now,
        ) == all && after_logout(all, headers) == all,
        token_in(headers) matches Some(token) ==> {
            let holds = all.contains_key(token) && all[token].expires_at > now;
            let after = after_request(all, headers, now);
            let out = after_logout(all, headers);
            &&& user_of(all, headers, now as int) == if holds {
                Some(all[token].user_id)
            } else {
                None
            }
            &&& after.contains_key(token) <==> holds
            &&& holds ==> after[token].user_id == all[token].user_id && after[token].expires_at == now
                + 604_800
            &&& !out.contains_key(token)
            &&& other != token ==> {
                &&& after.contains_key(other) == all.contains_key(other)
                &&& out.contains_key(other) == all.contains_key(other)
                &&& after[other] == all[other]
                &&& out[other] == all[other]
            }
        },
{
}

/// An origin is let through exactly where it is `http://` or `https://`, in small
/// letters, and behind that the host of the request with its letters in either case.
pub proof fn law_origins_that_are_let_through(
    headers: HeaderMap,
    origin: Seq<char>,
    host: Seq<char>,
)
    requires
        field_text(headers, "origin"@) == Some(origin),
    ensures
        field_text(headers, "host"@) == Some(host) ==> (origin_allowed(headers) <==> exists|
            name: Seq<char>,
        |
            #[trigger] same_ignoring_case(name, host) && (origin == "http://"@ + name || origin
                == "https://"@ + name)),
        field_text(headers, "host"@) is None ==> !origin_allowed(headers),
{
    if field_text(headers, "host"@) == Some(host) {
        if origin_allowed(headers) {
            let plain = origin.skip("http://"@.len() as int);
            let secure = origin.skip("https://"@.len() as int);
            if "http://"@.is_prefix_of(origin) && same_ignoring_case(plain, host) {
                assert(origin =~= "http://"@ + plain);
            } else {
                assert(origin =~= "https://"@ + secure);
                assert(same_ignoring_case(secure, host));
            }
        }
        if exists|name: Seq<char>|
            #[trigger] same_ignoring_case(name, host) && (origin == "http://"@ + name || origin
                == "https://"@ + name) {
            let name = choose|name: Seq<char>|
                #[trigger] same_ignoring_case(name, host) && (origin == "http://"@ + name || origin
                    == "https://"@ + name);
            if origin == "http://"@ + name {
                assert(origin.skip("http://"@.len() as int) =~= name);
                assert("http://"@.is_prefix_of(origin));
            } else {
                assert(origin.skip("https://"@.len() as int) =~= name);
                assert("https://"@.is_prefix_of(origin));
            }
        }
    }
}

/// A request without any origin is let through; a browser's word that it comes from
/// another site counts with its letters in either case and not otherwise; and four
/// methods change something.
pub proof fn law_where_requests_come_from(headers: HeaderMap, method: Seq<char>, site: Seq<char>)
    ensures
        !header_fields(headers).contains_key("origin"@) ==> origin_allowed(headers),
        field_text(headers, "sec-fetch-site"@) is None ==> !cross_site(headers),
        field_text(headers, "sec-fetch-site"@) == Some(site) ==> (cross_site(headers)
            <==> same_ignoring_case(site, "cross-site"@)),
        changes_state(method) <==> method == "POST"@ || method == "PUT"@ || method == "PATCH"@
            || method == "DELETE"@,
{
}

/// A cookie carries its token first, is kept from scripts and from other sites, holds
/// on every path for its term, and is bound to secure connections exactly where that
/// is asked for.
pub proof fn law_cookies(token: Seq<char>, seconds: int)
    ensures
        cookie_text(token, seconds, false) == "y2m_session="@ + token
            + "; HttpOnly; SameSite=Strict; Path=/; Max-Age="@ + decimal(seconds),
        cookie_text(token, seconds, true) == cookie_text(token, seconds, false) + "; Secure"@,
{
    assert(cookie_text(token, seconds, false) =~= "y2m_session="@ + token
        + "; HttpOnly; SameSite=Strict; Path=/; Max-Age="@ + decimal(seconds));
    assert(cookie_text(token, seconds, true) =~= cookie_text(token, seconds, false) + "; Secure"@);
}

/// A request is refused exactly where it would change something and a browser says
/// that it comes from another site, or its origin is not the server's own.
pub proof fn law_requests_that_are_refused(method: &str, headers: &HeaderMap, refused: bool)
    requires
        call_ensures(request_refused, (method, headers), refused),
    ensures
        refused <==> (method@ == "POST"@ || method@ == "PUT"@ || method@ == "PATCH"@ || method@
            == "DELETE"@) && (cross_site(*headers) || !origin_allowed(*headers)),
        refused ==> {
            ||| header_fields(*headers).contains_key("origin"@)
            ||| field_text(*headers, "sec-fetch-site"@) is Some
        },
{
    law_where_requests_come_from(*headers, method@, Seq::empty());
}

/// Every answer goes out with the same four headers.
pub proof fn law_headers_of_every_answer(fields: [(&'static str, &'static str); 4])
    requires
        call_ensures(security_headers, (), fields),
    ensures
        fields@[0].0@ == "x-content-type-options"@ && fields@[0].1@ == "nosniff"@,
        fields@[1].0@ == "x-frame-options"@ && fields@[1].1@ == "DENY"@,
        fields@[2].0@ == "referrer-policy"@ && fields@[2].1@ == "same-origin"@,
        fields@[3].0@ == "content-security-policy"@,
        fields@[3].1@
            == "default-src 'self'; script-src 'self'; style-src 'self'; style-src-attr 'unsafe-inline'; connect-src 'self'; frame-ancestors 'none'; base-uri 'none'; form-action 'self'"@,
{
}

/// The cookie that opens a session carries its token for a week, the one that ends it
/// carries none and is dropped at once, and both are secure where that is asked for.
pub proof fn law_cookies_of_sessions(
    token: &str,
    secure: bool,
    opened: String,
    ended: String,
)
    requires
        call_ensures(session_cookie, (token, secure), opened),
        call_ensures(clear_session_cookie, (secure,), ended),
    ensures
        opened@ == "y2m_session="@ + token@ + "; HttpOnly; SameSite=Strict; Path=/; Max-Age="@
            + decimal(604_800) + if secure {
            "; Secure"@
        } else {
            Seq::empty()
        },
        ended@ == "y2m_session="@ + "; HttpOnly; SameSite=Strict; Path=/; Max-Age="@ + decimal(0)
            + if secure {
            "; Secure"@
        } else {
            Seq::empty()
        },
{
    law_cookies(token@, 604_800);
    law_cookies(Seq::empty(), 0);
    assert("y2m_session="@ + Seq::<char>::empty() =~= "y2m_session="@);
    if !secure {
        assert(opened@ + Seq::<char>::empty() =~= opened@);
        assert(ended@ + Seq::<char>::empty() =~= ended@);
    }
}

} // verus!
