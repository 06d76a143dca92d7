//! A session with Spotify: when one is asked for, what the answers mean, and
//! when it wants to be left alone.
use vstd::prelude::*;

use crate::json::{self, Json};
use crate::text;

verus! {

/// How much longer Spotify wants to be left alone, if it does. Instants are
/// nanoseconds of a clock that does not go back.
pub open spec fn left(until: Option<u64>, now: u64) -> Option<u64> {
    match until {
        Some(t) => if t > now {
            Some((t - now) as u64)
        } else {
            None
        },
        None => None,
    }
}

/// How much longer Spotify wants to be left alone.
pub fn cooldown_left(until: Option<u64>, now: u64) -> (r: Option<u64>)
    ensures
        r == left(until, now),
{
    match until {
        Some(t) => if t > now {
            Some(t - now)
        } else {
            None
        },
        None => None,
    }
}

/// Whether Spotify wants to be left alone.
pub fn cooling_down(until: Option<u64>, now: u64) -> (r: bool)
    ensures
        r == (left(until, now) is Some),
{
    cooldown_left(until, now).is_some()
}

/// Until when Spotify wants to be left alone once it asked for `wait` more: a
/// later end is not brought forward.
pub open spec fn noted(until: Option<u64>, now: u64, wait: u64) -> u64 {
    let end = if now + wait > u64::MAX {
        u64::MAX as int
    } else {
        now + wait
    };
    match until {
        Some(was) => if end > was {
            end as u64
        } else {
            was
        },
        None => end as u64,
    }
}

/// Until when Spotify wants to be left alone once it asked for `wait` more.
pub fn note_rate_limit(until: Option<u64>, now: u64, wait: u64) -> (r: u64)
    ensures
        r == noted(until, now, wait),
{
    let end = now.saturating_add(wait);
    match until {
        Some(was) => if end > was {
            end
        } else {
            was
        },
        None => end,
    }
}

/// What was asked for is waited for, and nothing shortens it.
pub proof fn a_wait_is_never_shortened(until: Option<u64>, now: u64, wait: u64)
    requires
        now + wait <= u64::MAX,
    ensures
        noted(until, now, wait) >= now + wait,
        until matches Some(was) ==> noted(until, now, wait) >= was,
        wait > 0 ==> left(Some(noted(until, now, wait)), now) is Some,
{
}

/// How many seconds Spotify asks to wait: what it says, held between a quarter
/// of a minute and a quarter of an hour; a minute where it says nothing.
pub open spec fn asked_wait(header: Option<Seq<char>>) -> u64 {
    match header {
        None => 60,
        Some(raw) => match text::number_in(text::trimmed(raw)) {
            None => 60,
            Some(n) => if n < 15 {
                15
            } else if n > 900 {
                900
            } else {
                n
            },
        },
    }
}

/// How many seconds Spotify asks to wait.
pub fn retry_after(header: Option<&str>) -> (r: u64)
    ensures
        r == asked_wait(
            match header {
                Some(s) => Some(s@),
                None => None,
            },
        ),
        15 <= r <= 900,
{
    match header {
        None => 60,
        Some(raw) => match text::parse_number(text::trim(raw).as_str()) {
            None => 60,
            Some(n) => if n < 15 {
                15
            } else if n > 900 {
                900
            } else {
                n
            },
        },
    }
}

/// What to do for a session.
#[derive(Debug, Clone, Copy, PartialEq, Eq, Structural)]
pub enum Step {
    /// Use the one that is there.
    Use,
    /// Spotify wants to be left alone.
    Wait,
    /// Nobody is signed in.
    SignIn,
    /// Ask for one.
    Ask,
}

/// What to do for a session.
pub open spec fn next_step(expires: Option<u64>, until: Option<u64>, now: u64, cookie: bool) -> Step {
    if expires matches Some(e) && e > now {
        Step::Use
    } else if left(until, now) is Some {
        Step::Wait
    } else if !cookie {
        Step::SignIn
    } else {
        Step::Ask
    }
}

/// What to do for a session: one that has not run out is used; else none is
/// asked for while Spotify wants to be left alone, nor without its cookies.
pub fn session(expires: Option<u64>, until: Option<u64>, now: u64, cookie: bool) -> (r: Step)
    ensures
        r == if expires matches Some(e) && e > now {
            Step::Use
        } else if left(until, now) is Some {
            Step::Wait
        } else if !cookie {
            Step::SignIn
        } else {
            Step::Ask
        },
        r == next_step(expires, until, now, cookie),
{
    if let Some(e) = expires {
        if e > now {
            return Step::Use;
        }
    }
    if cooling_down(until, now) {
        return Step::Wait;
    }
    if cookie {
        Step::Ask
    } else {
        Step::SignIn
    }
}

/// How an attempt to get a token ended.
#[derive(Debug, Clone, Copy, PartialEq, Eq, Structural)]
pub enum Attempt {
    Token,
    Anonymous,
    Failed,
}

/// What follows an attempt.
#[derive(Debug, Clone, Copy, PartialEq, Eq, Structural)]
pub enum Follow {
    Done,
    /// Try again, for the other reason.
    Again,
    GiveUp,
}

/// What follows an attempt to get a token.
pub open spec fn following(attempt: Attempt, last: bool, cooling: bool) -> Follow {
    if attempt is Token {
        Follow::Done
    } else if last || cooling {
        Follow::GiveUp
    } else {
        Follow::Again
    }
}

/// What follows an attempt to get a token: a second one, unless the first gave
/// one or Spotify wants to be left alone.
pub fn after_attempt(attempt: Attempt, last: bool, cooling: bool) -> (r: Follow)
    ensures
        r == if attempt is Token {
            Follow::Done
        } else if last || cooling {
            Follow::GiveUp
        } else {
            Follow::Again
        },
        r == following(attempt, last, cooling),
{
    if attempt == Attempt::Token {
        Follow::Done
    } else if last || cooling {
        Follow::GiveUp
    } else {
        Follow::Again
    }
}

/// A token of the web player's.
#[derive(Debug, PartialEq, Eq)]
pub struct Token {
    pub access: String,
    pub anonymous: bool,
    /// How many milliseconds it is used for.
    pub ttl_ms: u64,
    pub client_id: String,
}

/// How long a token is used: until a minute before it runs out, half a minute
/// at least; fifty minutes where it does not say.
pub open spec fn ttl(expires_ms: u64, now_ms: u64) -> int {
    if expires_ms == 0 {
        3_000_000
    } else {
        let rest = expires_ms - now_ms - 60_000;
        if rest < 30_000 {
            30_000
        } else {
            rest
        }
    }
}

/// Whether `r` is the token that an answer gives. One without a key is none.
pub open spec fn is_token(
    r: Option<Token>,
    value: Json,
    now_ms: u64,
    own_client: Seq<char>,
) -> bool {
    let access = json::text_in(
        json::either(
            json::in_object(value, "accessToken"@),
            json::in_object(value, "access_token"@),
        ),
    );
    match access {
        None => r is None,
        Some(key) => {
            &&& r matches Some(t)
            &&& t.access@ == key
            &&& t.anonymous == (json::truth_in(json::in_object(value, "isAnonymous"@)) == Some(
                true,
            ))
            &&& t.ttl_ms == ttl(
                json::count_in(json::in_object(value, "accessTokenExpirationTimestampMs"@)),
                now_ms,
            )
            &&& t.client_id@ == match json::text_in(
                json::either(
                    json::in_object(value, "clientId"@),
                    json::in_object(value, "client_id"@),
                ),
            ) {
                Some(c) => c,
                None => own_client,
            }
        },
    }
}

/// The token that an answer gives.
pub fn token_in(value: &Json, now_ms: u64, own_client: &str) -> (r: Option<Token>)
    ensures
        is_token(r, *value, now_ms, own_client@),
{
    match json::text_of(json::or(value.get("accessToken"), value.get("access_token"))) {
        None => None,
        Some(key) => {
            let anonymous = match json::truth_of(value.get("isAnonymous")) {
                Some(b) => b,
                None => false,
            };
            let expires_ms = json::count_of(value.get("accessTokenExpirationTimestampMs"));
            let ttl_ms: u64 = if expires_ms > 0 {
                let rest = expires_ms.saturating_sub(now_ms).saturating_sub(60_000);
                if rest < 30_000 {
                    30_000
                } else {
                    rest
                }
            } else {
                3_000_000
            };
            let client_id = match json::text_of(
                json::or(value.get("clientId"), value.get("client_id")),
            ) {
                Some(c) => c.to_owned(),
                None => own_client.to_owned(),
            };
            Some(Token { access: key.to_owned(), anonymous, ttl_ms, client_id })
        },
    }
}

/// The token that the body of an answer gives.
pub fn send_token(body: &str, now_ms: u64, own_client: &str) -> (r: Option<Token>)
    ensures
        match json::parsed(body@) {
            None => r is None,
            Some(value) => is_token(r, value, now_ms, own_client@),
        },
{
    match json::parse(body) {
        Some(value) => token_in(&value, now_ms, own_client),
        None => None,
    }
}

/// The start of a body for the log: four hundred characters at most.
pub open spec fn clipped(body: Seq<char>) -> Seq<char> {
    let s = text::trimmed(body);
    if s.len() <= 400 {
        s
    } else {
        s.take(400) + "…"@
    }
}

/// The start of a body for the log.
pub fn clip_body(body: &str) -> (r: String)
    ensures
        r@ == clipped(body@),
{
    let s = text::trim(body);
    let v = text::chars(s.as_str());
    if v.len() <= 400 {
        return s;
    }
    let mut out = text::slice(&v, 0, 400);
    assert(out@ =~= s@.take(400));
    out.append("…");
    out
}

/// What the status of an answer means.
#[derive(Debug, Clone, Copy, PartialEq, Eq, Structural)]
pub enum Status {
    Fine,
    /// Spotify wants to be left alone.
    TooMany,
    /// The token is not accepted here.
    Refused,
    /// There is no such thing.
    Missing,
    Failed,
}

/// What the status of an answer means.
pub open spec fn meant_by(code: u16) -> Status {
    if 200 <= code < 300 {
        Status::Fine
    } else if code == 429 {
        Status::TooMany
    } else if code == 401 || code == 403 {
        Status::Refused
    } else if code == 404 {
        Status::Missing
    } else {
        Status::Failed
    }
}

/// What the status of an answer means.
pub fn status(code: u16) -> (r: Status)
    ensures
        r == if 200 <= code < 300 {
            Status::Fine
        } else if code == 429 {
            Status::TooMany
        } else if code == 401 || code == 403 {
            Status::Refused
        } else if code == 404 {
            Status::Missing
        } else {
            Status::Failed
        },
        r == meant_by(code),
{
    if 200 <= code && code < 300 {
        Status::Fine
    } else if code == 429 {
        Status::TooMany
    } else if code == 401 || code == 403 {
        Status::Refused
    } else if code == 404 {
        Status::Missing
    } else {
        Status::Failed
    }
}

/// Whether a failure means that the session is of no more use.
pub fn drops_session(error: &str) -> (r: bool)
    ensures
        r == text::occurs(error@, "refused the partner session"@),
{
    text::contains(error, "refused the partner session")
}

/// Spotify is left alone for as long as it asks, but a quarter of a minute at
/// least and a quarter of an hour at most; a minute where it does not say.
pub proof fn a_wait_is_what_was_asked(n: nat)
    ensures
        15 <= n <= 900 ==> asked_wait(Some(text::decimal(n))) == n,
        n < 15 ==> asked_wait(Some(text::decimal(n))) == 15,
        900 < n <= u64::MAX ==> asked_wait(Some(text::decimal(n))) == 900,
        asked_wait(None) == 60,
        asked_wait(Some(Seq::empty())) == 60,
{
    text::digits_are_read_back(n);
    text::decimal_nonempty(n);
    let d = text::decimal(n);
    assert('0' <= d[0] <= '9');
    assert('0' <= d[d.len() - 1] <= '9');
    text::a_trimmed_text_stays(d);
    text::a_trimmed_text_stays(Seq::empty());
}

/// A token is used until a minute before it runs out, but for half a minute at
/// least; one that does not say when, for fifty minutes.
pub proof fn a_token_is_used_until_a_minute_before_it_runs_out(expires_ms: u64, now_ms: u64)
    ensures
        expires_ms >= now_ms + 90_000 ==> ttl(expires_ms, now_ms) + now_ms + 60_000 == expires_ms,
        0 < expires_ms < now_ms + 90_000 ==> ttl(expires_ms, now_ms) == 30_000,
        ttl(0, now_ms) == 50 * 60_000,
{
}

/// The wait that is left is what is missing to its end, and none once that is
/// reached.
pub proof fn a_wait_runs_out(until: u64, now: u64)
    ensures
        now < until ==> left(Some(until), now) == Some((until - now) as u64),
        now >= until ==> left(Some(until), now) is None,
        left(None, now) is None,
{
}

/// A token says its key, whether somebody is signed in, and whose it is.
pub proof fn a_token_says_its_key(
    r: Option<Token>,
    value: Json,
    now_ms: u64,
    own_client: Seq<char>,
    key: Seq<char>,
    client: Seq<char>,
)
    requires
        is_token(r, value, now_ms, own_client),
    ensures
        json::says(value, "accessToken"@, key) ==> (r matches Some(t) && t.access@ == key),
        json::in_object(value, "accessToken"@) is None && json::says(value, "access_token"@, key)
            ==> (r matches Some(t) && t.access@ == key),
        json::in_object(value, "accessToken"@) is None && json::in_object(
            value,
            "access_token"@,
        ) is None ==> r is None,
        r matches Some(t) ==> (json::says(value, "clientId"@, client) ==> t.client_id@ == client),
        r matches Some(t) ==> (json::in_object(value, "clientId"@) is None && json::in_object(
            value,
            "client_id"@,
        ) is None ==> t.client_id@ == own_client),
        r matches Some(t) ==> t.anonymous == (json::in_object(value, "isAnonymous"@) == Some(
            Json::Bool(true),
        )),
{
}

/// What to do for a session: one that has not run out is used whatever else
/// holds, and nothing is asked for in a wait or without cookies.
pub proof fn a_session_that_lasts_is_used(
    expires: Option<u64>,
    until: Option<u64>,
    now: u64,
    cookie: bool,
)
    ensures
        expires matches Some(e) ==> (now < e ==> next_step(expires, until, now, cookie) is Use),
        next_step(expires, until, now, cookie) is Use ==> (expires matches Some(e) && now < e),
        next_step(expires, until, now, cookie) is Ask ==> cookie && left(until, now) is None,
        expires is None && left(until, now) is Some ==> next_step(
            expires,
            until,
            now,
            cookie,
        ) is Wait,
        expires is None && left(until, now) is None && !cookie ==> next_step(
            expires,
            until,
            now,
            cookie,
        ) is SignIn,
        expires is None && left(until, now) is None && cookie ==> next_step(
            expires,
            until,
            now,
            cookie,
        ) is Ask,
{
}

/// What is clipped is the start of a body, and all of it where it is short.
pub proof fn a_body_is_clipped_from_its_start(body: Seq<char>)
    requires
        body.len() > 0,
        !text::is_space(body[0]),
        !text::is_space(body.last()),
    ensures
        body.len() <= 400 ==> clipped(body) == body,
        body.len() > 400 ==> clipped(body) == body.take(400) + "…"@,
{
    text::a_trimmed_text_stays(body);
}

/// A token ends the attempts, a wait ends them too, and there are two at most.
pub proof fn attempts_come_to_an_end(attempt: Attempt, last: bool, cooling: bool)
    ensures
        attempt is Token ==> following(attempt, last, cooling) is Done,
        !(attempt is Token) ==> !(following(attempt, last, cooling) is Done),
        last ==> !(following(attempt, last, cooling) is Again),
        cooling ==> !(following(attempt, last, cooling) is Again),
        !(attempt is Token) && !last && !cooling ==> following(attempt, last, cooling) is Again,
{
}

/// A status of the two hundreds is fine and no other is; too many requests, a
/// refusal and a thing that is missing are told apart.
pub proof fn a_status_means_one_thing(code: u16)
    ensures
        meant_by(code) is Fine <==> 200 <= code <= 299,
        meant_by(code) is TooMany <==> code == 429,
        meant_by(code) is Refused <==> code == 401 || code == 403,
        meant_by(code) is Missing <==> code == 404,
{
}

} // verus!
