//! Log-in and tokens: password hashing, the claims that a token carries, the
//! check of a decoded token, and the log-in flow.

use vstd::prelude::*;
use vstd::utf8::encode_utf8;
use crate::flow::{Action, Body, Event, Query, Reply, event_ok};
use crate::misc::MAX_CLOCK;
use crate::text::{hex_lower, hex_lower_string};

verus! {

/// What a token says: whose it is and until when (seconds since the Unix
/// epoch) it is valid.
#[derive(Debug, Clone, PartialEq, Eq)]
pub struct Claims {
    pub id: String,
    pub exp: u64,
}

/// How long a token is valid after it is issued: 100 days.
pub const TOKEN_LIFETIME_SECS: u64 = 8640000;

/// A log-in request.
#[derive(Debug, Clone, PartialEq, Eq)]
pub struct LoginCredential {
    pub id: String,
    pub pw: String,
}

/// The MD5 digest of a byte string.
pub uninterp spec fn md5_digest(data: Seq<u8>) -> Seq<u8>;

/// `md5::compute`, the digest's bytes copied out. Claimed: the named digest,
/// which has 16 bytes (`md5::Digest` wraps a `[u8; 16]`).
#[verifier::external_body]
fn md5_compute(data: &[u8]) -> (res: Vec<u8>)
    ensures
        res@ == md5_digest(data@),
        res@.len() == 16,
{
    md5::compute(data).0.to_vec()
}

/// How a password is stored: the MD5 digest of its UTF-8 bytes in lower-case
/// hexadecimal.
pub open spec fn password_hash_text(pw: Seq<char>) -> Seq<char> {
    hex_lower(md5_digest(encode_utf8(pw)))
}

/// Hashes a password the way the users table stores it.
pub fn password_hash(pw: &str) -> (res: String)
    ensures
        res@ == password_hash_text(pw@),
        res@.len() == 32,
{
    let digest = md5_compute(pw.as_bytes());
    hex_lower_string(digest.as_slice())
}

/// The id in a decoded token, or `"ERROR"` where the token did not decode
/// (bad signature, malformed or expired).
pub fn verify_token(decoded: Option<Claims>) -> (res: Result<String, String>)
    ensures
        match decoded {
            Some(c) => res == Ok::<String, String>(c.id),
            None => res is Err && res->Err_0@ == "ERROR"@,
        },
{
    match decoded {
        Some(c) => Ok(c.id),
        None => Err(String::from_str("ERROR")),
    }
}

/// The claims of a token issued to `id` at clock `now`: valid for
/// `TOKEN_LIFETIME_SECS` from then.
pub fn issue_claims(id: String, now: i64) -> (res: Claims)
    requires
        0 <= now <= MAX_CLOCK,
    ensures
        res == (Claims { id, exp: (now + TOKEN_LIFETIME_SECS) as u64 }),
{
    Claims { id, exp: now as u64 + TOKEN_LIFETIME_SECS }
}

/// Where a log-in stands.
#[derive(Debug, Clone, PartialEq, Eq)]
pub enum LoginFlow {
    /// Counting the users with this id and password hash.
    Checking { id: String, pw_hash: String },
    /// The credentials match: reading the clock to issue a token.
    Stamping { id: String },
    /// Signing the claims.
    Signing { claims: Claims },
    /// Answered.
    Done,
}

/// The action that an unanswered log-in asks for.
pub open spec fn login_request(s: LoginFlow, a: Action) -> bool {
    match s {
        LoginFlow::Checking { id, pw_hash } => a == Action::Db(
            Query::CountCredentialMatches { id, pw_hash },
        ),
        LoginFlow::Stamping { .. } => a == Action::ReadClock,
        LoginFlow::Signing { claims } => a == Action::SignToken(claims),
        LoginFlow::Done => false,
    }
}

/// How a log-in moves on an outcome, to state `t` with action `a`: exactly one
/// matching user earns a token, valid `TOKEN_LIFETIME_SECS` from the clock;
/// any other count is answered `Unauthorized`. An outcome of another kind than
/// the one asked for leaves the state, and its request, as they are.
pub open spec fn login_next(s: LoginFlow, e: Event, t: LoginFlow, a: Action) -> bool {
    match s {
        LoginFlow::Checking { id, pw_hash } => match e {
            Event::Count(n) => if n == 1 {
                t == LoginFlow::Stamping { id } && login_request(t, a)
            } else {
                t == LoginFlow::Done && a == Action::Reply(Reply::Unauthorized)
            },
            _ => t == s && login_request(t, a),
        },
        LoginFlow::Stamping { id } => match e {
            Event::Clock(now) => t == LoginFlow::Signing {
                claims: Claims { id, exp: (now + TOKEN_LIFETIME_SECS) as u64 },
            } && login_request(t, a),
            _ => t == s && login_request(t, a),
        },
        LoginFlow::Signing { claims } => match e {
            Event::Token(tok) => t == LoginFlow::Done && a == Action::Reply(
                Reply::Success(Body::Token(tok)),
            ),
            _ => t == s && login_request(t, a),
        },
        LoginFlow::Done => false,
    }
}

/// Starts a log-in: the password is hashed and the matching users counted.
pub fn login(cred: LoginCredential) -> (res: (LoginFlow, Action))
    ensures
        res.0 matches LoginFlow::Checking { id, pw_hash } && id == cred.id && pw_hash@
            == password_hash_text(cred.pw@),
        login_request(res.0, res.1),
{
    let pw_hash = password_hash(cred.pw.as_str());
    let flow = LoginFlow::Checking { id: cred.id, pw_hash };
    let a = flow.request();
    (flow, a)
}

impl LoginFlow {
    /// Whether the log-in has been answered.
    pub fn is_done(&self) -> (res: bool)
        ensures
            res == (*self is Done),
    {
        matches!(self, LoginFlow::Done)
    }

    /// The action that this unanswered log-in asks for.
    pub fn request(&self) -> (a: Action)
        requires
            !(*self is Done),
        ensures
            login_request(*self, a),
    {
        match self {
            LoginFlow::Checking { id, pw_hash } => Action::Db(
                Query::CountCredentialMatches { id: id.clone(), pw_hash: pw_hash.clone() },
            ),
            LoginFlow::Stamping { .. } => Action::ReadClock,
            LoginFlow::Signing { claims } => Action::SignToken(
                Claims { id: claims.id.clone(), exp: claims.exp },
            ),
            LoginFlow::Done => Action::ReadClock,
        }
    }

    /// Moves the log-in on the outcome of its last action.
    pub fn step(self, e: Event) -> (res: (LoginFlow, Action))
        requires
            !(self is Done),
            event_ok(e),
        ensures
            login_next(self, e, res.0, res.1),
    {
        match self {
            LoginFlow::Checking { id, pw_hash } => match e {
                Event::Count(n) => if n == 1 {
                    let t = LoginFlow::Stamping { id };
                    let a = t.request();
                    (t, a)
                } else {
                    (LoginFlow::Done, Action::Reply(Reply::Unauthorized))
                },
                _ => {
                    let t = LoginFlow::Checking { id, pw_hash };
                    let a = t.request();
                    (t, a)
                },
            },
            LoginFlow::Stamping { id } => match e {
                Event::Clock(now) => {
                    let t = LoginFlow::Signing { claims: issue_claims(id, now) };
                    let a = t.request();
                    (t, a)
                },
                _ => {
                    let t = LoginFlow::Stamping { id };
                    let a = t.request();
                    (t, a)
                },
            },
            LoginFlow::Signing { claims } => match e {
                Event::Token(tok) => (LoginFlow::Done, Action::Reply(Reply::Success(Body::Token(tok)))),
                _ => {
                    let t = LoginFlow::Signing { claims };
                    let a = t.request();
                    (t, a)
                },
            },
            LoginFlow::Done => (LoginFlow::Done, Action::ReadClock),
        }
    }
}

/// A run of the log-in flow: `states[i]` moves on the acceptable outcome
/// `events[i]` to `states[i + 1]` and asks for `actions[i]`.
pub open spec fn login_run(states: Seq<LoginFlow>, events: Seq<Event>, actions: Seq<Action>) -> bool {
    &&& states.len() == events.len() + 1
    &&& actions.len() == events.len()
    &&& forall|i: int| 0 <= i < events.len() ==> event_ok(#[trigger] events[i])
    &&& forall|i: int|
        0 <= i < events.len() ==> #[trigger] login_next(states[i], events[i], states[i + 1], actions[i])
}

/// Before position `i`, the database found exactly one user with the
/// credentials.
pub open spec fn matched_before(states: Seq<LoginFlow>, events: Seq<Event>, i: int) -> bool {
    exists|j: int| 0 <= j < i && #[trigger] states[j] is Checking && events[j] == Event::Count(1)
}

/// What a run has established by the time it reaches `states[i]`.
pub open spec fn login_history(states: Seq<LoginFlow>, events: Seq<Event>, id: String, i: int) -> bool {
    match states[i] {
        LoginFlow::Checking { id: x, .. } => x == id,
        LoginFlow::Stamping { id: x } => x == id && matched_before(states, events, i),
        LoginFlow::Signing { claims } => {
            &&& claims.id == id
            &&& matched_before(states, events, i)
            &&& exists|j: int|
                0 <= j < i && #[trigger] states[j] is Stamping && (events[j] matches Event::Clock(
                    now,
                ) && claims.exp == now + TOKEN_LIFETIME_SECS)
        },
        LoginFlow::Done => true,
    }
}

proof fn lemma_login_history(
    states: Seq<LoginFlow>,
    events: Seq<Event>,
    actions: Seq<Action>,
    cred_id: String,
    i: int,
)
    requires
        login_run(states, events, actions),
        states[0] matches LoginFlow::Checking { id, .. } && id == cred_id,
        0 <= i < states.len(),
    ensures
        login_history(states, events, cred_id, i),
    decreases i,
{
    if i > 0 {
        lemma_login_history(states, events, actions, cred_id, i - 1);
        let p = i - 1;
        assert(login_next(states[p], events[p], states[p + 1], actions[p]));
        assert(event_ok(events[p]));
        if states[p] is Checking {
            assert(states[p] is Checking);
        }
        if states[p] is Stamping {
            assert(states[p] is Stamping);
        }
    }
}

/// A token is signed only for the id that logged in, after the database found
/// exactly one user with that id and the hash of the given password, and it
/// expires `TOKEN_LIFETIME_SECS` after a clock reading taken then.
pub proof fn lemma_token_only_for_matching_credentials(
    states: Seq<LoginFlow>,
    events: Seq<Event>,
    actions: Seq<Action>,
    cred: LoginCredential,
    k: int,
)
    requires
        login_run(states, events, actions),
        states[0] matches LoginFlow::Checking { id, pw_hash } && id == cred.id && pw_hash@
            == password_hash_text(cred.pw@),
        0 <= k < actions.len(),
        actions[k] is SignToken,
    ensures
        actions[k]->SignToken_0.id == cred.id,
        matched_before(states, events, k + 1),
        exists|j: int|
            0 <= j <= k && #[trigger] states[j] is Stamping && (events[j] matches Event::Clock(now)
                && actions[k]->SignToken_0.exp == now + TOKEN_LIFETIME_SECS),
{
    assert(login_next(states[k], events[k], states[k + 1], actions[k]));
    lemma_login_history(states, events, actions, cred.id, k + 1);
    assert(states[k + 1] is Signing);
}

/// Exactly one user with the id and password hash earns a token: the clock
/// is read next. No match, or several, is answered `Unauthorized`.
pub proof fn lemma_login_match(id: String, pw_hash: String, n: i64, t: LoginFlow, a: Action)
    requires
        login_next(LoginFlow::Checking { id, pw_hash }, Event::Count(n), t, a),
    ensures
        n == 1 ==> t == (LoginFlow::Stamping { id }) && a == Action::ReadClock,
        n != 1 ==> t is Done && a == Action::Reply(Reply::Unauthorized),
{
}

/// The token signed for `id` at clock `now` expires `TOKEN_LIFETIME_SECS`
/// (100 days) later, and the signed token is the answer.
pub proof fn lemma_login_token(
    id: String,
    now: i64,
    tok: String,
    t1: LoginFlow,
    a1: Action,
    t2: LoginFlow,
    a2: Action,
)
    requires
        event_ok(Event::Clock(now)),
        login_next(LoginFlow::Stamping { id }, Event::Clock(now), t1, a1),
        login_next(t1, Event::Token(tok), t2, a2),
    ensures
        a1 matches Action::SignToken(c) && c.id == id && c.exp == now + 8640000,
        t2 is Done && a2 == Action::Reply(Reply::Success(Body::Token(tok))),
{
}

} // verus!
