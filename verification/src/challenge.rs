//! Challenging another user: the token is checked, a user may have one open
//! challenge at a time, both users must have submitted, and the challenge is
//! rated when the target is rated at least as high as the challenger and the
//! contest is running. New challenges are spread over the judge servers by
//! their number.

use vstd::prelude::*;
use crate::auth::{Claims, verify_token};
use crate::flow::{Action, Body, Event, Query, Reply, event_ok};
use crate::misc::{current_time_string, time_text};

verus! {

/// A challenge request: a token and the id of the user to play against.
#[derive(Debug, Clone, PartialEq, Eq)]
pub struct ChallengeRequest {
    pub token: String,
    pub target: String,
}

/// Whether a challenge is rated: the database found the target rated at
/// least as high as the challenger (`eligible`), and the clock is within the
/// contest, from its start up to (not including) its end.
pub open spec fn rated_value(eligible: bool, now: i64, contest_start: i64, contest_end: i64) -> i32 {
    if eligible && contest_start <= now && now < contest_end {
        1
    } else {
        0
    }
}

/// Whether a challenge is rated, as `rated_value` says.
pub fn rated(eligible: bool, now: i64, contest_start: i64, contest_end: i64) -> (res: i32)
    ensures
        res == rated_value(eligible, now, contest_start, contest_end),
{
    let mut r: i32 = if eligible { 1 } else { 0 };
    if now >= contest_end || now < contest_start {
        r = 0;
    }
    r
}

/// The judge server of challenge `id` as stored: its number modulo the
/// number of servers.
pub open spec fn server_of(id: i64, server_num: i64) -> i32 {
    (id % server_num) as i32
}

/// The judge server of challenge `id`: its number modulo the number of
/// servers.
pub fn server_for(id: i64, server_num: i64) -> (res: i64)
    requires
        id >= 1,
        server_num != 0,
    ensures
        res == id % server_num,
        0 <= res < if server_num > 0 { server_num as int } else { -server_num },
{
    id % server_num
}

/// Where a challenge stands, apart from the contest's settings.
#[derive(Debug, Clone, PartialEq, Eq)]
pub enum ChallengeStage {
    /// Checking the token.
    Authenticating { token: String, target: String },
    /// Counting the user's unfinished challenges.
    CountingOpen { user: String, target: String },
    /// Counting which of the two users have submitted.
    CountingSubmitters { user: String, target: String },
    /// Looking for the target among the users rated at least as high.
    CheckingRating { user: String, target: String },
    /// Reading the clock to decide whether the challenge is rated.
    Timing { user: String, target: String, eligible: bool },
    /// Starting the transaction.
    Opening { user: String, target: String, rated: i32 },
    /// Counting the challenges to number the new one.
    Numbering { user: String, target: String, rated: i32 },
    /// Reading the clock to stamp challenge `id`.
    Stamping { user: String, target: String, rated: i32, id: i64 },
    /// Recording the challenge.
    Recording { user: String, target: String, rated: i32, id: i64, tim: String, tim_num: i64 },
    /// Committing.
    Committing,
    /// Answered.
    Done,
}

/// A challenge request in progress, with the contest's start and end (seconds
/// since the Unix epoch) and the number of judge servers.
#[derive(Debug, Clone, PartialEq, Eq)]
pub struct ChallengeFlow {
    pub contest_start: i64,
    pub contest_end: i64,
    pub server_num: i64,
    pub stage: ChallengeStage,
}

/// The action that an unanswered challenge asks for.
pub open spec fn challenge_request(f: ChallengeFlow, a: Action) -> bool {
    match f.stage {
        ChallengeStage::Authenticating { token, .. } => a == Action::DecodeToken(token),
        ChallengeStage::CountingOpen { user, .. } => a == Action::Db(
            Query::CountOpenChallenges { user },
        ),
        ChallengeStage::CountingSubmitters { user, target } => a == Action::Db(
            Query::CountSubmitters { user, target },
        ),
        ChallengeStage::CheckingRating { user, target } => a == Action::Db(
            Query::CountRatedTargets { user, target },
        ),
        ChallengeStage::Timing { .. } => a == Action::ReadClock,
        ChallengeStage::Opening { .. } => a == Action::Db(Query::Begin),
        ChallengeStage::Numbering { .. } => a == Action::Db(Query::CountChallenges),
        ChallengeStage::Stamping { .. } => a == Action::ReadClock,
        ChallengeStage::Recording { user, target, rated, id, tim, tim_num } => a == Action::Db(
            Query::InsertChallenge {
                id: id as i32,
                rated,
                tim,
                tim_num: tim_num as i32,
                server_id: server_of(id, f.server_num),
                user1: user,
                user2: target,
            },
        ),
        ChallengeStage::Committing => a == Action::Db(Query::Commit),
        ChallengeStage::Done => false,
    }
}

/// How a challenge moves on an outcome, to state `t` with action `a`. A token
/// that does not decode is answered `Unauthorized`; an unfinished challenge
/// of the user, or fewer or more than two submitters, is answered
/// `BadRequest`; otherwise the challenge is rated as `rated_value` says,
/// numbered one past the count, stamped, recorded between the token's user and
/// the target on server `id % server_num`, and answered with an empty
/// success. An outcome of another kind than the one asked for leaves the
/// state, and its request, as they are. The contest's settings never change.
pub open spec fn challenge_next(f: ChallengeFlow, e: Event, t: ChallengeFlow, a: Action) -> bool {
    let moved = |stage: ChallengeStage|
        t == ChallengeFlow { stage, ..f } && challenge_request(t, a);
    let answered = |r: Reply|
        t == ChallengeFlow { stage: ChallengeStage::Done, ..f } && a == Action::Reply(r);
    let stay = t == f && challenge_request(t, a);
    match f.stage {
        ChallengeStage::Authenticating { target, .. } => match e {
            Event::Claims(c) => match c {
                Some(cl) => moved(ChallengeStage::CountingOpen { user: cl.id, target }),
                None => answered(Reply::Unauthorized),
            },
            _ => stay,
        },
        ChallengeStage::CountingOpen { user, target } => match e {
            Event::Count(n) => if n != 0 {
                answered(Reply::BadRequest)
            } else {
                moved(ChallengeStage::CountingSubmitters { user, target })
            },
            _ => stay,
        },
        ChallengeStage::CountingSubmitters { user, target } => match e {
            Event::Count(n) => if n != 2 {
                answered(Reply::BadRequest)
            } else {
                moved(ChallengeStage::CheckingRating { user, target })
            },
            _ => stay,
        },
        ChallengeStage::CheckingRating { user, target } => match e {
            Event::Count(n) => moved(ChallengeStage::Timing { user, target, eligible: n > 0 }),
            _ => stay,
        },
        ChallengeStage::Timing { user, target, eligible } => match e {
            Event::Clock(now) => moved(
                ChallengeStage::Opening {
                    user,
                    target,
                    rated: rated_value(eligible, now, f.contest_start, f.contest_end),
                },
            ),
            _ => stay,
        },
        ChallengeStage::Opening { user, target, rated } => match e {
            Event::Finished => moved(ChallengeStage::Numbering { user, target, rated }),
            _ => stay,
        },
        ChallengeStage::Numbering { user, target, rated } => match e {
            Event::Count(n) => moved(
                ChallengeStage::Stamping { user, target, rated, id: (n + 1) as i64 },
            ),
            _ => stay,
        },
        ChallengeStage::Stamping { user, target, rated, id } => match e {
            Event::Clock(now) => {
                &&& t.contest_start == f.contest_start && t.contest_end == f.contest_end
                    && t.server_num == f.server_num
                &&& t.stage matches ChallengeStage::Recording {
                    user: u,
                    target: g,
                    rated: r,
                    id: i,
                    tim,
                    tim_num,
                }
                &&& u == user && g == target && r == rated && i == id
                &&& tim@ == time_text(now) && tim_num == now
                &&& challenge_request(t, a)
            },
            _ => stay,
        },
        ChallengeStage::Recording { .. } => match e {
            Event::Finished => moved(ChallengeStage::Committing),
            _ => stay,
        },
        ChallengeStage::Committing => match e {
            Event::Finished => answered(Reply::Success(Body::Empty)),
            _ => stay,
        },
        ChallengeStage::Done => false,
    }
}

/// Starts a challenge: the token is checked first.
pub fn challenge(data: ChallengeRequest, contest_start: i64, contest_end: i64, server_num: i64) -> (res: (
    ChallengeFlow,
    Action,
))
    requires
        server_num != 0,
    ensures
        res.0 == (ChallengeFlow {
            contest_start,
            contest_end,
            server_num,
            stage: ChallengeStage::Authenticating { token: data.token, target: data.target },
        }),
        challenge_request(res.0, res.1),
{
    let flow = ChallengeFlow {
        contest_start,
        contest_end,
        server_num,
        stage: ChallengeStage::Authenticating { token: data.token, target: data.target },
    };
    flow.requesting()
}

impl ChallengeFlow {
    /// Whether the state is one that the flow can reach: there are judge
    /// servers, and a challenge being numbered or recorded has a positive id.
    pub open spec fn well_formed(self) -> bool {
        &&& self.server_num != 0
        &&& self.stage matches ChallengeStage::Stamping { id, .. } ==> id >= 1
        &&& self.stage matches ChallengeStage::Recording { id, tim_num, .. } ==> id >= 1
    }

    /// Whether the challenge has been answered.
    pub fn is_done(&self) -> (res: bool)
        ensures
            res == (self.stage is Done),
    {
        matches!(self.stage, ChallengeStage::Done)
    }

    /// The action that this unanswered challenge asks for.
    pub fn request(&self) -> (a: Action)
        requires
            !(self.stage is Done),
            self.well_formed(),
        ensures
            challenge_request(*self, a),
    {
        match &self.stage {
            ChallengeStage::Authenticating { token, .. } => Action::DecodeToken(token.clone()),
            ChallengeStage::CountingOpen { user, .. } => Action::Db(
                Query::CountOpenChallenges { user: user.clone() },
            ),
            ChallengeStage::CountingSubmitters { user, target } => Action::Db(
                Query::CountSubmitters { user: user.clone(), target: target.clone() },
            ),
            ChallengeStage::CheckingRating { user, target } => Action::Db(
                Query::CountRatedTargets { user: user.clone(), target: target.clone() },
            ),
            ChallengeStage::Timing { .. } => Action::ReadClock,
            ChallengeStage::Opening { .. } => Action::Db(Query::Begin),
            ChallengeStage::Numbering { .. } => Action::Db(Query::CountChallenges),
            ChallengeStage::Stamping { .. } => Action::ReadClock,
            ChallengeStage::Recording { user, target, rated, id, tim, tim_num } => {
                let server_id = server_for(*id, self.server_num);
                Action::Db(
                    Query::InsertChallenge {
                        id: *id as i32,
                        rated: *rated,
                        tim: tim.clone(),
                        tim_num: *tim_num as i32,
                        server_id: server_id as i32,
                        user1: user.clone(),
                        user2: target.clone(),
                    },
                )
            },
            ChallengeStage::Committing => Action::Db(Query::Commit),
            ChallengeStage::Done => Action::ReadClock,
        }
    }

    /// This unanswered state paired with its request.
    fn requesting(self) -> (res: (ChallengeFlow, Action))
        requires
            !(self.stage is Done),
            self.well_formed(),
        ensures
            res.0 == self,
            challenge_request(res.0, res.1),
    {
        let a = self.request();
        (self, a)
    }

    /// Moves the challenge on the outcome of its last action.
    pub fn step(self, e: Event) -> (res: (ChallengeFlow, Action))
        requires
            !(self.stage is Done),
            self.well_formed(),
            event_ok(e),
        ensures
            challenge_next(self, e, res.0, res.1),
            res.0.well_formed(),
    {
        let ChallengeFlow { contest_start, contest_end, server_num, stage } = self;
        match stage {
            ChallengeStage::Authenticating { token, target } => match e {
                Event::Claims(c) => match verify_token(c) {
                    Ok(user) => resume(
                        contest_start,
                        contest_end,
                        server_num,
                        ChallengeStage::CountingOpen { user, target },
                    ),
                    Err(_) => answer(contest_start, contest_end, server_num, Reply::Unauthorized),
                },
                _ => resume(
                    contest_start,
                    contest_end,
                    server_num,
                    ChallengeStage::Authenticating { token, target },
                ),
            },
            ChallengeStage::CountingOpen { user, target } => match e {
                Event::Count(n) => if n != 0 {
                    answer(contest_start, contest_end, server_num, Reply::BadRequest)
                } else {
                    resume(
                        contest_start,
                        contest_end,
                        server_num,
                        ChallengeStage::CountingSubmitters { user, target },
                    )
                },
                _ => resume(
                    contest_start,
                    contest_end,
                    server_num,
                    ChallengeStage::CountingOpen { user, target },
                ),
            },
            ChallengeStage::CountingSubmitters { user, target } => match e {
                Event::Count(n) => if n != 2 {
                    answer(contest_start, contest_end, server_num, Reply::BadRequest)
                } else {
                    resume(
                        contest_start,
                        contest_end,
                        server_num,
                        ChallengeStage::CheckingRating { user, target },
                    )
                },
                _ => resume(
                    contest_start,
                    contest_end,
                    server_num,
                    ChallengeStage::CountingSubmitters { user, target },
                ),
            },
            ChallengeStage::CheckingRating { user, target } => match e {
                Event::Count(n) => resume(
                    contest_start,
                    contest_end,
                    server_num,
                    ChallengeStage::Timing { user, target, eligible: n > 0 },
                ),
                _ => resume(
                    contest_start,
                    contest_end,
                    server_num,
                    ChallengeStage::CheckingRating { user, target },
                ),
            },
            ChallengeStage::Timing { user, target, eligible } => match e {
                Event::Clock(now) => {
                    let r = rated(eligible, now, contest_start, contest_end);
                    resume(
                        contest_start,
                        contest_end,
                        server_num,
                        ChallengeStage::Opening { user, target, rated: r },
                    )
                },
                _ => resume(
                    contest_start,
                    contest_end,
                    server_num,
                    ChallengeStage::Timing { user, target, eligible },
                ),
            },
            ChallengeStage::Opening { user, target, rated } => match e {
                Event::Finished => resume(
                    contest_start,
                    contest_end,
                    server_num,
                    ChallengeStage::Numbering { user, target, rated },
                ),
                _ => resume(
                    contest_start,
                    contest_end,
                    server_num,
                    ChallengeStage::Opening { user, target, rated },
                ),
            },
            ChallengeStage::Numbering { user, target, rated } => match e {
                Event::Count(n) => resume(
                    contest_start,
                    contest_end,
                    server_num,
                    ChallengeStage::Stamping { user, target, rated, id: n + 1 },
                ),
                _ => resume(
                    contest_start,
                    contest_end,
                    server_num,
                    ChallengeStage::Numbering { user, target, rated },
                ),
            },
            ChallengeStage::Stamping { user, target, rated, id } => match e {
                Event::Clock(now) => {
                    let tim = current_time_string(now);
                    resume(
                        contest_start,
                        contest_end,
                        server_num,
                        ChallengeStage::Recording { user, target, rated, id, tim, tim_num: now },
                    )
                },
                _ => resume(
                    contest_start,
                    contest_end,
                    server_num,
                    ChallengeStage::Stamping { user, target, rated, id },
                ),
            },
            ChallengeStage::Recording { user, target, rated, id, tim, tim_num } => match e {
                Event::Finished => resume(
                    contest_start,
                    contest_end,
                    server_num,
                    ChallengeStage::Committing,
                ),
                _ => resume(
                    contest_start,
                    contest_end,
                    server_num,
                    ChallengeStage::Recording { user, target, rated, id, tim, tim_num },
                ),
            },
            ChallengeStage::Committing => match e {
                Event::Finished => answer(
                    contest_start,
                    contest_end,
                    server_num,
                    Reply::Success(Body::Empty),
                ),
                _ => resume(contest_start, contest_end, server_num, ChallengeStage::Committing),
            },
            ChallengeStage::Done => answer(contest_start, contest_end, server_num, Reply::BadRequest),
        }
    }
}

/// The flow at `stage`, paired with its request.
fn resume(contest_start: i64, contest_end: i64, server_num: i64, stage: ChallengeStage) -> (res: (
    ChallengeFlow,
    Action,
))
    requires
        !(stage is Done),
        (ChallengeFlow { contest_start, contest_end, server_num, stage }).well_formed(),
    ensures
        res.0 == (ChallengeFlow { contest_start, contest_end, server_num, stage }),
        challenge_request(res.0, res.1),
{
    ChallengeFlow { contest_start, contest_end, server_num, stage }.requesting()
}

/// The answered flow and its answer.
fn answer(contest_start: i64, contest_end: i64, server_num: i64, r: Reply) -> (res: (
    ChallengeFlow,
    Action,
))
    ensures
        res.0 == (ChallengeFlow { contest_start, contest_end, server_num, stage: ChallengeStage::Done }),
        res.1 == Action::Reply(r),
{
    (ChallengeFlow { contest_start, contest_end, server_num, stage: ChallengeStage::Done }, Action::Reply(r))
}

/// A run of the challenge flow: `states[i]` moves on the acceptable outcome
/// `events[i]` to `states[i + 1]` and asks for `actions[i]`.
pub open spec fn challenge_run(states: Seq<ChallengeFlow>, events: Seq<Event>, actions: Seq<Action>) -> bool {
    &&& states.len() == events.len() + 1
    &&& actions.len() == events.len()
    &&& forall|i: int| 0 <= i < events.len() ==> event_ok(#[trigger] events[i])
    &&& forall|i: int|
        0 <= i < events.len() ==> #[trigger] challenge_next(
            states[i],
            events[i],
            states[i + 1],
            actions[i],
        )
}

/// Before position `i`, a token of `user` was decoded.
pub open spec fn challenger_before(events: Seq<Event>, user: String, i: int) -> bool {
    exists|j: int| 0 <= j < i && (#[trigger] events[j] matches Event::Claims(Some(c)) && c.id == user)
}

/// Before position `i`, the database reported no unfinished challenge of `user`.
pub open spec fn none_open_before(states: Seq<ChallengeFlow>, events: Seq<Event>, user: String, i: int) -> bool {
    exists|j: int|
        0 <= j < i && (#[trigger] states[j].stage matches ChallengeStage::CountingOpen {
            user: u,
            ..
        } && u == user) && events[j] == Event::Count(0)
}

/// Before position `i`, the database reported that both `user` and `target`
/// have submitted.
pub open spec fn both_submitted_before(
    states: Seq<ChallengeFlow>,
    events: Seq<Event>,
    user: String,
    target: String,
    i: int,
) -> bool {
    exists|j: int|
        0 <= j < i && (#[trigger] states[j].stage matches ChallengeStage::CountingSubmitters {
            user: u,
            target: g,
        } && u == user && g == target) && events[j] == Event::Count(2)
}

/// Before position `i`, the target was found rated at least as high, and the
/// clock read within the contest.
pub open spec fn rated_before(states: Seq<ChallengeFlow>, events: Seq<Event>, i: int) -> bool {
    &&& exists|j: int|
        0 <= j < i && #[trigger] states[j].stage is CheckingRating && (events[j] matches Event::Count(
            n,
        ) && n > 0)
    &&& exists|j: int|
        0 <= j < i && (#[trigger] states[j].stage matches ChallengeStage::Timing { eligible, .. }
            && eligible) && (events[j] matches Event::Clock(now) && states[j].contest_start <= now
            < states[j].contest_end)
}

/// What a run has established by the time it reaches `states[i]`.
pub open spec fn challenge_history(
    states: Seq<ChallengeFlow>,
    events: Seq<Event>,
    target: String,
    i: int,
) -> bool {
    let f = states[i];
    &&& f.contest_start == states[0].contest_start
    &&& f.contest_end == states[0].contest_end
    &&& f.server_num == states[0].server_num
    &&& match f.stage {
        ChallengeStage::Authenticating { target: g, .. } => g == target,
        ChallengeStage::CountingOpen { user, target: g } => g == target && challenger_before(
            events,
            user,
            i,
        ),
        ChallengeStage::CountingSubmitters { user, target: g } => {
            &&& g == target
            &&& challenger_before(events, user, i)
            &&& none_open_before(states, events, user, i)
        },
        ChallengeStage::CheckingRating { user, target: g } => admitted_before(
            states,
            events,
            target,
            user,
            g,
            i,
        ),
        ChallengeStage::Timing { user, target: g, eligible } => {
            &&& admitted_before(states, events, target, user, g, i)
            &&& eligible ==> exists|j: int|
                0 <= j < i && #[trigger] states[j].stage is CheckingRating && (events[j] matches Event::Count(
                    n,
                ) && n > 0)
        },
        ChallengeStage::Opening { user, target: g, rated } => admitted_before(
            states,
            events,
            target,
            user,
            g,
            i,
        ) && (rated == 0 || rated == 1) && (rated == 1 ==> rated_before(states, events, i)),
        ChallengeStage::Numbering { user, target: g, rated } => admitted_before(
            states,
            events,
            target,
            user,
            g,
            i,
        ) && (rated == 0 || rated == 1) && (rated == 1 ==> rated_before(states, events, i)),
        ChallengeStage::Stamping { user, target: g, rated, .. } => admitted_before(
            states,
            events,
            target,
            user,
            g,
            i,
        ) && (rated == 0 || rated == 1) && (rated == 1 ==> rated_before(states, events, i)),
        ChallengeStage::Recording { user, target: g, rated, .. } => admitted_before(
            states,
            events,
            target,
            user,
            g,
            i,
        ) && (rated == 0 || rated == 1) && (rated == 1 ==> rated_before(states, events, i)),
        ChallengeStage::Committing => true,
        ChallengeStage::Done => true,
    }
}

/// Before position `i`: the target is the requested one, the challenger's
/// token was decoded, the challenger had no unfinished challenge, and both
/// had submitted.
pub open spec fn admitted_before(
    states: Seq<ChallengeFlow>,
    events: Seq<Event>,
    target: String,
    user: String,
    g: String,
    i: int,
) -> bool {
    &&& g == target
    &&& challenger_before(events, user, i)
    &&& none_open_before(states, events, user, i)
    &&& both_submitted_before(states, events, user, target, i)
}

proof fn lemma_challenge_history(
    states: Seq<ChallengeFlow>,
    events: Seq<Event>,
    actions: Seq<Action>,
    target: String,
    i: int,
)
    requires
        challenge_run(states, events, actions),
        states[0].stage matches ChallengeStage::Authenticating { target: g, .. } && g == target,
        0 <= i < states.len(),
    ensures
        challenge_history(states, events, target, i),
    decreases i,
{
    if i > 0 {
        lemma_challenge_history(states, events, actions, target, i - 1);
        let p = i - 1;
        assert(challenge_next(states[p], events[p], states[p + 1], actions[p]));
        assert(event_ok(events[p]));
        let h = challenge_history(states, events, target, i);
        match states[p].stage {
            ChallengeStage::Authenticating { .. } => {
                match events[p] {
                    Event::Claims(Some(c)) => {
                        assert(events[p] matches Event::Claims(Some(c2)) && c2.id == c.id);
                    },
                    _ => {},
                }
                assert(h);
            },
            ChallengeStage::CountingOpen { user, .. } => {
                assert(states[p].stage matches ChallengeStage::CountingOpen { user: u, .. } && u == user);
                assert(h);
            },
            ChallengeStage::CountingSubmitters { user, target: g } => {
                assert(states[p].stage matches ChallengeStage::CountingSubmitters {
                    user: u,
                    target: g2,
                } && u == user && g2 == g);
                assert(h);
            },
            ChallengeStage::CheckingRating { .. } => {
                assert(states[p].stage is CheckingRating);
                assert(h);
            },
            ChallengeStage::Timing { eligible, .. } => {
                assert(states[p].stage matches ChallengeStage::Timing { eligible: el, .. } && el
                    == eligible);
                assert(h);
            },
            _ => {
                assert(h);
            },
        }
    }
}

/// A challenge is recorded only between the user whose token was decoded and
/// the requested target, after the database reported no unfinished challenge
/// of that user and a submission of both; it is rated (1) only after the
/// target was found rated at least as high and the clock read within the
/// contest, and is otherwise unrated (0); its judge server is its number
/// modulo the number of servers.
pub proof fn lemma_recorded_challenge_was_admitted(
    states: Seq<ChallengeFlow>,
    events: Seq<Event>,
    actions: Seq<Action>,
    target: String,
    k: int,
)
    requires
        challenge_run(states, events, actions),
        states[0].stage matches ChallengeStage::Authenticating { target: g, .. } && g == target,
        0 <= k < actions.len(),
        actions[k] matches Action::Db(Query::InsertChallenge { .. }),
    ensures
        ({
            let q = actions[k]->Db_0;
            &&& q->user2 == target
            &&& challenger_before(events, q->user1, k + 1)
            &&& none_open_before(states, events, q->user1, k + 1)
            &&& both_submitted_before(states, events, q->user1, target, k + 1)
            &&& q->rated == 0 || q->rated == 1
            &&& q->rated == 1 ==> rated_before(states, events, k + 1)
            &&& exists|id: i64|
                q->InsertChallenge_id == id as i32 && q->server_id == #[trigger] server_of(id, states[0].server_num)
        }),
{
    assert(challenge_next(states[k], events[k], states[k + 1], actions[k]));
    lemma_challenge_history(states, events, actions, target, k + 1);
    assert(states[k + 1].stage is Recording);
    let id = states[k + 1].stage->Recording_id;
    assert(actions[k]->Db_0->InsertChallenge_id == id as i32);
    assert(actions[k]->Db_0->server_id == server_of(id, states[0].server_num));
}

/// A challenge is rated (1) exactly when the target was found eligible and
/// the clock is at or after the contest's start and before its end; it is
/// otherwise unrated (0).
pub proof fn lemma_rated_rule(eligible: bool, now: i64, contest_start: i64, contest_end: i64)
    ensures
        rated_value(eligible, now, contest_start, contest_end) == 1 <==> (eligible && contest_start
            <= now && now < contest_end),
        rated_value(eligible, now, contest_start, contest_end) == 0 || rated_value(
            eligible,
            now,
            contest_start,
            contest_end,
        ) == 1,
{
}

/// A token that does not decode is answered `Unauthorized`; a decoded token's
/// id becomes the challenger, whose unfinished challenges are counted next.
pub proof fn lemma_challenge_token(f: ChallengeFlow, c: Option<Claims>, t: ChallengeFlow, a: Action)
    requires
        f.stage is Authenticating,
        challenge_next(f, Event::Claims(c), t, a),
    ensures
        c is None ==> t.stage is Done && a == Action::Reply(Reply::Unauthorized),
        c is Some ==> a == Action::Db(Query::CountOpenChallenges { user: c->Some_0.id }),
{
}

/// A challenger with an unfinished challenge is answered `BadRequest`; so is
/// a pair of users of whom not exactly two have submitted. Otherwise the
/// submitters, then the target's rating, are looked up.
pub proof fn lemma_challenge_admission(
    f: ChallengeFlow,
    user: String,
    target: String,
    n: i64,
    t: ChallengeFlow,
    a: Action,
)
    requires
        f.stage == (ChallengeStage::CountingOpen { user, target }) || f.stage
            == (ChallengeStage::CountingSubmitters { user, target }),
        challenge_next(f, Event::Count(n), t, a),
    ensures
        f.stage is CountingOpen && n != 0 ==> t.stage is Done && a == Action::Reply(
            Reply::BadRequest,
        ),
        f.stage is CountingOpen && n == 0 ==> a == Action::Db(
            Query::CountSubmitters { user, target },
        ),
        f.stage is CountingSubmitters && n != 2 ==> t.stage is Done && a == Action::Reply(
            Reply::BadRequest,
        ),
        f.stage is CountingSubmitters && n == 2 ==> a == Action::Db(
            Query::CountRatedTargets { user, target },
        ),
{
}

/// Whether a challenge is rated is decided from the eligibility count and the
/// clock reading: rated (1) exactly when some target row was found and the
/// clock is within the contest.
pub proof fn lemma_challenge_rating(
    f: ChallengeFlow,
    user: String,
    target: String,
    n: i64,
    now: i64,
    t1: ChallengeFlow,
    a1: Action,
    t2: ChallengeFlow,
    a2: Action,
)
    requires
        f.stage == (ChallengeStage::CheckingRating { user, target }),
        challenge_next(f, Event::Count(n), t1, a1),
        challenge_next(t1, Event::Clock(now), t2, a2),
    ensures
        a1 == Action::ReadClock,
        a2 == Action::Db(Query::Begin),
        t2.stage is Opening,
        t2.stage->Opening_rated == 1 <==> (n > 0 && f.contest_start <= now && now < f.contest_end),
        t2.stage->Opening_rated == 0 || t2.stage->Opening_rated == 1,
{
}

/// A challenge is numbered one past the count of challenges, stamped with the
/// clock reading and its text in UTC+9, assigned the judge server given by its
/// number modulo the number of servers, and recorded between the challenger
/// and the target with its rating; the commit is answered with an empty
/// success.
pub proof fn lemma_challenge_record(
    f: ChallengeFlow,
    user: String,
    target: String,
    rated: i32,
    n: i64,
    now: i64,
    t1: ChallengeFlow,
    a1: Action,
    t2: ChallengeFlow,
    a2: Action,
    t3: ChallengeFlow,
    a3: Action,
)
    requires
        event_ok(Event::Count(n)),
        f.stage == (ChallengeStage::Numbering { user, target, rated }),
        challenge_next(f, Event::Count(n), t1, a1),
        challenge_next(t1, Event::Clock(now), t2, a2),
        challenge_next(
            ChallengeFlow { stage: ChallengeStage::Committing, ..f },
            Event::Finished,
            t3,
            a3,
        ),
    ensures
        a1 == Action::ReadClock,
        a2 matches Action::Db(
            Query::InsertChallenge { id, rated: r, tim, tim_num, server_id, user1, user2 },
        ) && id == (n + 1) as i32 && r == rated && tim@ == time_text(now) && tim_num == now as i32
            && server_id == ((n + 1) % (f.server_num as int)) as i32 && user1 == user && user2 == target,
        t3.stage is Done && a3 == Action::Reply(Reply::Success(Body::Empty)),
{
}

} // verus!
