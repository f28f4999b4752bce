//! Read-only requests: submissions, challenges, users and rating history.

use vstd::prelude::*;
use crate::auth::verify_token;
use crate::flow::{Action, Body, Event, Query, Reply, event_ok, text};
use crate::text::{parse_i32, parsed_within};

verus! {

/// A submission as it is shown: its id, time, author and source (the source
/// is left empty in lists).
#[derive(Debug, Clone, PartialEq, Eq)]
pub struct Submission {
    pub id: i32,
    pub tim: String,
    pub user: String,
    pub source: String,
}

/// A request for one submission.
#[derive(Debug, Clone, PartialEq, Eq)]
pub struct SubmissionInfoRequest {
    pub token: String,
    pub id: i32,
}

/// A request for the submissions of a user (`"all"` for everybody).
#[derive(Debug, Clone, PartialEq, Eq)]
pub struct SubmissionsListRequest {
    pub token: String,
    pub user: String,
}

/// A challenge between two users and its judgement (the output is left empty
/// in lists).
#[derive(Debug, Clone, PartialEq, Eq)]
pub struct Challenge {
    pub id: i32,
    pub rated: i32,
    pub tim: String,
    pub stat: String,
    pub user1: String,
    pub user2: String,
    pub user1_score: String,
    pub user2_score: String,
    pub output: String,
}

/// A user and its rating.
#[derive(Debug, Clone, PartialEq, Eq)]
pub struct UserRating {
    pub id: String,
    pub rating: i32,
}

/// One point of a user's rating history.
#[derive(Debug, Clone, PartialEq, Eq)]
pub struct RatingPoint {
    pub tim_num: i32,
    pub user_id: String,
    pub rating: i32,
}

/// The same submissions as they appear in a list: with an empty source.
pub open spec fn listed_submissions(rows: Seq<Submission>, out: Seq<Submission>) -> bool {
    &&& out.len() == rows.len()
    &&& forall|i: int|
        0 <= i < rows.len() ==> {
            &&& (#[trigger] out[i]).id == rows[i].id
            &&& out[i].tim == rows[i].tim
            &&& out[i].user == rows[i].user
            &&& out[i].source@ == Seq::<char>::empty()
        }
}

/// The submissions as a list shows them, without their source.
pub fn list_submissions(rows: &Vec<Submission>) -> (res: Vec<Submission>)
    ensures
        listed_submissions(rows@, res@),
{
    let mut out: Vec<Submission> = Vec::new();
    let n = rows.len();
    let mut i: usize = 0;
    while i < n
        invariant
            n == rows@.len(),
            i <= n,
            listed_submissions(rows@.take(i as int), out@),
        decreases n - i,
    {
        let r = &rows[i];
        out.push(
            Submission { id: r.id, tim: r.tim.clone(), user: r.user.clone(), source: String::new() },
        );
        i = i + 1;
        assert(rows@.take(i as int).drop_last() =~= rows@.take(i - 1));
    }
    assert(rows@.take(n as int) =~= rows@);
    out
}

/// The same challenges as they appear in a list: with an empty output.
pub open spec fn listed_challenges(rows: Seq<Challenge>, out: Seq<Challenge>) -> bool {
    &&& out.len() == rows.len()
    &&& forall|i: int|
        0 <= i < rows.len() ==> {
            &&& (#[trigger] out[i]).id == rows[i].id
            &&& out[i].rated == rows[i].rated
            &&& out[i].tim == rows[i].tim
            &&& out[i].stat == rows[i].stat
            &&& out[i].user1 == rows[i].user1
            &&& out[i].user2 == rows[i].user2
            &&& out[i].user1_score == rows[i].user1_score
            &&& out[i].user2_score == rows[i].user2_score
            &&& out[i].output@ == Seq::<char>::empty()
        }
}

/// The challenges as a list shows them, without their output.
pub fn list_challenges(rows: &Vec<Challenge>) -> (res: Vec<Challenge>)
    ensures
        listed_challenges(rows@, res@),
{
    let mut out: Vec<Challenge> = Vec::new();
    let n = rows.len();
    let mut i: usize = 0;
    while i < n
        invariant
            n == rows@.len(),
            i <= n,
            listed_challenges(rows@.take(i as int), out@),
        decreases n - i,
    {
        let r = &rows[i];
        out.push(
            Challenge {
                id: r.id,
                rated: r.rated,
                tim: r.tim.clone(),
                stat: r.stat.clone(),
                user1: r.user1.clone(),
                user2: r.user2.clone(),
                user1_score: r.user1_score.clone(),
                user2_score: r.user2_score.clone(),
                output: String::new(),
            },
        );
        i = i + 1;
        assert(rows@.take(i as int).drop_last() =~= rows@.take(i - 1));
    }
    assert(rows@.take(n as int) =~= rows@);
    out
}

/// The name of the user who may see everything at any time.
pub open spec fn admin_name() -> Seq<char> {
    "admin"@
}

/// The user name that asks for everybody's records.
pub open spec fn everybody_name() -> Seq<char> {
    "all"@
}

/// Whose submissions `user` may see at clock `now`: while the contest runs,
/// anybody but the administrator sees only their own (`Some(user)`);
/// otherwise all (`None`).
pub open spec fn visible_owner(user: String, now: i64, contest_end: i64) -> Option<String> {
    if now < contest_end && user@ != admin_name() {
        Some(user)
    } else {
        None
    }
}

/// Whose submissions a list for `user`, asking for those of `who`, shows at
/// clock `now`: while the contest runs, anybody but the administrator gets
/// only their own; otherwise those of `who`, or everybody's for `"all"`.
pub open spec fn listed_owner(user: String, who: String, now: i64, contest_end: i64) -> Option<String> {
    if now < contest_end && user@ != admin_name() {
        Some(user)
    } else if who@ != everybody_name() {
        Some(who)
    } else {
        None
    }
}

/// Whether `user` is the administrator.
fn is_admin(user: &String) -> (res: bool)
    ensures
        res == (user@ == admin_name()),
{
    *user == text("admin")
}

/// Whether `who` asks for everybody.
fn is_everybody(who: &String) -> (res: bool)
    ensures
        res == (who@ == everybody_name()),
{
    *who == text("all")
}

/// Whose submissions `user` may see, as `visible_owner` says.
pub fn submission_owner(user: String, now: i64, contest_end: i64) -> (res: Option<String>)
    ensures
        res == visible_owner(user, now, contest_end),
{
    if now < contest_end && !is_admin(&user) {
        Some(user)
    } else {
        None
    }
}

/// Whose submissions a list shows, as `listed_owner` says.
pub fn list_owner(user: String, who: String, now: i64, contest_end: i64) -> (res: Option<String>)
    ensures
        res == listed_owner(user, who, now, contest_end),
{
    if now < contest_end && !is_admin(&user) {
        Some(user)
    } else if !is_everybody(&who) {
        Some(who)
    } else {
        None
    }
}

/// Where a request for one submission stands.
#[derive(Debug, Clone, PartialEq, Eq)]
pub enum SubmissionInfoStage {
    /// Checking the token.
    Authenticating { token: String, id: i32 },
    /// Reading the clock to decide what the user may see.
    Timing { user: String, id: i32 },
    /// Fetching the submission, of `owner` only where there is one.
    Fetching { id: i32, owner: Option<String> },
    /// Answered.
    Done,
}

/// A request for one submission, with the end of the contest.
#[derive(Debug, Clone, PartialEq, Eq)]
pub struct SubmissionInfoFlow {
    pub contest_end: i64,
    pub stage: SubmissionInfoStage,
}

/// The action that an unanswered request for a submission asks for.
pub open spec fn submission_info_request(f: SubmissionInfoFlow, a: Action) -> bool {
    match f.stage {
        SubmissionInfoStage::Authenticating { token, .. } => a == Action::DecodeToken(token),
        SubmissionInfoStage::Timing { .. } => a == Action::ReadClock,
        SubmissionInfoStage::Fetching { id, owner } => a == Action::Db(
            Query::SubmissionById { id, owner },
        ),
        SubmissionInfoStage::Done => false,
    }
}

/// How a request for a submission moves: a token that does not decode is
/// answered `Unauthorized`; the submission is looked up among those that
/// `visible_owner` lets the user see; the first row found is the answer, and
/// no row is answered `BadRequest`. An outcome of another kind than the one
/// asked for leaves the state, and its request, as they are.
pub open spec fn submission_info_next(
    f: SubmissionInfoFlow,
    e: Event,
    t: SubmissionInfoFlow,
    a: Action,
) -> bool {
    let stay = t == f && submission_info_request(t, a);
    let done = SubmissionInfoFlow { contest_end: f.contest_end, stage: SubmissionInfoStage::Done };
    match f.stage {
        SubmissionInfoStage::Authenticating { id, .. } => match e {
            Event::Claims(c) => match c {
                Some(cl) => t == (SubmissionInfoFlow {
                    contest_end: f.contest_end,
                    stage: SubmissionInfoStage::Timing { user: cl.id, id },
                }) && submission_info_request(t, a),
                None => t == done && a == Action::Reply(Reply::Unauthorized),
            },
            _ => stay,
        },
        SubmissionInfoStage::Timing { user, id } => match e {
            Event::Clock(now) => t == (SubmissionInfoFlow {
                contest_end: f.contest_end,
                stage: SubmissionInfoStage::Fetching {
                    id,
                    owner: visible_owner(user, now, f.contest_end),
                },
            }) && submission_info_request(t, a),
            _ => stay,
        },
        SubmissionInfoStage::Fetching { .. } => match e {
            Event::Submissions(rows) => t == done && if rows@.len() > 0 {
                a == Action::Reply(Reply::Success(Body::Submission(rows@[0])))
            } else {
                a == Action::Reply(Reply::BadRequest)
            },
            _ => stay,
        },
        SubmissionInfoStage::Done => false,
    }
}

/// Starts a request for one submission: the token is checked first.
pub fn submission_info(data: SubmissionInfoRequest, contest_end: i64) -> (res: (
    SubmissionInfoFlow,
    Action,
))
    ensures
        res.0 == (SubmissionInfoFlow {
            contest_end,
            stage: SubmissionInfoStage::Authenticating { token: data.token, id: data.id },
        }),
        submission_info_request(res.0, res.1),
{
    let f = SubmissionInfoFlow {
        contest_end,
        stage: SubmissionInfoStage::Authenticating { token: data.token, id: data.id },
    };
    let a = f.request();
    (f, a)
}

impl SubmissionInfoFlow {
    /// Whether the request has been answered.
    pub fn is_done(&self) -> (res: bool)
        ensures
            res == (self.stage is Done),
    {
        matches!(self.stage, SubmissionInfoStage::Done)
    }

    /// The action that this unanswered request asks for.
    pub fn request(&self) -> (a: Action)
        requires
            !(self.stage is Done),
        ensures
            submission_info_request(*self, a),
    {
        match &self.stage {
            SubmissionInfoStage::Authenticating { token, .. } => Action::DecodeToken(token.clone()),
            SubmissionInfoStage::Timing { .. } => Action::ReadClock,
            SubmissionInfoStage::Fetching { id, owner } => Action::Db(
                Query::SubmissionById { id: *id, owner: owner.clone() },
            ),
            SubmissionInfoStage::Done => Action::ReadClock,
        }
    }

    /// Moves the request on the outcome of its last action.
    pub fn step(self, e: Event) -> (res: (SubmissionInfoFlow, Action))
        requires
            !(self.stage is Done),
            event_ok(e),
        ensures
            submission_info_next(self, e, res.0, res.1),
    {
        let contest_end = self.contest_end;
        let done = SubmissionInfoFlow { contest_end, stage: SubmissionInfoStage::Done };
        match self.stage {
            SubmissionInfoStage::Authenticating { token, id } => match e {
                Event::Claims(c) => match verify_token(c) {
                    Ok(user) => {
                        let f = SubmissionInfoFlow {
                            contest_end,
                            stage: SubmissionInfoStage::Timing { user, id },
                        };
                        let a = f.request();
                        (f, a)
                    },
                    Err(_) => (done, Action::Reply(Reply::Unauthorized)),
                },
                _ => {
                    let f = SubmissionInfoFlow {
                        contest_end,
                        stage: SubmissionInfoStage::Authenticating { token, id },
                    };
                    let a = f.request();
                    (f, a)
                },
            },
            SubmissionInfoStage::Timing { user, id } => match e {
                Event::Clock(now) => {
                    let owner = submission_owner(user, now, contest_end);
                    let f = SubmissionInfoFlow {
                        contest_end,
                        stage: SubmissionInfoStage::Fetching { id, owner },
                    };
                    let a = f.request();
                    (f, a)
                },
                _ => {
                    let f = SubmissionInfoFlow {
                        contest_end,
                        stage: SubmissionInfoStage::Timing { user, id },
                    };
                    let a = f.request();
                    (f, a)
                },
            },
            SubmissionInfoStage::Fetching { id, owner } => match e {
                Event::Submissions(rows) => {
                    let mut rows = rows;
                    if rows.len() > 0 {
                        let first = rows.remove(0);
                        (done, Action::Reply(Reply::Success(Body::Submission(first))))
                    } else {
                        (done, Action::Reply(Reply::BadRequest))
                    }
                },
                _ => {
                    let f = SubmissionInfoFlow {
                        contest_end,
                        stage: SubmissionInfoStage::Fetching { id, owner },
                    };
                    let a = f.request();
                    (f, a)
                },
            },
            SubmissionInfoStage::Done => (done, Action::ReadClock),
        }
    }
}

/// Where a request for a list of submissions stands.
#[derive(Debug, Clone, PartialEq, Eq)]
pub enum SubmissionsListStage {
    /// Checking the token; `who` is whose submissions are asked for.
    Authenticating { token: String, who: String },
    /// Reading the clock to decide what the user may see.
    Timing { user: String, who: String },
    /// Fetching the submissions of `owner` (of everybody for `None`).
    Fetching { owner: Option<String> },
    /// Answered.
    Done,
}

/// A request for a list of submissions, with the end of the contest.
#[derive(Debug, Clone, PartialEq, Eq)]
pub struct SubmissionsListFlow {
    pub contest_end: i64,
    pub stage: SubmissionsListStage,
}

/// The action that an unanswered request for a list asks for.
pub open spec fn submissions_list_request(f: SubmissionsListFlow, a: Action) -> bool {
    match f.stage {
        SubmissionsListStage::Authenticating { token, .. } => a == Action::DecodeToken(token),
        SubmissionsListStage::Timing { .. } => a == Action::ReadClock,
        SubmissionsListStage::Fetching { owner } => a == Action::Db(
            Query::SubmissionsBy { user: owner },
        ),
        SubmissionsListStage::Done => false,
    }
}

/// How a request for a list of submissions moves: a token that does not
/// decode is answered `Unauthorized`; the submissions of `listed_owner` are
/// fetched and answered, each without its source. An outcome of another kind
/// than the one asked for leaves the state, and its request, as they are.
pub open spec fn submissions_list_next(
    f: SubmissionsListFlow,
    e: Event,
    t: SubmissionsListFlow,
    a: Action,
) -> bool {
    let stay = t == f && submissions_list_request(t, a);
    let done = SubmissionsListFlow { contest_end: f.contest_end, stage: SubmissionsListStage::Done };
    match f.stage {
        SubmissionsListStage::Authenticating { who, .. } => match e {
            Event::Claims(c) => match c {
                Some(cl) => t == (SubmissionsListFlow {
                    contest_end: f.contest_end,
                    stage: SubmissionsListStage::Timing { user: cl.id, who },
                }) && submissions_list_request(t, a),
                None => t == done && a == Action::Reply(Reply::Unauthorized),
            },
            _ => stay,
        },
        SubmissionsListStage::Timing { user, who } => match e {
            Event::Clock(now) => t == (SubmissionsListFlow {
                contest_end: f.contest_end,
                stage: SubmissionsListStage::Fetching {
                    owner: listed_owner(user, who, now, f.contest_end),
                },
            }) && submissions_list_request(t, a),
            _ => stay,
        },
        SubmissionsListStage::Fetching { .. } => match e {
            Event::Submissions(rows) => {
                &&& t == done
                &&& a matches Action::Reply(Reply::Success(Body::Submissions(out)))
                    && listed_submissions(rows@, out@)
            },
            _ => stay,
        },
        SubmissionsListStage::Done => false,
    }
}

/// Starts a request for a list of submissions: the token is checked first.
pub fn submissions_list(data: SubmissionsListRequest, contest_end: i64) -> (res: (
    SubmissionsListFlow,
    Action,
))
    ensures
        res.0 == (SubmissionsListFlow {
            contest_end,
            stage: SubmissionsListStage::Authenticating { token: data.token, who: data.user },
        }),
        submissions_list_request(res.0, res.1),
{
    let f = SubmissionsListFlow {
        contest_end,
        stage: SubmissionsListStage::Authenticating { token: data.token, who: data.user },
    };
    let a = f.request();
    (f, a)
}

impl SubmissionsListFlow {
    /// Whether the request has been answered.
    pub fn is_done(&self) -> (res: bool)
        ensures
            res == (self.stage is Done),
    {
        matches!(self.stage, SubmissionsListStage::Done)
    }

    /// The action that this unanswered request asks for.
    pub fn request(&self) -> (a: Action)
        requires
            !(self.stage is Done),
        ensures
            submissions_list_request(*self, a),
    {
        match &self.stage {
            SubmissionsListStage::Authenticating { token, .. } => Action::DecodeToken(token.clone()),
            SubmissionsListStage::Timing { .. } => Action::ReadClock,
            SubmissionsListStage::Fetching { owner } => Action::Db(
                Query::SubmissionsBy { user: owner.clone() },
            ),
            SubmissionsListStage::Done => Action::ReadClock,
        }
    }

    /// Moves the request on the outcome of its last action.
    pub fn step(self, e: Event) -> (res: (SubmissionsListFlow, Action))
        requires
            !(self.stage is Done),
            event_ok(e),
        ensures
            submissions_list_next(self, e, res.0, res.1),
    {
        let contest_end = self.contest_end;
        let done = SubmissionsListFlow { contest_end, stage: SubmissionsListStage::Done };
        match self.stage {
            SubmissionsListStage::Authenticating { token, who } => match e {
                Event::Claims(c) => match verify_token(c) {
                    Ok(user) => {
                        let f = SubmissionsListFlow {
                            contest_end,
                            stage: SubmissionsListStage::Timing { user, who },
                        };
                        let a = f.request();
                        (f, a)
                    },
                    Err(_) => (done, Action::Reply(Reply::Unauthorized)),
                },
                _ => {
                    let f = SubmissionsListFlow {
                        contest_end,
                        stage: SubmissionsListStage::Authenticating { token, who },
                    };
                    let a = f.request();
                    (f, a)
                },
            },
            SubmissionsListStage::Timing { user, who } => match e {
                Event::Clock(now) => {
                    let owner = list_owner(user, who, now, contest_end);
                    let f = SubmissionsListFlow {
                        contest_end,
                        stage: SubmissionsListStage::Fetching { owner },
                    };
                    let a = f.request();
                    (f, a)
                },
                _ => {
                    let f = SubmissionsListFlow {
                        contest_end,
                        stage: SubmissionsListStage::Timing { user, who },
                    };
                    let a = f.request();
                    (f, a)
                },
            },
            SubmissionsListStage::Fetching { owner } => match e {
                Event::Submissions(rows) => {
                    let out = list_submissions(&rows);
                    (done, Action::Reply(Reply::Success(Body::Submissions(out))))
                },
                _ => {
                    let f = SubmissionsListFlow {
                        contest_end,
                        stage: SubmissionsListStage::Fetching { owner },
                    };
                    let a = f.request();
                    (f, a)
                },
            },
            SubmissionsListStage::Done => (done, Action::ReadClock),
        }
    }
}

/// Where a request that reads without a token stands: the lookup it makes.
#[derive(Debug, Clone, PartialEq, Eq)]
pub enum LookupFlow {
    /// One challenge, by id.
    ChallengeById { id: i32 },
    /// The challenges of `user` (of everybody for `None`).
    ChallengesOf { user: Option<String> },
    /// Users by rating.
    Users,
    /// The rating history of the top users.
    TopRatingHistory,
    /// Users who have submitted, by rating.
    SubmittedUsers,
    /// Answered.
    Done,
}

/// The database request that a lookup makes.
pub open spec fn lookup_request(f: LookupFlow, a: Action) -> bool {
    match f {
        LookupFlow::ChallengeById { id } => a == Action::Db(Query::ChallengeById { id }),
        LookupFlow::ChallengesOf { user } => a == Action::Db(Query::ChallengesOf { user }),
        LookupFlow::Users => a == Action::Db(Query::UsersByRating),
        LookupFlow::TopRatingHistory => a == Action::Db(Query::TopRatingHistory),
        LookupFlow::SubmittedUsers => a == Action::Db(Query::SubmittedUsers),
        LookupFlow::Done => false,
    }
}

/// How a lookup is answered: one challenge by the first row (`BadRequest` for
/// none), lists of challenges without their output, users and history as
/// fetched. An outcome of another kind than the one asked for leaves the
/// lookup, and its request, as they are.
pub open spec fn lookup_next(f: LookupFlow, e: Event, t: LookupFlow, a: Action) -> bool {
    let stay = t == f && lookup_request(t, a);
    match f {
        LookupFlow::ChallengeById { .. } => match e {
            Event::Challenges(rows) => t == LookupFlow::Done && if rows@.len() > 0 {
                a == Action::Reply(Reply::Success(Body::Challenge(rows@[0])))
            } else {
                a == Action::Reply(Reply::BadRequest)
            },
            _ => stay,
        },
        LookupFlow::ChallengesOf { .. } => match e {
            Event::Challenges(rows) => {
                &&& t == LookupFlow::Done
                &&& a matches Action::Reply(Reply::Success(Body::Challenges(out)))
                    && listed_challenges(rows@, out@)
            },
            _ => stay,
        },
        LookupFlow::Users => match e {
            Event::Users(rows) => t == LookupFlow::Done && a == Action::Reply(
                Reply::Success(Body::Users(rows)),
            ),
            _ => stay,
        },
        LookupFlow::TopRatingHistory => match e {
            Event::History(rows) => t == LookupFlow::Done && a == Action::Reply(
                Reply::Success(Body::History(rows)),
            ),
            _ => stay,
        },
        LookupFlow::SubmittedUsers => match e {
            Event::Users(rows) => t == LookupFlow::Done && a == Action::Reply(
                Reply::Success(Body::Users(rows)),
            ),
            _ => stay,
        },
        LookupFlow::Done => false,
    }
}

/// Starts the lookup of one challenge, whose id is given as decimal text.
pub fn challenge_info(id: &str) -> (res: (LookupFlow, Action))
    requires
        parsed_within(id@, i32::MIN as int, i32::MAX as int) is Some,
    ensures
        res.0 == (LookupFlow::ChallengeById {
            id: parsed_within(id@, i32::MIN as int, i32::MAX as int)->Some_0 as i32,
        }),
        lookup_request(res.0, res.1),
{
    let n = match parse_i32(id) {
        Some(n) => n,
        None => 0,
    };
    let f = LookupFlow::ChallengeById { id: n };
    let a = f.request();
    (f, a)
}

/// Starts the lookup of the challenges of `user` (of everybody for `"all"`).
pub fn challenges_list(user: String) -> (res: (LookupFlow, Action))
    ensures
        res.0 == (LookupFlow::ChallengesOf {
            user: if user@ == everybody_name() { None } else { Some(user) },
        }),
        lookup_request(res.0, res.1),
{
    let f = if is_everybody(&user) {
        LookupFlow::ChallengesOf { user: None }
    } else {
        LookupFlow::ChallengesOf { user: Some(user) }
    };
    let a = f.request();
    (f, a)
}

/// Starts the lookup of the users by rating.
pub fn users() -> (res: (LookupFlow, Action))
    ensures
        res.0 == LookupFlow::Users,
        lookup_request(res.0, res.1),
{
    (LookupFlow::Users, Action::Db(Query::UsersByRating))
}

/// Starts the lookup of the rating history of the top users.
pub fn top_rating_history() -> (res: (LookupFlow, Action))
    ensures
        res.0 == LookupFlow::TopRatingHistory,
        lookup_request(res.0, res.1),
{
    (LookupFlow::TopRatingHistory, Action::Db(Query::TopRatingHistory))
}

/// Starts the lookup of the users who have submitted.
pub fn submitted_users() -> (res: (LookupFlow, Action))
    ensures
        res.0 == LookupFlow::SubmittedUsers,
        lookup_request(res.0, res.1),
{
    (LookupFlow::SubmittedUsers, Action::Db(Query::SubmittedUsers))
}

impl LookupFlow {
    /// Whether the lookup has been answered.
    pub fn is_done(&self) -> (res: bool)
        ensures
            res == (*self is Done),
    {
        matches!(self, LookupFlow::Done)
    }

    /// The request that this unanswered lookup makes.
    pub fn request(&self) -> (a: Action)
        requires
            !(*self is Done),
        ensures
            lookup_request(*self, a),
    {
        match self {
            LookupFlow::ChallengeById { id } => Action::Db(Query::ChallengeById { id: *id }),
            LookupFlow::ChallengesOf { user } => Action::Db(
                Query::ChallengesOf { user: user.clone() },
            ),
            LookupFlow::Users => Action::Db(Query::UsersByRating),
            LookupFlow::TopRatingHistory => Action::Db(Query::TopRatingHistory),
            LookupFlow::SubmittedUsers => Action::Db(Query::SubmittedUsers),
            LookupFlow::Done => Action::ReadClock,
        }
    }

    /// Answers the lookup from the rows fetched.
    pub fn step(self, e: Event) -> (res: (LookupFlow, Action))
        requires
            !(self is Done),
        ensures
            lookup_next(self, e, res.0, res.1),
    {
        match (self, e) {
            (LookupFlow::ChallengeById { .. }, Event::Challenges(rows)) => {
                let mut rows = rows;
                if rows.len() > 0 {
                    let first = rows.remove(0);
                    (LookupFlow::Done, Action::Reply(Reply::Success(Body::Challenge(first))))
                } else {
                    (LookupFlow::Done, Action::Reply(Reply::BadRequest))
                }
            },
            (LookupFlow::ChallengesOf { .. }, Event::Challenges(rows)) => {
                let out = list_challenges(&rows);
                (LookupFlow::Done, Action::Reply(Reply::Success(Body::Challenges(out))))
            },
            (LookupFlow::Users, Event::Users(rows)) => (
                LookupFlow::Done,
                Action::Reply(Reply::Success(Body::Users(rows))),
            ),
            (LookupFlow::TopRatingHistory, Event::History(rows)) => (
                LookupFlow::Done,
                Action::Reply(Reply::Success(Body::History(rows))),
            ),
            (LookupFlow::SubmittedUsers, Event::Users(rows)) => (
                LookupFlow::Done,
                Action::Reply(Reply::Success(Body::Users(rows))),
            ),
            (f, _) => {
                let a = f.request();
                (f, a)
            },
        }
    }
}

/// While the contest runs, whoever is not the administrator sees only their
/// own submissions, one by one or listed, whatever list they ask for; once it
/// is over, everybody sees every submission, and a list shows whose it is
/// asked for (everybody's for `"all"`).
pub proof fn lemma_contest_privacy(user: String, who: String, now: i64, contest_end: i64)
    ensures
        now < contest_end && user@ != admin_name() ==> visible_owner(user, now, contest_end) == Some(
            user,
        ) && listed_owner(user, who, now, contest_end) == Some(user),
        now >= contest_end ==> visible_owner(user, now, contest_end) == None::<String>
            && listed_owner(user, who, now, contest_end) == (if who@ == everybody_name() {
            None
        } else {
            Some(who)
        }),
        user@ == admin_name() ==> visible_owner(user, now, contest_end) == None::<String>,
{
}

/// A run of the submission-list flow: `states[i]` moves on the acceptable
/// outcome `events[i]` to `states[i + 1]` and asks for `actions[i]`.
pub open spec fn submissions_list_run(
    states: Seq<SubmissionsListFlow>,
    events: Seq<Event>,
    actions: Seq<Action>,
) -> bool {
    &&& states.len() == events.len() + 1
    &&& actions.len() == events.len()
    &&& forall|i: int| 0 <= i < events.len() ==> event_ok(#[trigger] events[i])
    &&& forall|i: int|
        0 <= i < events.len() ==> #[trigger] submissions_list_next(
            states[i],
            events[i],
            states[i + 1],
            actions[i],
        )
}

/// Before position `i`, a token of `user` was decoded.
pub open spec fn reader_before(events: Seq<Event>, user: String, i: int) -> bool {
    exists|j: int| 0 <= j < i && (#[trigger] events[j] matches Event::Claims(Some(c)) && c.id == user)
}

/// Before position `i`, the clock read `now` for `user`, who asked for the
/// submissions of `who`, and `owner` is what `listed_owner` allows then.
pub open spec fn listing_allowed_before(
    states: Seq<SubmissionsListFlow>,
    events: Seq<Event>,
    who: String,
    owner: Option<String>,
    i: int,
) -> bool {
    exists|j: int|
        0 <= j < i && (#[trigger] states[j].stage matches SubmissionsListStage::Timing {
            user,
            who: w,
        } && w == who && reader_before(events, user, j) && (events[j] matches Event::Clock(now)
            && owner == listed_owner(user, w, now, states[0].contest_end)))
}

/// What a run has established by the time it reaches `states[i]`.
pub open spec fn submissions_list_history(
    states: Seq<SubmissionsListFlow>,
    events: Seq<Event>,
    who: String,
    i: int,
) -> bool {
    &&& states[i].contest_end == states[0].contest_end
    &&& match states[i].stage {
        SubmissionsListStage::Authenticating { who: w, .. } => w == who,
        SubmissionsListStage::Timing { user, who: w } => w == who && reader_before(events, user, i),
        SubmissionsListStage::Fetching { owner } => listing_allowed_before(
            states,
            events,
            who,
            owner,
            i,
        ),
        SubmissionsListStage::Done => true,
    }
}

proof fn lemma_submissions_list_history(
    states: Seq<SubmissionsListFlow>,
    events: Seq<Event>,
    actions: Seq<Action>,
    who: String,
    i: int,
)
    requires
        submissions_list_run(states, events, actions),
        states[0].stage matches SubmissionsListStage::Authenticating { who: w, .. } && w == who,
        0 <= i < states.len(),
    ensures
        submissions_list_history(states, events, who, i),
    decreases i,
{
    if i > 0 {
        lemma_submissions_list_history(states, events, actions, who, i - 1);
        let p = i - 1;
        assert(submissions_list_next(states[p], events[p], states[p + 1], actions[p]));
        match states[p].stage {
            SubmissionsListStage::Authenticating { .. } => {
                match events[p] {
                    Event::Claims(Some(c)) => {
                        assert(events[p] matches Event::Claims(Some(c2)) && c2.id == c.id);
                    },
                    _ => {},
                }
            },
            SubmissionsListStage::Timing { user, who: w } => {
                assert(states[p].stage matches SubmissionsListStage::Timing { user: u, who: w2 }
                    && u == user && w2 == w);
            },
            _ => {},
        }
    }
}

/// A list of submissions is fetched only for the owner that `listed_owner`
/// allows to the user whose token was decoded, at a clock reading taken after
/// the token was checked: while the contest runs, a user other than the
/// administrator lists only their own submissions.
pub proof fn lemma_listing_respects_privacy(
    states: Seq<SubmissionsListFlow>,
    events: Seq<Event>,
    actions: Seq<Action>,
    who: String,
    k: int,
)
    requires
        submissions_list_run(states, events, actions),
        states[0].stage matches SubmissionsListStage::Authenticating { who: w, .. } && w == who,
        0 <= k < actions.len(),
        actions[k] matches Action::Db(Query::SubmissionsBy { .. }),
    ensures
        listing_allowed_before(states, events, who, actions[k]->Db_0->SubmissionsBy_user, k + 1),
{
    assert(submissions_list_next(states[k], events[k], states[k + 1], actions[k]));
    lemma_submissions_list_history(states, events, actions, who, k + 1);
    assert(states[k + 1].stage is Fetching);
}

/// A run of the one-submission flow: `states[i]` moves on the acceptable
/// outcome `events[i]` to `states[i + 1]` and asks for `actions[i]`.
pub open spec fn submission_info_run(
    states: Seq<SubmissionInfoFlow>,
    events: Seq<Event>,
    actions: Seq<Action>,
) -> bool {
    &&& states.len() == events.len() + 1
    &&& actions.len() == events.len()
    &&& forall|i: int| 0 <= i < events.len() ==> event_ok(#[trigger] events[i])
    &&& forall|i: int|
        0 <= i < events.len() ==> #[trigger] submission_info_next(
            states[i],
            events[i],
            states[i + 1],
            actions[i],
        )
}

/// Before position `i`, the clock read `now` for `user`, and `owner` is what
/// `visible_owner` allows then.
pub open spec fn lookup_allowed_before(
    states: Seq<SubmissionInfoFlow>,
    events: Seq<Event>,
    owner: Option<String>,
    i: int,
) -> bool {
    exists|j: int|
        0 <= j < i && (#[trigger] states[j].stage matches SubmissionInfoStage::Timing { user, .. }
            && reader_before(events, user, j) && (events[j] matches Event::Clock(now) && owner
            == visible_owner(user, now, states[0].contest_end)))
}

/// What a run has established by the time it reaches `states[i]`.
pub open spec fn submission_info_history(
    states: Seq<SubmissionInfoFlow>,
    events: Seq<Event>,
    id: i32,
    i: int,
) -> bool {
    &&& states[i].contest_end == states[0].contest_end
    &&& match states[i].stage {
        SubmissionInfoStage::Authenticating { id: x, .. } => x == id,
        SubmissionInfoStage::Timing { user, id: x } => x == id && reader_before(events, user, i),
        SubmissionInfoStage::Fetching { id: x, owner } => x == id && lookup_allowed_before(
            states,
            events,
            owner,
            i,
        ),
        SubmissionInfoStage::Done => true,
    }
}

proof fn lemma_submission_info_history(
    states: Seq<SubmissionInfoFlow>,
    events: Seq<Event>,
    actions: Seq<Action>,
    id: i32,
    i: int,
)
    requires
        submission_info_run(states, events, actions),
        states[0].stage matches SubmissionInfoStage::Authenticating { id: x, .. } && x == id,
        0 <= i < states.len(),
    ensures
        submission_info_history(states, events, id, i),
    decreases i,
{
    if i > 0 {
        lemma_submission_info_history(states, events, actions, id, i - 1);
        let p = i - 1;
        assert(submission_info_next(states[p], events[p], states[p + 1], actions[p]));
        match states[p].stage {
            SubmissionInfoStage::Authenticating { .. } => {
                match events[p] {
                    Event::Claims(Some(c)) => {
                        assert(events[p] matches Event::Claims(Some(c2)) && c2.id == c.id);
                    },
                    _ => {},
                }
            },
            SubmissionInfoStage::Timing { user, .. } => {
                assert(states[p].stage matches SubmissionInfoStage::Timing { user: u, .. } && u
                    == user);
            },
            _ => {},
        }
    }
}

/// A submission is looked up only by the requested id and for the owner that
/// `visible_owner` allows to the user whose token was decoded, at a clock
/// reading taken after the token was checked: while the contest runs, a user
/// other than the administrator can fetch only their own submissions.
pub proof fn lemma_lookup_respects_privacy(
    states: Seq<SubmissionInfoFlow>,
    events: Seq<Event>,
    actions: Seq<Action>,
    id: i32,
    k: int,
)
    requires
        submission_info_run(states, events, actions),
        states[0].stage matches SubmissionInfoStage::Authenticating { id: x, .. } && x == id,
        0 <= k < actions.len(),
        actions[k] matches Action::Db(Query::SubmissionById { .. }),
    ensures
        actions[k]->Db_0->SubmissionById_id == id,
        lookup_allowed_before(states, events, actions[k]->Db_0->owner, k + 1),
{
    assert(submission_info_next(states[k], events[k], states[k + 1], actions[k]));
    lemma_submission_info_history(states, events, actions, id, k + 1);
    assert(states[k + 1].stage is Fetching);
}

/// A listed challenge list has one entry per fetched row, in the fetched
/// order (newest first as fetched), each entry carrying every field of the
/// row at its own position except the output, which is empty.
pub proof fn lemma_challenge_list_keeps_each_row(rows: Seq<Challenge>, out: Seq<Challenge>)
    requires
        listed_challenges(rows, out),
    ensures
        out.len() == rows.len(),
        forall|i: int|
            0 <= i < rows.len() ==> {
                &&& (#[trigger] out[i]).id == rows[i].id
                &&& out[i].rated == rows[i].rated
                &&& out[i].tim@ == rows[i].tim@
                &&& out[i].stat@ == rows[i].stat@
                &&& out[i].user1@ == rows[i].user1@
                &&& out[i].user2@ == rows[i].user2@
                &&& out[i].user1_score@ == rows[i].user1_score@
                &&& out[i].user2_score@ == rows[i].user2_score@
                &&& out[i].output@.len() == 0
            },
{
    assert forall|i: int| 0 <= i < rows.len() implies {
        &&& (#[trigger] out[i]).id == rows[i].id
        &&& out[i].rated == rows[i].rated
        &&& out[i].tim@ == rows[i].tim@
        &&& out[i].stat@ == rows[i].stat@
        &&& out[i].user1@ == rows[i].user1@
        &&& out[i].user2@ == rows[i].user2@
        &&& out[i].user1_score@ == rows[i].user1_score@
        &&& out[i].user2_score@ == rows[i].user2_score@
        &&& out[i].output@.len() == 0
    } by {
        assert(out[i].stat == rows[i].stat);
        assert(out[i].tim == rows[i].tim);
    }
}

/// A listed submission list has one entry per fetched row, in the fetched
/// order, each entry carrying the id, time and author of the row at its own
/// position and an empty source.
pub proof fn lemma_submission_list_keeps_each_row(rows: Seq<Submission>, out: Seq<Submission>)
    requires
        listed_submissions(rows, out),
    ensures
        out.len() == rows.len(),
        forall|i: int|
            0 <= i < rows.len() ==> {
                &&& (#[trigger] out[i]).id == rows[i].id
                &&& out[i].tim@ == rows[i].tim@
                &&& out[i].user@ == rows[i].user@
                &&& out[i].source@.len() == 0
            },
{
    assert forall|i: int| 0 <= i < rows.len() implies {
        &&& (#[trigger] out[i]).id == rows[i].id
        &&& out[i].tim@ == rows[i].tim@
        &&& out[i].user@ == rows[i].user@
        &&& out[i].source@.len() == 0
    } by {
        assert(out[i].tim == rows[i].tim);
        assert(out[i].user == rows[i].user);
    }
}

/// The users lookup answers exactly the fetched rows, in the fetched order
/// (highest rating first as the database sorts them): nothing dropped, added
/// or reordered.
pub proof fn lemma_users_answer_is_fetched_rows(t: LookupFlow, a: Action, rows: Vec<UserRating>)
    requires
        lookup_next(LookupFlow::Users, Event::Users(rows), t, a),
    ensures
        t is Done,
        a matches Action::Reply(Reply::Success(Body::Users(out))) && out@ == rows@,
{
}

/// The submitted-users lookup answers exactly the fetched rows, in the fetched
/// order.
pub proof fn lemma_submitted_users_answer_is_fetched_rows(t: LookupFlow, a: Action, rows: Vec<UserRating>)
    requires
        lookup_next(LookupFlow::SubmittedUsers, Event::Users(rows), t, a),
    ensures
        t is Done,
        a matches Action::Reply(Reply::Success(Body::Users(out))) && out@ == rows@,
{
}

/// The rating-history lookup answers every fetched point, in the fetched
/// order: as many points as rows, each the row at its position.
pub proof fn lemma_history_answer_is_fetched_rows(t: LookupFlow, a: Action, rows: Vec<RatingPoint>)
    requires
        lookup_next(LookupFlow::TopRatingHistory, Event::History(rows), t, a),
    ensures
        t is Done,
        a matches Action::Reply(Reply::Success(Body::History(out))) && out@.len() == rows@.len()
            && forall|i: int| 0 <= i < rows@.len() ==> #[trigger] out@[i] == rows@[i],
{
}

/// A challenge list answer has one entry per fetched row, each with the
/// fields of the row at its own position and no output.
pub proof fn lemma_challenges_list_answer_keeps_rows(
    user: Option<String>,
    t: LookupFlow,
    a: Action,
    rows: Vec<Challenge>,
)
    requires
        lookup_next(LookupFlow::ChallengesOf { user }, Event::Challenges(rows), t, a),
    ensures
        t is Done,
        a matches Action::Reply(Reply::Success(Body::Challenges(out))) && out@.len() == rows@.len()
            && forall|i: int|
            0 <= i < rows@.len() ==> (#[trigger] out@[i]).id == rows@[i].id && out@[i].rated
                == rows@[i].rated && out@[i].tim@ == rows@[i].tim@ && out@[i].stat@
                == rows@[i].stat@ && out@[i].user1@ == rows@[i].user1@ && out@[i].user2@
                == rows@[i].user2@ && out@[i].user1_score@ == rows@[i].user1_score@
                && out@[i].user2_score@ == rows@[i].user2_score@ && out@[i].output@.len() == 0,
{
    let out = a->Reply_0->Success_0->Challenges_0;
    lemma_challenge_list_keeps_each_row(rows@, out@);
}

/// One challenge is answered by the first fetched row, unchanged (output
/// included); no row is answered `BadRequest`.
pub proof fn lemma_challenge_info_answer_is_first_row(
    id: i32,
    t: LookupFlow,
    a: Action,
    rows: Vec<Challenge>,
)
    requires
        lookup_next(LookupFlow::ChallengeById { id }, Event::Challenges(rows), t, a),
    ensures
        t is Done,
        rows@.len() > 0 ==> a == Action::Reply(Reply::Success(Body::Challenge(rows@[0]))),
        rows@.len() == 0 ==> a == Action::Reply(Reply::BadRequest),
{
}

/// A list of submissions is answered with one entry per fetched row, each
/// with the id, time and author of the row at its own position and no
/// source.
pub proof fn lemma_submissions_list_answer_keeps_rows(
    f: SubmissionsListFlow,
    t: SubmissionsListFlow,
    a: Action,
    rows: Vec<Submission>,
)
    requires
        f.stage is Fetching,
        submissions_list_next(f, Event::Submissions(rows), t, a),
    ensures
        t.stage is Done,
        a matches Action::Reply(Reply::Success(Body::Submissions(out))) && out@.len()
            == rows@.len() && forall|i: int|
            0 <= i < rows@.len() ==> (#[trigger] out@[i]).id == rows@[i].id && out@[i].tim@
                == rows@[i].tim@ && out@[i].user@ == rows@[i].user@ && out@[i].source@.len() == 0,
{
    let out = a->Reply_0->Success_0->Submissions_0;
    lemma_submission_list_keeps_each_row(rows@, out@);
}

/// One submission is answered by the first fetched row, unchanged (source
/// included); no row is answered `BadRequest`.
pub proof fn lemma_submission_info_answer_is_first_row(
    f: SubmissionInfoFlow,
    t: SubmissionInfoFlow,
    a: Action,
    rows: Vec<Submission>,
)
    requires
        f.stage is Fetching,
        submission_info_next(f, Event::Submissions(rows), t, a),
    ensures
        t.stage is Done,
        rows@.len() > 0 ==> a == Action::Reply(Reply::Success(Body::Submission(rows@[0]))),
        rows@.len() == 0 ==> a == Action::Reply(Reply::BadRequest),
{
}

} // verus!
