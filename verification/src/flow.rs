//! The vocabulary that the request flows share with the program that runs
//! them: what a flow asks for (`Action`), what comes back (`Event`) and how a
//! request is answered (`Reply`).
//!
//! Every request handler of the server is a flow: a value that holds where the
//! handling stands. Its `step` takes the outcome of the last action and gives
//! the next state and the next action. The program that drives a flow performs
//! each action (database, clock, token signing, processes, files) and hands the
//! outcome back, until the action is a `Reply`.

use vstd::prelude::*;
use crate::auth::Claims;
use crate::info::{Challenge, RatingPoint, Submission, UserRating};
use crate::misc::MAX_CLOCK;

verus! {

/// A database request. Each names one statement; the comment gives what the
/// program reports back.
#[allow(inconsistent_fields)]
#[derive(Debug, Clone, PartialEq, Eq)]
pub enum Query {
    /// Users with this id and password hash; `Event::Count` of the rows.
    CountCredentialMatches { id: String, pw_hash: String },
    /// Submissions of `user` stamped after `since`; `Event::Count` of the rows.
    CountRecentSubmissions { user: String, since: i64 },
    /// Challenges of `user` (as challenger) not finished; `Event::Count`.
    CountOpenChallenges { user: String },
    /// How many of `user` and `target` have a submission (0, 1 or 2); `Event::Count`.
    CountSubmitters { user: String, target: String },
    /// Users with id `target`, other than `user`, rated at least as high as
    /// `user`; `Event::Count` of the rows.
    CountRatedTargets { user: String, target: String },
    /// All submissions; `Event::Count`.
    CountSubmissions,
    /// All challenges; `Event::Count`.
    CountChallenges,
    /// Starts a transaction; `Event::Finished`.
    Begin,
    /// Commits the transaction; `Event::Finished`.
    Commit,
    /// Records a submission; `Event::Finished`.
    InsertSubmission { id: i64, tim: String, tim_num: i64, user: String, source: String },
    /// Records a challenge, waiting for judgement; `Event::Finished`.
    InsertChallenge {
        id: i32,
        rated: i32,
        tim: String,
        tim_num: i32,
        server_id: i32,
        user1: String,
        user2: String,
    },
    /// The submission with this id, of `owner` only where there is one;
    /// `Event::Submissions`.
    SubmissionById { id: i32, owner: Option<String> },
    /// Submissions of `user` (of everybody for `None`), newest first;
    /// `Event::Submissions`.
    SubmissionsBy { user: Option<String> },
    /// The challenge with this id; `Event::Challenges`.
    ChallengeById { id: i32 },
    /// Challenges in which `user` takes part (all for `None`), newest first;
    /// `Event::Challenges`.
    ChallengesOf { user: Option<String> },
    /// Users by rating, highest first; `Event::Users`.
    UsersByRating,
    /// Rating history of the users rated at least as high as the tenth;
    /// `Event::History`.
    TopRatingHistory,
    /// Users with at least one submission, by rating; `Event::Users`.
    SubmittedUsers,
}

/// A program to run with its arguments.
#[derive(Debug, Clone, PartialEq, Eq)]
pub struct Command {
    pub program: String,
    pub args: Vec<String>,
}

/// What a flow asks the program to do next.
#[derive(Debug, Clone, PartialEq, Eq)]
pub enum Action {
    /// Check the signature and expiry of a token; `Event::Claims`.
    DecodeToken(String),
    /// Read the clock (seconds since the Unix epoch); `Event::Clock`.
    ReadClock,
    /// Run a database request.
    Db(Query),
    /// Run a command and wait for it; `Event::Finished`.
    Run(Command),
    /// Run a compiler and report whether it succeeded; `Event::Status`.
    Compile(Command),
    /// Create (or truncate) a file and write the text into it; `Event::Finished`.
    WriteFile { path: String, contents: String },
    /// Remove a file; `Event::Finished`.
    RemoveFile(String),
    /// Sign the claims into a token; `Event::Token`.
    SignToken(Claims),
    /// Answer the request; the flow is over.
    Reply(Reply),
}

/// The outcome of an action.
#[derive(Debug, Clone, PartialEq, Eq)]
pub enum Event {
    Claims(Option<Claims>),
    Clock(i64),
    Count(i64),
    Finished,
    Status(bool),
    Token(String),
    Submissions(Vec<Submission>),
    Challenges(Vec<Challenge>),
    Users(Vec<UserRating>),
    History(Vec<RatingPoint>),
}

/// The body of a successful answer.
#[derive(Debug, Clone, PartialEq, Eq)]
pub enum Body {
    Empty,
    Token(String),
    Submission(Submission),
    Submissions(Vec<Submission>),
    Challenge(Challenge),
    Challenges(Vec<Challenge>),
    Users(Vec<UserRating>),
    History(Vec<RatingPoint>),
}

/// The answer to a request.
#[derive(Debug, Clone, PartialEq, Eq)]
pub enum Reply {
    Success(Body),
    BadRequest,
    Unauthorized,
}

/// The outcomes that the flows accept: a clock reading from 1970 through the
/// year 9999, and a row count below `i64::MAX`.
pub open spec fn event_ok(e: Event) -> bool {
    match e {
        Event::Clock(t) => 0 <= t <= MAX_CLOCK,
        Event::Count(n) => 0 <= n < i64::MAX,
        _ => true,
    }
}

impl Event {
    /// Whether the flows accept this outcome (`event_ok`).
    pub fn is_acceptable(&self) -> (res: bool)
        ensures
            res == event_ok(*self),
    {
        match self {
            Event::Clock(t) => 0 <= *t && *t <= MAX_CLOCK,
            Event::Count(n) => 0 <= *n && *n < i64::MAX,
            _ => true,
        }
    }
}

/// The characters of each text in a list.
pub open spec fn texts(v: Seq<String>) -> Seq<Seq<char>> {
    v.map_values(|s: String| s@)
}

/// A command with this program and these arguments.
pub open spec fn command_is(c: Command, program: Seq<char>, args: Seq<Seq<char>>) -> bool {
    c.program@ == program && texts(c.args@) == args
}

/// A `String` with the characters of a literal.
pub fn text(s: &str) -> (res: String)
    ensures
        res@ == s@,
{
    String::from_str(s)
}

/// The concatenation of two texts.
pub fn joined(a: &str, b: &str) -> (res: String)
    ensures
        res@ == a@ + b@,
{
    let mut r = String::from_str(a);
    r.append(b);
    r
}

} // verus!
