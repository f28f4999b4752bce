//! Submitting a player program: the token is checked, submissions are limited
//! to one in 30 seconds, the source is compiled against the judge as each of
//! the two players, and only a source that compiles both ways is recorded.

use vstd::prelude::*;
use crate::auth::{Claims, verify_token};
use crate::flow::{
    Action, Body, Command, Event, Query, Reply, command_is, event_ok, joined, text, texts,
};
use crate::misc::{current_time_string, gen_rnd_str, is_alphanumeric, time_text};

verus! {

/// A submission request: a token and the player's C++ source.
#[derive(Debug, Clone, PartialEq, Eq)]
pub struct SubmissionRequest {
    pub token: String,
    pub source: String,
}

/// Seconds during which a user may not submit again.
pub const SUBMIT_INTERVAL_SECS: i64 = 30;

/// The length of the random names of build directories.
pub const BUILD_NAME_LEN: usize = 8;

/// The number of steps of a build: setting up, compiling as each player,
/// cleaning up.
pub const BUILD_STEPS: usize = 12;

/// The directory in which a build named `name` happens.
pub open spec fn build_dir(name: Seq<char>) -> Seq<char> {
    "./ac-library/atcoder/"@ + name
}

/// The binary that a build named `name` produces.
pub open spec fn build_binary(name: Seq<char>) -> Seq<char> {
    "./tmp/"@ + name
}

/// The compiler's arguments in a build named `name`.
pub open spec fn compile_args(name: Seq<char>) -> Seq<Seq<char>> {
    seq!["-o"@, build_binary(name), build_dir(name) + "/judge.cpp"@, "-I"@, "./ac-library/"@]
}

/// The build steps in which the compiler runs: as player 1, then as player 2.
pub open spec fn is_compile_step(step: int) -> bool {
    step == 6 || step == 10
}

/// Step `step` of the build named `name` of `source`: set up the directory
/// with the game, the judge and the reference player 2; write the source as
/// player 1 and compile; put the reference player 1 back, write the source as
/// player 2 and compile; remove the directory.
pub open spec fn build_request(name: Seq<char>, source: Seq<char>, step: int, a: Action) -> bool {
    let dir = build_dir(name);
    if step == 0 {
        a matches Action::Run(c) && command_is(c, "mkdir"@, seq![dir])
    } else if step == 1 {
        a matches Action::Run(c) && command_is(c, "cp"@, seq!["./game.hpp"@, dir + "/game.hpp"@])
    } else if step == 2 {
        a matches Action::Run(c) && command_is(
            c,
            "cp"@,
            seq!["./judge.cpp"@, dir + "/judge.cpp"@],
        )
    } else if step == 3 {
        a matches Action::Run(c) && command_is(
            c,
            "cp"@,
            seq!["./player2.cpp"@, dir + "/player2.cpp"@],
        )
    } else if step == 4 {
        a matches Action::WriteFile { path, contents } && path@ == dir + "/player1.cpp"@
            && contents@ == source
    } else if step == 5 {
        a matches Action::Run(c) && command_is(
            c,
            "sed"@,
            seq!["-i"@, "s/PlayerXXX/Player1/"@, dir + "/player1.cpp"@],
        )
    } else if step == 6 {
        a matches Action::Compile(c) && command_is(c, "g++"@, compile_args(name))
    } else if step == 7 {
        a matches Action::Run(c) && command_is(
            c,
            "cp"@,
            seq!["./player1.cpp"@, dir + "/player1.cpp"@],
        )
    } else if step == 8 {
        a matches Action::WriteFile { path, contents } && path@ == dir + "/player2.cpp"@
            && contents@ == source
    } else if step == 9 {
        a matches Action::Run(c) && command_is(
            c,
            "sed"@,
            seq!["-i"@, "s/PlayerXXX/Player2/"@, dir + "/player2.cpp"@],
        )
    } else if step == 10 {
        a matches Action::Compile(c) && command_is(c, "g++"@, compile_args(name))
    } else if step == 11 {
        a matches Action::Run(c) && command_is(c, "rm"@, seq!["-r"@, dir])
    } else {
        false
    }
}

/// A fresh build name: `BUILD_NAME_LEN` distinct letters and digits.
pub open spec fn fresh_build_name(name: Seq<char>) -> bool {
    &&& name.len() == BUILD_NAME_LEN
    &&& forall|i: int| 0 <= i < name.len() ==> is_alphanumeric(#[trigger] name[i])
    &&& name.no_duplicates()
}

/// Where a submission stands.
#[derive(Debug, Clone, PartialEq, Eq)]
pub enum SubmitFlow {
    /// Checking the token.
    Authenticating { token: String, source: String },
    /// Reading the clock for the rate limit.
    Throttling { user: String, source: String },
    /// Counting the user's submissions since `since`.
    CheckingRecent { user: String, source: String, since: i64 },
    /// Building in directory `name`, at step `step`; whether the compiles as
    /// player 1 and as player 2 succeeded.
    Building {
        user: String,
        source: String,
        name: String,
        step: usize,
        first_ok: bool,
        second_ok: bool,
    },
    /// Both compiles succeeded: removing the binary.
    Discarding { user: String, source: String, name: String },
    /// Starting the transaction.
    Opening { user: String, source: String },
    /// Counting the submissions to number the new one.
    Numbering { user: String, source: String },
    /// Reading the clock to stamp submission `id`.
    Stamping { user: String, source: String, id: i64 },
    /// Recording the submission.
    Recording { user: String, source: String, id: i64, tim: String, tim_num: i64 },
    /// Committing.
    Committing,
    /// Answered.
    Done,
}

/// The action that an unanswered submission asks for.
pub open spec fn submit_request(s: SubmitFlow, a: Action) -> bool {
    match s {
        SubmitFlow::Authenticating { token, .. } => a == Action::DecodeToken(token),
        SubmitFlow::Throttling { .. } => a == Action::ReadClock,
        SubmitFlow::CheckingRecent { user, since, .. } => a == Action::Db(
            Query::CountRecentSubmissions { user, since },
        ),
        SubmitFlow::Building { name, source, step, .. } => step < BUILD_STEPS && build_request(
            name@,
            source@,
            step as int,
            a,
        ),
        SubmitFlow::Discarding { name, .. } => a matches Action::RemoveFile(p) && p@
            == build_binary(name@),
        SubmitFlow::Opening { .. } => a == Action::Db(Query::Begin),
        SubmitFlow::Numbering { .. } => a == Action::Db(Query::CountSubmissions),
        SubmitFlow::Stamping { .. } => a == Action::ReadClock,
        SubmitFlow::Recording { user, source, id, tim, tim_num } => a == Action::Db(
            Query::InsertSubmission { id, tim, tim_num, user, source },
        ),
        SubmitFlow::Committing => a == Action::Db(Query::Commit),
        SubmitFlow::Done => false,
    }
}

/// How a submission moves on an outcome, to state `t` with action `a`.
/// A token that does not decode is answered `Unauthorized`; a submission of
/// the same user stamped within the last `SUBMIT_INTERVAL_SECS` seconds, or a
/// build in which either compile fails, is answered `BadRequest`; otherwise
/// the submission is numbered one past the count, stamped and recorded with
/// the token's user and the source, and answered with an empty success. An
/// outcome of another kind than the one asked for leaves the state, and its
/// request, as they are.
pub open spec fn submit_next(s: SubmitFlow, e: Event, t: SubmitFlow, a: Action) -> bool {
    let stay = t == s && submit_request(t, a);
    match s {
        SubmitFlow::Authenticating { token, source } => match e {
            Event::Claims(c) => match c {
                Some(cl) => t == SubmitFlow::Throttling { user: cl.id, source } && submit_request(
                    t,
                    a,
                ),
                None => t == SubmitFlow::Done && a == Action::Reply(Reply::Unauthorized),
            },
            _ => stay,
        },
        SubmitFlow::Throttling { user, source } => match e {
            Event::Clock(now) => t == SubmitFlow::CheckingRecent {
                user,
                source,
                since: (now - SUBMIT_INTERVAL_SECS) as i64,
            } && submit_request(t, a),
            _ => stay,
        },
        SubmitFlow::CheckingRecent { user, source, .. } => match e {
            Event::Count(n) => if n > 0 {
                t == SubmitFlow::Done && a == Action::Reply(Reply::BadRequest)
            } else {
                &&& t matches SubmitFlow::Building {
                    user: u,
                    source: src,
                    name,
                    step,
                    first_ok,
                    second_ok,
                }
                &&& u == user && src == source && step == 0 && !first_ok && !second_ok
                &&& fresh_build_name(name@)
                &&& submit_request(t, a)
            },
            _ => stay,
        },
        SubmitFlow::Building { user, source, name, step, first_ok, second_ok } => {
            if is_compile_step(step as int) {
                match e {
                    Event::Status(ok) => t == (SubmitFlow::Building {
                        user,
                        source,
                        name,
                        step: (step + 1) as usize,
                        first_ok: if step == 6 { ok } else { first_ok },
                        second_ok: if step == 10 { ok } else { second_ok },
                    }) && submit_request(t, a),
                    _ => stay,
                }
            } else {
                match e {
                    Event::Finished => if step + 1 < BUILD_STEPS {
                        t == (SubmitFlow::Building {
                            user,
                            source,
                            name,
                            step: (step + 1) as usize,
                            first_ok,
                            second_ok,
                        }) && submit_request(t, a)
                    } else if first_ok && second_ok {
                        t == SubmitFlow::Discarding { user, source, name } && submit_request(t, a)
                    } else {
                        t == SubmitFlow::Done && a == Action::Reply(Reply::BadRequest)
                    },
                    _ => stay,
                }
            }
        },
        SubmitFlow::Discarding { user, source, .. } => match e {
            Event::Finished => t == SubmitFlow::Opening { user, source } && submit_request(t, a),
            _ => stay,
        },
        SubmitFlow::Opening { user, source } => match e {
            Event::Finished => t == SubmitFlow::Numbering { user, source } && submit_request(t, a),
            _ => stay,
        },
        SubmitFlow::Numbering { user, source } => match e {
            Event::Count(n) => t == SubmitFlow::Stamping { user, source, id: (n + 1) as i64 }
                && submit_request(t, a),
            _ => stay,
        },
        SubmitFlow::Stamping { user, source, id } => match e {
            Event::Clock(now) => {
                &&& t matches SubmitFlow::Recording { user: u, source: src, id: i, tim, tim_num }
                &&& u == user && src == source && i == id
                &&& tim@ == time_text(now) && tim_num == now
                &&& submit_request(t, a)
            },
            _ => stay,
        },
        SubmitFlow::Recording { .. } => match e {
            Event::Finished => t == SubmitFlow::Committing && submit_request(t, a),
            _ => stay,
        },
        SubmitFlow::Committing => match e {
            Event::Finished => t == SubmitFlow::Done && a == Action::Reply(
                Reply::Success(Body::Empty),
            ),
            _ => stay,
        },
        SubmitFlow::Done => false,
    }
}

fn args1(a: String) -> (v: Vec<String>)
    ensures
        texts(v@) == seq![a@],
{
    let mut v: Vec<String> = Vec::new();
    v.push(a);
    assert(texts(v@) =~= seq![a@]);
    v
}

fn args2(a: String, b: String) -> (v: Vec<String>)
    ensures
        texts(v@) == seq![a@, b@],
{
    let mut v: Vec<String> = Vec::new();
    v.push(a);
    v.push(b);
    assert(texts(v@) =~= seq![a@, b@]);
    v
}

fn args3(a: String, b: String, c: String) -> (v: Vec<String>)
    ensures
        texts(v@) == seq![a@, b@, c@],
{
    let mut v: Vec<String> = Vec::new();
    v.push(a);
    v.push(b);
    v.push(c);
    assert(texts(v@) =~= seq![a@, b@, c@]);
    v
}

fn args5(a: String, b: String, c: String, d: String, e: String) -> (v: Vec<String>)
    ensures
        texts(v@) == seq![a@, b@, c@, d@, e@],
{
    let mut v: Vec<String> = Vec::new();
    v.push(a);
    v.push(b);
    v.push(c);
    v.push(d);
    v.push(e);
    assert(texts(v@) =~= seq![a@, b@, c@, d@, e@]);
    v
}

/// `cp <from> <dir><file>`.
fn copy_into(from: &str, dir: &String, file: &str) -> (a: Action)
    ensures
        a matches Action::Run(c) && command_is(c, "cp"@, seq![from@, dir@ + file@]),
{
    Action::Run(Command { program: text("cp"), args: args2(text(from), joined(dir.as_str(), file)) })
}

/// `sed -i <script> <dir><file>`.
fn rename_player(script: &str, dir: &String, file: &str) -> (a: Action)
    ensures
        a matches Action::Run(c) && command_is(c, "sed"@, seq!["-i"@, script@, dir@ + file@]),
{
    Action::Run(
        Command {
            program: text("sed"),
            args: args3(text("-i"), text(script), joined(dir.as_str(), file)),
        },
    )
}

/// The compiler run of the build named `name`.
fn compile(name: &String) -> (a: Action)
    ensures
        a matches Action::Compile(c) && command_is(c, "g++"@, compile_args(name@)),
{
    let dir = joined("./ac-library/atcoder/", name.as_str());
    Action::Compile(
        Command {
            program: text("g++"),
            args: args5(
                text("-o"),
                joined("./tmp/", name.as_str()),
                joined(dir.as_str(), "/judge.cpp"),
                text("-I"),
                text("./ac-library/"),
            ),
        },
    )
}

/// The action of step `step` of the build named `name` of `source`.
fn build_action(name: &String, source: &String, step: usize) -> (a: Action)
    requires
        step < BUILD_STEPS,
    ensures
        build_request(name@, source@, step as int, a),
{
    let dir = joined("./ac-library/atcoder/", name.as_str());
    if step == 0 {
        Action::Run(Command { program: text("mkdir"), args: args1(dir) })
    } else if step == 1 {
        copy_into("./game.hpp", &dir, "/game.hpp")
    } else if step == 2 {
        copy_into("./judge.cpp", &dir, "/judge.cpp")
    } else if step == 3 {
        copy_into("./player2.cpp", &dir, "/player2.cpp")
    } else if step == 4 {
        Action::WriteFile { path: joined(dir.as_str(), "/player1.cpp"), contents: source.clone() }
    } else if step == 5 {
        rename_player("s/PlayerXXX/Player1/", &dir, "/player1.cpp")
    } else if step == 6 {
        compile(name)
    } else if step == 7 {
        copy_into("./player1.cpp", &dir, "/player1.cpp")
    } else if step == 8 {
        Action::WriteFile { path: joined(dir.as_str(), "/player2.cpp"), contents: source.clone() }
    } else if step == 9 {
        rename_player("s/PlayerXXX/Player2/", &dir, "/player2.cpp")
    } else if step == 10 {
        compile(name)
    } else {
        Action::Run(Command { program: text("rm"), args: args2(text("-r"), dir) })
    }
}

/// Starts a submission: the token is checked first.
pub fn submit(data: SubmissionRequest) -> (res: (SubmitFlow, Action))
    ensures
        res.0 == (SubmitFlow::Authenticating { token: data.token, source: data.source }),
        submit_request(res.0, res.1),
{
    let flow = SubmitFlow::Authenticating { token: data.token, source: data.source };
    let a = flow.request();
    (flow, a)
}

impl SubmitFlow {
    /// Whether the submission has been answered.
    pub fn is_done(&self) -> (res: bool)
        ensures
            res == (*self is Done),
    {
        matches!(self, SubmitFlow::Done)
    }

    /// Whether the state is one that the flow can reach: a build is at one
    /// of its steps.
    pub open spec fn well_formed(self) -> bool {
        self matches SubmitFlow::Building { step, .. } ==> step < BUILD_STEPS
    }

    /// The action that this unanswered submission asks for.
    pub fn request(&self) -> (a: Action)
        requires
            !(*self is Done),
            self.well_formed(),
        ensures
            submit_request(*self, a),
    {
        match self {
            SubmitFlow::Authenticating { token, .. } => Action::DecodeToken(token.clone()),
            SubmitFlow::Throttling { .. } => Action::ReadClock,
            SubmitFlow::CheckingRecent { user, since, .. } => Action::Db(
                Query::CountRecentSubmissions { user: user.clone(), since: *since },
            ),
            SubmitFlow::Building { name, source, step, .. } => build_action(name, source, *step),
            SubmitFlow::Discarding { name, .. } => Action::RemoveFile(
                joined("./tmp/", name.as_str()),
            ),
            SubmitFlow::Opening { .. } => Action::Db(Query::Begin),
            SubmitFlow::Numbering { .. } => Action::Db(Query::CountSubmissions),
            SubmitFlow::Stamping { .. } => Action::ReadClock,
            SubmitFlow::Recording { user, source, id, tim, tim_num } => Action::Db(
                Query::InsertSubmission {
                    id: *id,
                    tim: tim.clone(),
                    tim_num: *tim_num,
                    user: user.clone(),
                    source: source.clone(),
                },
            ),
            SubmitFlow::Committing => Action::Db(Query::Commit),
            SubmitFlow::Done => Action::ReadClock,
        }
    }

    /// Moves the submission on the outcome of its last action.
    pub fn step(self, e: Event) -> (res: (SubmitFlow, Action))
        requires
            !(self is Done),
            self.well_formed(),
            event_ok(e),
        ensures
            submit_next(self, e, res.0, res.1),
            res.0.well_formed(),
    {
        match self {
            SubmitFlow::Authenticating { token, source } => match e {
                Event::Claims(c) => match verify_token(c) {
                    Ok(user) => SubmitFlow::Throttling { user, source }.requesting(),
                    Err(_) => (SubmitFlow::Done, Action::Reply(Reply::Unauthorized)),
                },
                _ => SubmitFlow::Authenticating { token, source }.requesting(),
            },
            SubmitFlow::Throttling { user, source } => match e {
                Event::Clock(now) => SubmitFlow::CheckingRecent {
                    user,
                    source,
                    since: now - SUBMIT_INTERVAL_SECS,
                }.requesting(),
                _ => SubmitFlow::Throttling { user, source }.requesting(),
            },
            SubmitFlow::CheckingRecent { user, source, since } => match e {
                Event::Count(n) => if n > 0 {
                    (SubmitFlow::Done, Action::Reply(Reply::BadRequest))
                } else {
                    let name = gen_rnd_str(BUILD_NAME_LEN);
                    SubmitFlow::Building {
                        user,
                        source,
                        name,
                        step: 0,
                        first_ok: false,
                        second_ok: false,
                    }.requesting()
                },
                _ => SubmitFlow::CheckingRecent { user, source, since }.requesting(),
            },
            SubmitFlow::Building { user, source, name, step, first_ok, second_ok } => {
                if step == 6 || step == 10 {
                    match e {
                        Event::Status(ok) => SubmitFlow::Building {
                            user,
                            source,
                            name,
                            step: step + 1,
                            first_ok: if step == 6 { ok } else { first_ok },
                            second_ok: if step == 10 { ok } else { second_ok },
                        }.requesting(),
                        _ => SubmitFlow::Building {
                            user,
                            source,
                            name,
                            step,
                            first_ok,
                            second_ok,
                        }.requesting(),
                    }
                } else {
                    match e {
                        Event::Finished => if step + 1 < BUILD_STEPS {
                            SubmitFlow::Building {
                                user,
                                source,
                                name,
                                step: step + 1,
                                first_ok,
                                second_ok,
                            }.requesting()
                        } else if first_ok && second_ok {
                            SubmitFlow::Discarding { user, source, name }.requesting()
                        } else {
                            (SubmitFlow::Done, Action::Reply(Reply::BadRequest))
                        },
                        _ => SubmitFlow::Building {
                            user,
                            source,
                            name,
                            step,
                            first_ok,
                            second_ok,
                        }.requesting(),
                    }
                }
            },
            SubmitFlow::Discarding { user, source, name } => match e {
                Event::Finished => SubmitFlow::Opening { user, source }.requesting(),
                _ => SubmitFlow::Discarding { user, source, name }.requesting(),
            },
            SubmitFlow::Opening { user, source } => match e {
                Event::Finished => SubmitFlow::Numbering { user, source }.requesting(),
                _ => SubmitFlow::Opening { user, source }.requesting(),
            },
            SubmitFlow::Numbering { user, source } => match e {
                Event::Count(n) => SubmitFlow::Stamping { user, source, id: n + 1 }.requesting(),
                _ => SubmitFlow::Numbering { user, source }.requesting(),
            },
            SubmitFlow::Stamping { user, source, id } => match e {
                Event::Clock(now) => SubmitFlow::Recording {
                    user,
                    source,
                    id,
                    tim: current_time_string(now),
                    tim_num: now,
                }.requesting(),
                _ => SubmitFlow::Stamping { user, source, id }.requesting(),
            },
            SubmitFlow::Recording { user, source, id, tim, tim_num } => match e {
                Event::Finished => SubmitFlow::Committing.requesting(),
                _ => SubmitFlow::Recording { user, source, id, tim, tim_num }.requesting(),
            },
            SubmitFlow::Committing => match e {
                Event::Finished => (SubmitFlow::Done, Action::Reply(Reply::Success(Body::Empty))),
                _ => SubmitFlow::Committing.requesting(),
            },
            SubmitFlow::Done => (SubmitFlow::Done, Action::ReadClock),
        }
    }

    /// This unanswered state paired with its request.
    fn requesting(self) -> (res: (SubmitFlow, Action))
        requires
            !(self is Done),
            self.well_formed(),
        ensures
            res.0 == self,
            submit_request(res.0, res.1),
            res.0.well_formed(),
    {
        let a = self.request();
        (self, a)
    }
}

/// A run of the submission flow: `states[i]` moves on the acceptable outcome
/// `events[i]` to `states[i + 1]` and asks for `actions[i]`.
pub open spec fn submit_run(states: Seq<SubmitFlow>, events: Seq<Event>, actions: Seq<Action>) -> bool {
    &&& states.len() == events.len() + 1
    &&& actions.len() == events.len()
    &&& forall|i: int| 0 <= i < events.len() ==> event_ok(#[trigger] events[i])
    &&& forall|i: int|
        0 <= i < events.len() ==> #[trigger] submit_next(states[i], events[i], states[i + 1], actions[i])
}

/// Before position `i`, a token of `user` was decoded.
pub open spec fn authorized_before(events: Seq<Event>, user: String, i: int) -> bool {
    exists|j: int| 0 <= j < i && (#[trigger] events[j] matches Event::Claims(Some(c)) && c.id == user)
}

/// Before position `i`, the database reported no recent submission of `user`.
pub open spec fn unthrottled_before(states: Seq<SubmitFlow>, events: Seq<Event>, user: String, i: int) -> bool {
    exists|j: int|
        0 <= j < i && (#[trigger] states[j] matches SubmitFlow::CheckingRecent { user: u, .. } && u
            == user) && events[j] == Event::Count(0)
}

/// Before position `i`, the compile of build step `step` succeeded.
pub open spec fn compiled_before(states: Seq<SubmitFlow>, events: Seq<Event>, step: usize, i: int) -> bool {
    exists|j: int|
        0 <= j < i && (#[trigger] states[j] matches SubmitFlow::Building { step: k, .. } && k == step)
            && events[j] == Event::Status(true)
}

/// What a run has established by the time it reaches `states[i]`.
pub open spec fn submit_history(
    states: Seq<SubmitFlow>,
    events: Seq<Event>,
    source: String,
    i: int,
) -> bool {
    match states[i] {
        SubmitFlow::Authenticating { source: src, .. } => src == source,
        SubmitFlow::Throttling { user, source: src } => src == source && authorized_before(
            events,
            user,
            i,
        ),
        SubmitFlow::CheckingRecent { user, source: src, .. } => src == source && authorized_before(
            events,
            user,
            i,
        ),
        SubmitFlow::Building { user, source: src, first_ok, second_ok, .. } => {
            &&& src == source
            &&& authorized_before(events, user, i)
            &&& unthrottled_before(states, events, user, i)
            &&& first_ok ==> compiled_before(states, events, 6, i)
            &&& second_ok ==> compiled_before(states, events, 10, i)
        },
        SubmitFlow::Discarding { user, source: src, .. } => checked_before(
            states,
            events,
            source,
            user,
            src,
            i,
        ),
        SubmitFlow::Opening { user, source: src } => checked_before(states, events, source, user, src, i),
        SubmitFlow::Numbering { user, source: src } => checked_before(
            states,
            events,
            source,
            user,
            src,
            i,
        ),
        SubmitFlow::Stamping { user, source: src, .. } => checked_before(
            states,
            events,
            source,
            user,
            src,
            i,
        ),
        SubmitFlow::Recording { user, source: src, .. } => checked_before(
            states,
            events,
            source,
            user,
            src,
            i,
        ),
        SubmitFlow::Committing => true,
        SubmitFlow::Done => true,
    }
}

/// Before position `i`: the source is the request's, the user's token was
/// decoded, the user had no recent submission, and both compiles succeeded.
pub open spec fn checked_before(
    states: Seq<SubmitFlow>,
    events: Seq<Event>,
    source: String,
    user: String,
    src: String,
    i: int,
) -> bool {
    &&& src == source
    &&& authorized_before(events, user, i)
    &&& unthrottled_before(states, events, user, i)
    &&& compiled_before(states, events, 6, i)
    &&& compiled_before(states, events, 10, i)
}

proof fn lemma_submit_history(
    states: Seq<SubmitFlow>,
    events: Seq<Event>,
    actions: Seq<Action>,
    token: String,
    source: String,
    i: int,
)
    requires
        submit_run(states, events, actions),
        states[0] == (SubmitFlow::Authenticating { token, source }),
        0 <= i < states.len(),
    ensures
        submit_history(states, events, source, i),
    decreases i,
{
    if i > 0 {
        lemma_submit_history(states, events, actions, token, source, i - 1);
        let p = i - 1;
        assert(submit_next(states[p], events[p], states[p + 1], actions[p]));
        let h = submit_history(states, events, source, i);
        match states[p] {
            SubmitFlow::Authenticating { .. } => {
                match events[p] {
                    Event::Claims(Some(c)) => {
                        assert(events[p] matches Event::Claims(Some(c2)) && c2.id == c.id);
                        assert(h);
                    },
                    _ => { assert(h); },
                }
            },
            SubmitFlow::Throttling { .. } => { assert(h); },
            SubmitFlow::CheckingRecent { user, .. } => {
                assert(event_ok(events[p]));
                if events[p] == Event::Count(0) {
                    assert(states[p] matches SubmitFlow::CheckingRecent { user: u, .. } && u == user);
                }
                assert(h);
            },
            SubmitFlow::Building { step, .. } => {
                assert(states[p] matches SubmitFlow::Building { step: k, .. } && k == step);
                assert(h);
            },
            SubmitFlow::Discarding { .. } => { assert(h); },
            SubmitFlow::Opening { .. } => { assert(h); },
            SubmitFlow::Numbering { .. } => { assert(h); },
            SubmitFlow::Stamping { .. } => { assert(h); },
            SubmitFlow::Recording { .. } => { assert(h); },
            SubmitFlow::Committing => { assert(h); },
            SubmitFlow::Done => { assert(h); },
        }
    }
}

/// A submission is recorded only with the request's source, under the user
/// whose token was decoded, after the database reported no submission of
/// that user in the last `SUBMIT_INTERVAL_SECS` seconds, and after the source
/// compiled both as player 1 and as player 2.
pub proof fn lemma_recorded_submission_was_checked(
    states: Seq<SubmitFlow>,
    events: Seq<Event>,
    actions: Seq<Action>,
    token: String,
    source: String,
    k: int,
)
    requires
        submit_run(states, events, actions),
        states[0] == (SubmitFlow::Authenticating { token, source }),
        0 <= k < actions.len(),
        actions[k] matches Action::Db(Query::InsertSubmission { .. }),
    ensures
        ({
            let q = actions[k]->Db_0;
            &&& q->InsertSubmission_source == source
            &&& authorized_before(events, q->InsertSubmission_user, k + 1)
            &&& unthrottled_before(states, events, q->InsertSubmission_user, k + 1)
            &&& compiled_before(states, events, 6, k + 1)
            &&& compiled_before(states, events, 10, k + 1)
        }),
{
    assert(submit_next(states[k], events[k], states[k + 1], actions[k]));
    lemma_submit_history(states, events, actions, token, source, k + 1);
    assert(states[k + 1] is Recording);
}

/// The action removes the build directory of the build named `name`.
pub open spec fn removes_build(a: Action, name: Seq<char>) -> bool {
    a matches Action::Run(c) && command_is(c, "rm"@, seq!["-r"@, build_dir(name)])
}

/// Before position `i`, the directory of the build named `name` was removed.
pub open spec fn removed_before(actions: Seq<Action>, name: Seq<char>, i: int) -> bool {
    exists|j: int| 0 <= j < i && #[trigger] removes_build(actions[j], name)
}

/// Before position `i`, the run reached a build.
pub open spec fn built_before(states: Seq<SubmitFlow>, i: int) -> bool {
    exists|j: int| 0 <= j < i && #[trigger] states[j] is Building
}

/// The cleanup a run has done by the time it reaches `states[i]`: before
/// any build nothing was built; a build ends with the removal of its
/// directory; everything after a build follows that removal.
pub open spec fn cleanup_history(states: Seq<SubmitFlow>, actions: Seq<Action>, i: int) -> bool {
    match states[i] {
        SubmitFlow::Authenticating { .. } => !built_before(states, i),
        SubmitFlow::Throttling { .. } => !built_before(states, i),
        SubmitFlow::CheckingRecent { .. } => !built_before(states, i),
        SubmitFlow::Building { name, step, .. } => step <= 11 && (step == 11 ==> removed_before(
            actions,
            name@,
            i,
        )),
        SubmitFlow::Discarding { name, .. } => removed_before(actions, name@, i),
        SubmitFlow::Done => true,
        _ => exists|n: Seq<char>| removed_before(actions, n, i),
    }
}

proof fn lemma_cleanup_history(
    states: Seq<SubmitFlow>,
    events: Seq<Event>,
    actions: Seq<Action>,
    i: int,
)
    requires
        submit_run(states, events, actions),
        states[0] is Authenticating,
        0 <= i < states.len(),
    ensures
        cleanup_history(states, actions, i),
    decreases i,
{
    if i == 0 {
        assert(!built_before(states, 0));
    } else {
        lemma_cleanup_history(states, events, actions, i - 1);
        let p = i - 1;
        assert(submit_next(states[p], events[p], states[p + 1], actions[p]));
        match states[p] {
            SubmitFlow::Building { name, step, .. } => {
                if step == 10 || step == 11 {
                    if states[i] matches SubmitFlow::Building { step: s2, .. } && s2 == 11 {
                        assert(removes_build(actions[p], name@));
                    }
                    if step == 11 {
                        assert(removed_before(actions, name@, p));
                        let j = choose|j: int| 0 <= j < p && #[trigger] removes_build(actions[j], name@);
                        assert(removed_before(actions, name@, i));
                    }
                }
            },
            SubmitFlow::Discarding { name, .. } => {
                assert(removed_before(actions, name@, i));
            },
            SubmitFlow::Opening { .. } | SubmitFlow::Numbering { .. } | SubmitFlow::Stamping { .. } |
            SubmitFlow::Recording { .. } | SubmitFlow::Committing => {
                let n = choose|n: Seq<char>| removed_before(actions, n, p);
                assert(removed_before(actions, n, i));
            },
            _ => {
                assert forall|j: int| 0 <= j < i implies !(#[trigger] states[j] is Building) by {
                    if j < p {
                        assert(!(states[j] is Building));
                    }
                }
            },
        }
    }
}

/// Once a submission has been built, it is answered only after the build
/// directory was removed, whether the compiles succeeded or not.
pub proof fn lemma_build_directory_removed_before_answer(
    states: Seq<SubmitFlow>,
    events: Seq<Event>,
    actions: Seq<Action>,
    k: int,
)
    requires
        submit_run(states, events, actions),
        states[0] is Authenticating,
        0 <= k < actions.len(),
        actions[k] is Reply,
        built_before(states, k + 1),
    ensures
        exists|n: Seq<char>| removed_before(actions, n, k),
{
    assert(submit_next(states[k], events[k], states[k + 1], actions[k]));
    lemma_cleanup_history(states, events, actions, k);
    match states[k] {
        SubmitFlow::Building { name, .. } => {
            assert(removed_before(actions, name@, k));
        },
        SubmitFlow::Committing => {},
        _ => {
            let j = choose|j: int| 0 <= j < k + 1 && #[trigger] states[j] is Building;
            assert(j < k);
        },
    }
}

/// A token that does not decode is answered `Unauthorized` and ends the
/// submission; a decoded token's id becomes the submitting user, and the
/// clock is read next.
pub proof fn lemma_submit_token(token: String, source: String, c: Option<Claims>, t: SubmitFlow, a: Action)
    requires
        submit_next(SubmitFlow::Authenticating { token, source }, Event::Claims(c), t, a),
    ensures
        c is None ==> t is Done && a == Action::Reply(Reply::Unauthorized),
        c is Some ==> t == (SubmitFlow::Throttling { user: c->Some_0.id, source })
            && a == Action::ReadClock,
{
}

/// The rate limit looks for submissions of the user stamped after the clock
/// reading minus `SUBMIT_INTERVAL_SECS`; any such submission is answered
/// `BadRequest`, none starts a build in a fresh directory.
pub proof fn lemma_submit_rate_limit(
    user: String,
    source: String,
    now: i64,
    n: i64,
    t1: SubmitFlow,
    a1: Action,
    t2: SubmitFlow,
    a2: Action,
)
    requires
        submit_next(SubmitFlow::Throttling { user, source }, Event::Clock(now), t1, a1),
        submit_next(t1, Event::Count(n), t2, a2),
    ensures
        a1 == Action::Db(Query::CountRecentSubmissions { user, since: (now - 30) as i64 }),
        n > 0 ==> t2 is Done && a2 == Action::Reply(Reply::BadRequest),
        n <= 0 ==> {
            &&& t2 is Building
            &&& t2->step == 0 && !t2->first_ok && !t2->second_ok
            &&& t2->Building_name@.len() == 8
            &&& a2 matches Action::Run(c) && c.program@ == "mkdir"@ && c.args@.len() == 1
                && c.args@[0]@ == "./ac-library/atcoder/"@ + t2->Building_name@
        },
{
    if n <= 0 {
        let c = a2->Run_0;
        assert(texts(c.args@).len() == c.args@.len());
        assert(texts(c.args@)[0] == c.args@[0]@);
    }
}

/// The build writes the submitted source as player 1 (step 4) and as player 2
/// (step 8), each time into the build directory.
pub proof fn lemma_build_writes_source(name: Seq<char>, source: Seq<char>, a4: Action, a8: Action)
    requires
        build_request(name, source, 4, a4),
        build_request(name, source, 8, a8),
    ensures
        a4 matches Action::WriteFile { path, contents } && contents@ == source && path@
            == "./ac-library/atcoder/"@ + name + "/player1.cpp"@,
        a8 matches Action::WriteFile { path, contents } && contents@ == source && path@
            == "./ac-library/atcoder/"@ + name + "/player2.cpp"@,
{
}

/// Both compiles run `g++` on the judge of the build directory and write the
/// binary `./tmp/<name>`, the file that a recorded submission removes.
pub proof fn lemma_build_compiles_judge(name: Seq<char>, source: Seq<char>, a6: Action, a10: Action)
    requires
        build_request(name, source, 6, a6),
        build_request(name, source, 10, a10),
    ensures
        a6 matches Action::Compile(c) && c.program@ == "g++"@ && c.args@.len() == 5 && c.args@[1]@
            == "./tmp/"@ + name && c.args@[2]@ == "./ac-library/atcoder/"@ + name + "/judge.cpp"@,
        a6 == a10 || (a10 matches Action::Compile(d) && d.program@ == "g++"@ && texts(d.args@)
            == texts(a6->Compile_0.args@)),
{
    let c = a6->Compile_0;
    assert(texts(c.args@).len() == c.args@.len());
    assert(texts(c.args@)[1] == c.args@[1]@);
    assert(texts(c.args@)[2] == c.args@[2]@);
}

/// The outcome of the compile at step 6 is the first result and the one at
/// step 10 the second; at the last step a build whose two compiles both
/// succeeded removes its binary, and any other is answered `BadRequest`.
pub proof fn lemma_build_outcome(
    user: String,
    source: String,
    name: String,
    step: usize,
    first_ok: bool,
    second_ok: bool,
    e: Event,
    t: SubmitFlow,
    a: Action,
)
    requires
        submit_next(
            SubmitFlow::Building { user, source, name, step, first_ok, second_ok },
            e,
            t,
            a,
        ),
    ensures
        step == 6 && e is Status ==> t is Building && t->step == 7 && t->first_ok
            == e->Status_0 && t->second_ok == second_ok,
        step == 10 && e is Status ==> t is Building && t->step == 11 && t->first_ok == first_ok
            && t->second_ok == e->Status_0,
        step == 11 && e == Event::Finished && first_ok && second_ok ==> t
            == (SubmitFlow::Discarding { user, source, name }) && (a matches Action::RemoveFile(p)
            && p@ == "./tmp/"@ + name@),
        step == 11 && e == Event::Finished && !(first_ok && second_ok) ==> t is Done && a
            == Action::Reply(Reply::BadRequest),
{
}

/// A submission is numbered one past the count of submissions, stamped with
/// the clock reading and its text in UTC+9, and recorded with the user and
/// the source; the commit is answered with an empty success.
pub proof fn lemma_submit_record(
    user: String,
    source: String,
    n: i64,
    now: i64,
    t1: SubmitFlow,
    a1: Action,
    t2: SubmitFlow,
    a2: Action,
    t3: SubmitFlow,
    a3: Action,
)
    requires
        event_ok(Event::Count(n)),
        submit_next(SubmitFlow::Numbering { user, source }, Event::Count(n), t1, a1),
        submit_next(t1, Event::Clock(now), t2, a2),
        submit_next(SubmitFlow::Committing, Event::Finished, t3, a3),
    ensures
        a1 == Action::ReadClock,
        a2 matches Action::Db(Query::InsertSubmission { id, tim, tim_num, user: u, source: src })
            && id == n + 1 && tim@ == time_text(now) && tim_num == now && u == user && src == source,
        t3 is Done && a3 == Action::Reply(Reply::Success(Body::Empty)),
{
}

} // verus!
