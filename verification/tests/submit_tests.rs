use colledor::auth::Claims;
use colledor::flow::{Action, Body, Command, Event, Query, Reply};
use colledor::submit::{submit, SubmissionRequest, SubmitFlow};

fn req() -> SubmissionRequest {
    SubmissionRequest { token: "tok".to_string(), source: "int main(){}".to_string() }
}

fn claims(id: &str) -> Event {
    Event::Claims(Some(Claims { id: id.to_string(), exp: 99 }))
}

fn cmd(program: &str, args: &[&str]) -> Command {
    Command { program: program.to_string(), args: args.iter().map(|s| s.to_string()).collect() }
}

/// Runs the flow up to its build, returning the flow at build step 0, its
/// action and the build name.
fn to_build() -> (SubmitFlow, Action, String) {
    let (f, a) = submit(req());
    assert_eq!(a, Action::DecodeToken("tok".to_string()));
    let (f, a) = f.step(claims("alice"));
    assert_eq!(a, Action::ReadClock);
    let (f, a) = f.step(Event::Clock(1000));
    assert_eq!(
        a,
        Action::Db(Query::CountRecentSubmissions { user: "alice".to_string(), since: 970 })
    );
    let (f, a) = f.step(Event::Count(0));
    let name = match &f {
        SubmitFlow::Building { name, step: 0, .. } => name.clone(),
        other => panic!("unexpected {:?}", other),
    };
    (f, a, name)
}

#[test]
fn submit_with_bad_token_is_unauthorized() {
    let (f, _) = submit(req());
    let (f, a) = f.step(Event::Claims(None));
    assert!(f.is_done());
    assert_eq!(a, Action::Reply(Reply::Unauthorized));
}

#[test]
fn submit_within_thirty_seconds_is_refused() {
    let (f, _) = submit(req());
    let (f, _) = f.step(claims("alice"));
    let (f, _) = f.step(Event::Clock(1000));
    let (f, a) = f.step(Event::Count(1));
    assert!(f.is_done());
    assert_eq!(a, Action::Reply(Reply::BadRequest));
}

#[test]
fn submit_builds_in_a_fresh_directory() {
    let (_, a, name) = to_build();
    assert_eq!(name.len(), 8);
    assert!(name.chars().all(|c| c.is_ascii_alphanumeric()));
    let dir = format!("./ac-library/atcoder/{}", name);
    assert_eq!(a, Action::Run(cmd("mkdir", &[&dir])));
}

fn build_steps(name: &str, source: &str) -> Vec<Action> {
    let dir = format!("./ac-library/atcoder/{}", name);
    let bin = format!("./tmp/{}", name);
    let judge = format!("{}/judge.cpp", dir);
    let compile = cmd("g++", &["-o", &bin, &judge, "-I", "./ac-library/"]);
    vec![
        Action::Run(cmd("mkdir", &[&dir])),
        Action::Run(cmd("cp", &["./game.hpp", &format!("{}/game.hpp", dir)])),
        Action::Run(cmd("cp", &["./judge.cpp", &format!("{}/judge.cpp", dir)])),
        Action::Run(cmd("cp", &["./player2.cpp", &format!("{}/player2.cpp", dir)])),
        Action::WriteFile { path: format!("{}/player1.cpp", dir), contents: source.to_string() },
        Action::Run(cmd("sed", &["-i", "s/PlayerXXX/Player1/", &format!("{}/player1.cpp", dir)])),
        Action::Compile(compile.clone()),
        Action::Run(cmd("cp", &["./player1.cpp", &format!("{}/player1.cpp", dir)])),
        Action::WriteFile { path: format!("{}/player2.cpp", dir), contents: source.to_string() },
        Action::Run(cmd("sed", &["-i", "s/PlayerXXX/Player2/", &format!("{}/player2.cpp", dir)])),
        Action::Compile(compile),
        Action::Run(cmd("rm", &["-r", &dir])),
    ]
}

/// Drives the build with the two compile outcomes; returns the flow after
/// the directory is removed and the action then asked for.
fn run_build(first: bool, second: bool) -> (SubmitFlow, Action, String) {
    let (mut f, mut a, name) = to_build();
    let expected = build_steps(&name, "int main(){}");
    for (k, step) in expected.iter().enumerate() {
        assert_eq!(&a, step, "build step {}", k);
        let e = match k {
            6 => Event::Status(first),
            10 => Event::Status(second),
            _ => Event::Finished,
        };
        let (g, b) = f.step(e);
        f = g;
        a = b;
    }
    (f, a, name)
}

#[test]
fn submit_that_compiles_is_recorded() {
    let (f, a, name) = run_build(true, true);
    assert_eq!(a, Action::RemoveFile(format!("./tmp/{}", name)));
    let (f, a) = f.step(Event::Finished);
    assert_eq!(a, Action::Db(Query::Begin));
    let (f, a) = f.step(Event::Finished);
    assert_eq!(a, Action::Db(Query::CountSubmissions));
    let (f, a) = f.step(Event::Count(41));
    assert_eq!(a, Action::ReadClock);
    let (f, a) = f.step(Event::Clock(1600000000));
    assert_eq!(
        a,
        Action::Db(Query::InsertSubmission {
            id: 42,
            tim: "2020/09/13 21:26:40".to_string(),
            tim_num: 1600000000,
            user: "alice".to_string(),
            source: "int main(){}".to_string(),
        })
    );
    let (f, a) = f.step(Event::Finished);
    assert_eq!(a, Action::Db(Query::Commit));
    let (f, a) = f.step(Event::Finished);
    assert!(f.is_done());
    assert_eq!(a, Action::Reply(Reply::Success(Body::Empty)));
}

#[test]
fn submit_that_fails_either_compile_is_refused() {
    for (first, second) in [(false, true), (true, false), (false, false)] {
        let (f, a, _) = run_build(first, second);
        assert!(f.is_done());
        assert_eq!(a, Action::Reply(Reply::BadRequest));
    }
}

#[test]
fn submit_ignores_an_outcome_of_another_kind() {
    let (f, a, _) = to_build();
    let (f, b) = f.step(Event::Status(true));
    assert_eq!(a, b);
    assert!(matches!(f, SubmitFlow::Building { step: 0, .. }));
}
