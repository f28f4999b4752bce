use colledor::auth::Claims;
use colledor::challenge::{challenge, rated, server_for, ChallengeFlow, ChallengeRequest};
use colledor::flow::{Action, Body, Event, Query, Reply};

const START: i64 = 1000;
const END: i64 = 2000;

fn start(servers: i64) -> (ChallengeFlow, Action) {
    challenge(
        ChallengeRequest { token: "tok".to_string(), target: "bob".to_string() },
        START,
        END,
        servers,
    )
}

fn claims(id: &str) -> Event {
    Event::Claims(Some(Claims { id: id.to_string(), exp: 99 }))
}

/// Runs an admitted challenge to its insertion, with the count of rated
/// targets, the clock when deciding, the count of challenges and the clock
/// when stamping.
fn admitted(servers: i64, rated_rows: i64, now: i64, count: i64, stamp: i64) -> (ChallengeFlow, Action) {
    let (f, a) = start(servers);
    assert_eq!(a, Action::DecodeToken("tok".to_string()));
    let (f, a) = f.step(claims("alice"));
    assert_eq!(a, Action::Db(Query::CountOpenChallenges { user: "alice".to_string() }));
    let (f, a) = f.step(Event::Count(0));
    assert_eq!(
        a,
        Action::Db(Query::CountSubmitters { user: "alice".to_string(), target: "bob".to_string() })
    );
    let (f, a) = f.step(Event::Count(2));
    assert_eq!(
        a,
        Action::Db(Query::CountRatedTargets { user: "alice".to_string(), target: "bob".to_string() })
    );
    let (f, a) = f.step(Event::Count(rated_rows));
    assert_eq!(a, Action::ReadClock);
    let (f, a) = f.step(Event::Clock(now));
    assert_eq!(a, Action::Db(Query::Begin));
    let (f, a) = f.step(Event::Finished);
    assert_eq!(a, Action::Db(Query::CountChallenges));
    let (f, a) = f.step(Event::Count(count));
    assert_eq!(a, Action::ReadClock);
    f.step(Event::Clock(stamp))
}

fn inserted(a: &Action) -> (i32, i32, String, i32, i32, String, String) {
    match a {
        Action::Db(Query::InsertChallenge { id, rated, tim, tim_num, server_id, user1, user2 }) => {
            (*id, *rated, tim.clone(), *tim_num, *server_id, user1.clone(), user2.clone())
        }
        other => panic!("unexpected {:?}", other),
    }
}

#[test]
fn challenge_in_contest_against_higher_rated_is_rated() {
    let (f, a) = admitted(3, 1, 1500, 4, 1600000000);
    assert_eq!(
        inserted(&a),
        (5, 1, "2020/09/13 21:26:40".to_string(), 1600000000, 2, "alice".to_string(), "bob".to_string())
    );
    let (f, a) = f.step(Event::Finished);
    assert_eq!(a, Action::Db(Query::Commit));
    let (f, a) = f.step(Event::Finished);
    assert!(f.is_done());
    assert_eq!(a, Action::Reply(Reply::Success(Body::Empty)));
}

#[test]
fn challenge_outside_contest_or_lower_target_is_unrated() {
    assert_eq!(inserted(&admitted(3, 1, 999, 0, 0).1).1, 0);
    assert_eq!(inserted(&admitted(3, 1, 2000, 0, 0).1).1, 0);
    assert_eq!(inserted(&admitted(3, 0, 1500, 0, 0).1).1, 0);
    assert_eq!(inserted(&admitted(3, 1, 1000, 0, 0).1).1, 1);
}

#[test]
fn challenge_server_is_number_modulo_servers() {
    assert_eq!(inserted(&admitted(3, 0, 0, 0, 0).1).4, 1);
    assert_eq!(inserted(&admitted(3, 0, 0, 2, 0).1).4, 0);
    assert_eq!(inserted(&admitted(1, 0, 0, 9, 0).1).4, 0);
    assert_eq!(inserted(&admitted(-4, 0, 0, 5, 0).1).4, 2);
}

#[test]
fn challenge_with_bad_token_is_unauthorized() {
    let (f, _) = start(3);
    let (f, a) = f.step(Event::Claims(None));
    assert!(f.is_done());
    assert_eq!(a, Action::Reply(Reply::Unauthorized));
}

#[test]
fn challenge_with_open_challenge_is_refused() {
    let (f, _) = start(3);
    let (f, _) = f.step(claims("alice"));
    let (f, a) = f.step(Event::Count(1));
    assert!(f.is_done());
    assert_eq!(a, Action::Reply(Reply::BadRequest));
}

#[test]
fn challenge_needs_both_submitted() {
    for n in [0i64, 1, 3] {
        let (f, _) = start(3);
        let (f, _) = f.step(claims("alice"));
        let (f, _) = f.step(Event::Count(0));
        let (f, a) = f.step(Event::Count(n));
        assert!(f.is_done());
        assert_eq!(a, Action::Reply(Reply::BadRequest));
    }
}

#[test]
fn challenge_ignores_an_outcome_of_another_kind() {
    let (f, a) = start(3);
    let (f, b) = f.step(Event::Clock(5));
    assert_eq!(a, b);
    assert!(!f.is_done());
}

#[test]
fn rated_and_server_formulas() {
    assert_eq!(rated(true, 1000, 1000, 2000), 1);
    assert_eq!(rated(true, 1999, 1000, 2000), 1);
    assert_eq!(rated(true, 2000, 1000, 2000), 0);
    assert_eq!(rated(true, 999, 1000, 2000), 0);
    assert_eq!(rated(false, 1500, 1000, 2000), 0);
    assert_eq!(server_for(5, 3), 2);
    assert_eq!(server_for(6, 3), 0);
    assert_eq!(server_for(5, -3), 2);
}
