use colledor::auth::Claims;
use colledor::flow::{Action, Body, Event, Query, Reply};
use colledor::info::{
    challenge_info, challenges_list, list_owner, submission_info, submission_owner,
    submissions_list, submitted_users, top_rating_history, users, Challenge, LookupFlow,
    RatingPoint, Submission, SubmissionInfoRequest, SubmissionsListRequest, UserRating,
};

const END: i64 = 2000;

fn claims(id: &str) -> Event {
    Event::Claims(Some(Claims { id: id.to_string(), exp: 99 }))
}

fn sub(id: i32, user: &str, source: &str) -> Submission {
    Submission { id, tim: "t".to_string(), user: user.to_string(), source: source.to_string() }
}

fn chal(id: i32, output: &str) -> Challenge {
    Challenge {
        id,
        rated: 1,
        tim: "t".to_string(),
        stat: "AC".to_string(),
        user1: "a".to_string(),
        user2: "b".to_string(),
        user1_score: "1".to_string(),
        user2_score: "0".to_string(),
        output: output.to_string(),
    }
}

fn info_query(user: &str, now: i64) -> Action {
    let (f, _) = submission_info(SubmissionInfoRequest { token: "t".to_string(), id: 7 }, END);
    let (f, _) = f.step(claims(user));
    let (_, a) = f.step(Event::Clock(now));
    a
}

#[test]
fn submission_info_during_contest_is_own_only() {
    assert_eq!(
        info_query("alice", 1999),
        Action::Db(Query::SubmissionById { id: 7, owner: Some("alice".to_string()) })
    );
    assert_eq!(info_query("admin", 1999), Action::Db(Query::SubmissionById { id: 7, owner: None }));
    assert_eq!(info_query("alice", 2000), Action::Db(Query::SubmissionById { id: 7, owner: None }));
}

#[test]
fn submission_info_answers_first_row_or_bad_request() {
    let (f, _) = submission_info(SubmissionInfoRequest { token: "t".to_string(), id: 7 }, END);
    let (f, _) = f.step(claims("alice"));
    let (f, _) = f.step(Event::Clock(5000));
    let (g, a) = f.clone().step(Event::Submissions(vec![sub(7, "bob", "src"), sub(8, "c", "x")]));
    assert!(g.is_done());
    assert_eq!(a, Action::Reply(Reply::Success(Body::Submission(sub(7, "bob", "src")))));
    let (g, a) = f.step(Event::Submissions(vec![]));
    assert!(g.is_done());
    assert_eq!(a, Action::Reply(Reply::BadRequest));
}

#[test]
fn submission_info_with_bad_token_is_unauthorized() {
    let (f, _) = submission_info(SubmissionInfoRequest { token: "t".to_string(), id: 7 }, END);
    let (f, a) = f.step(Event::Claims(None));
    assert!(f.is_done());
    assert_eq!(a, Action::Reply(Reply::Unauthorized));
}

fn list_query(user: &str, who: &str, now: i64) -> Action {
    let (f, a) = submissions_list(
        SubmissionsListRequest { token: "t".to_string(), user: who.to_string() },
        END,
    );
    assert_eq!(a, Action::DecodeToken("t".to_string()));
    let (f, _) = f.step(claims(user));
    let (_, a) = f.step(Event::Clock(now));
    a
}

#[test]
fn submissions_list_owner_rules() {
    let by = |u: Option<&str>| Action::Db(Query::SubmissionsBy { user: u.map(|s| s.to_string()) });
    assert_eq!(list_query("alice", "bob", 1000), by(Some("alice")));
    assert_eq!(list_query("alice", "all", 1000), by(Some("alice")));
    assert_eq!(list_query("admin", "bob", 1000), by(Some("bob")));
    assert_eq!(list_query("admin", "all", 1000), by(None));
    assert_eq!(list_query("alice", "bob", 2000), by(Some("bob")));
    assert_eq!(list_query("alice", "all", 3000), by(None));
}

#[test]
fn submissions_list_hides_sources() {
    let (f, _) = submissions_list(
        SubmissionsListRequest { token: "t".to_string(), user: "all".to_string() },
        END,
    );
    let (f, _) = f.step(claims("alice"));
    let (f, _) = f.step(Event::Clock(3000));
    let (f, a) = f.step(Event::Submissions(vec![sub(2, "b", "secret"), sub(1, "a", "code")]));
    assert!(f.is_done());
    assert_eq!(
        a,
        Action::Reply(Reply::Success(Body::Submissions(vec![sub(2, "b", ""), sub(1, "a", "")])))
    );
}

#[test]
fn owner_functions() {
    assert_eq!(submission_owner("x".to_string(), 1, 2), Some("x".to_string()));
    assert_eq!(submission_owner("admin".to_string(), 1, 2), None);
    assert_eq!(submission_owner("x".to_string(), 2, 2), None);
    assert_eq!(list_owner("x".to_string(), "all".to_string(), 3, 2), None);
    assert_eq!(list_owner("x".to_string(), "y".to_string(), 3, 2), Some("y".to_string()));
}

#[test]
fn challenge_info_by_parsed_id() {
    let (f, a) = challenge_info("15");
    assert_eq!(a, Action::Db(Query::ChallengeById { id: 15 }));
    let (g, a) = f.clone().step(Event::Challenges(vec![chal(15, "log")]));
    assert!(g.is_done());
    assert_eq!(a, Action::Reply(Reply::Success(Body::Challenge(chal(15, "log")))));
    let (_, a) = f.step(Event::Challenges(vec![]));
    assert_eq!(a, Action::Reply(Reply::BadRequest));
    assert_eq!(challenge_info("-3").0, LookupFlow::ChallengeById { id: -3 });
}

#[test]
fn challenges_list_hides_outputs() {
    let (f, a) = challenges_list("all".to_string());
    assert_eq!(a, Action::Db(Query::ChallengesOf { user: None }));
    let (_, a) = f.step(Event::Challenges(vec![chal(2, "x"), chal(1, "y")]));
    assert_eq!(a, Action::Reply(Reply::Success(Body::Challenges(vec![chal(2, ""), chal(1, "")]))));
    let (_, a) = challenges_list("bob".to_string());
    assert_eq!(a, Action::Db(Query::ChallengesOf { user: Some("bob".to_string()) }));
}

#[test]
fn user_and_history_lookups() {
    let rows = vec![UserRating { id: "a".to_string(), rating: 1500 }];
    let (f, a) = users();
    assert_eq!(a, Action::Db(Query::UsersByRating));
    let (f, b) = f.step(Event::Users(rows.clone()));
    assert!(f.is_done());
    assert_eq!(b, Action::Reply(Reply::Success(Body::Users(rows.clone()))));
    let (f, a) = submitted_users();
    assert_eq!(a, Action::Db(Query::SubmittedUsers));
    let (_, b) = f.step(Event::Users(rows.clone()));
    assert_eq!(b, Action::Reply(Reply::Success(Body::Users(rows))));
    let hist = vec![RatingPoint { tim_num: 1, user_id: "a".to_string(), rating: 1200 }];
    let (f, a) = top_rating_history();
    assert_eq!(a, Action::Db(Query::TopRatingHistory));
    let (f, same) = f.step(Event::Finished);
    assert_eq!(same, a);
    let (_, b) = f.step(Event::History(hist.clone()));
    assert_eq!(b, Action::Reply(Reply::Success(Body::History(hist))));
}

#[test]
fn acceptable_events() {
    assert!(Event::Clock(0).is_acceptable());
    assert!(!Event::Clock(-1).is_acceptable());
    assert!(!Event::Clock(colledor::misc::MAX_CLOCK + 1).is_acceptable());
    assert!(Event::Count(0).is_acceptable());
    assert!(!Event::Count(-1).is_acceptable());
    assert!(!Event::Count(i64::MAX).is_acceptable());
    assert!(Event::Finished.is_acceptable());
}
