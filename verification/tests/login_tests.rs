use colledor::auth::{login, password_hash, Claims, LoginCredential, LoginFlow};
use colledor::flow::{Action, Body, Event, Query, Reply};

fn cred() -> LoginCredential {
    LoginCredential { id: "alice".to_string(), pw: "password".to_string() }
}

#[test]
fn login_asks_for_matching_users_with_hashed_password() {
    let (_, a) = login(cred());
    assert_eq!(
        a,
        Action::Db(Query::CountCredentialMatches {
            id: "alice".to_string(),
            pw_hash: "5f4dcc3b5aa765d61d8327deb882cf99".to_string(),
        })
    );
}

#[test]
fn login_with_one_match_signs_a_token() {
    let (f, _) = login(cred());
    let (f, a) = f.step(Event::Count(1));
    assert_eq!(a, Action::ReadClock);
    let (f, a) = f.step(Event::Clock(1_600_000_000));
    assert_eq!(a, Action::SignToken(Claims { id: "alice".to_string(), exp: 1_608_640_000 }));
    let (f, a) = f.step(Event::Token("tok".to_string()));
    assert!(f.is_done());
    assert_eq!(a, Action::Reply(Reply::Success(Body::Token("tok".to_string()))));
}

#[test]
fn login_without_exactly_one_match_is_unauthorized() {
    for n in [0i64, 2, 5] {
        let (f, _) = login(cred());
        let (f, a) = f.step(Event::Count(n));
        assert!(f.is_done());
        assert_eq!(a, Action::Reply(Reply::Unauthorized));
    }
}

#[test]
fn login_ignores_an_outcome_of_another_kind() {
    let (f, first) = login(cred());
    let (f, a) = f.step(Event::Finished);
    assert_eq!(a, first);
    assert!(matches!(f, LoginFlow::Checking { .. }));
    let (f, _) = f.step(Event::Count(1));
    let (f, a) = f.step(Event::Count(3));
    assert_eq!(a, Action::ReadClock);
    assert_eq!(f, LoginFlow::Stamping { id: "alice".to_string() });
}

#[test]
fn login_hash_matches_password_hash() {
    let (f, _) = login(LoginCredential { id: "x".to_string(), pw: "secret".to_string() });
    assert_eq!(f, LoginFlow::Checking { id: "x".to_string(), pw_hash: password_hash("secret") });
}
