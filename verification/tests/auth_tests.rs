use chatcore::auth::authorize_request;
use chatcore::auth::authorize_stream;
use chatcore::auth::create_jwt;
use chatcore::auth::login_user;
use chatcore::auth::register_user;
use chatcore::auth::validate_token;
use chatcore::errors::ApiError;
use chatcore::errors::AuthError;
use chatcore::models::LoginData;
use chatcore::models::RegisterData;
use chatcore::store::Store;

const SECRET: &[u8] = b"SECRET-REDACTED";
const NOW: u64 = 1_700_000_000;

fn alice() -> RegisterData {
    RegisterData {
        username: "alice".to_string(),
        email: "a@x".to_string(),
        password: "Aa1!aaaa".to_string(),
    }
}

#[test]
fn register_and_login_round_trip() {
    let mut store = Store::new();
    assert_eq!(register_user(&mut store, &alice()), Ok(()));
    assert_eq!(store.users.len(), 1);

    let token = login_user(
        &mut store,
        &LoginData { username: "alice".to_string(), password: "Aa1!aaaa".to_string() },
        SECRET,
        NOW,
    )
    .expect("login should succeed");
    assert_eq!(store.sessions.len(), 1);

    let user_id = store.users[0].id;
    assert_eq!(authorize_request(&store, &token, SECRET, NOW), Ok(user_id));
}

#[test]
fn duplicate_username_conflicts_and_adds_no_row() {
    let mut store = Store::new();
    assert_eq!(register_user(&mut store, &alice()), Ok(()));
    let again = RegisterData {
        username: "alice".to_string(),
        email: "other@x".to_string(),
        password: "Bb2?bbbb".to_string(),
    };
    assert_eq!(register_user(&mut store, &again), Err(ApiError::Conflict));
    assert_eq!(store.users.len(), 1);
}

#[test]
fn weak_password_is_rejected() {
    let mut store = Store::new();
    let weak = RegisterData {
        username: "alice".to_string(),
        email: "a@x".to_string(),
        password: "aaaaaaaa".to_string(),
    };
    assert_eq!(register_user(&mut store, &weak), Err(ApiError::Validation));
    assert_eq!(store.users.len(), 0);
}

#[test]
fn short_username_is_rejected() {
    let mut store = Store::new();
    let short = RegisterData {
        username: "al".to_string(),
        email: "a@x".to_string(),
        password: "Aa1!aaaa".to_string(),
    };
    assert_eq!(register_user(&mut store, &short), Err(ApiError::Validation));
}

#[test]
fn bad_email_is_rejected() {
    let mut store = Store::new();
    let bad = RegisterData {
        username: "alice".to_string(),
        email: "not-an-email".to_string(),
        password: "Aa1!aaaa".to_string(),
    };
    assert_eq!(register_user(&mut store, &bad), Err(ApiError::Validation));
}

#[test]
fn wrong_password_is_unauthorized() {
    let mut store = Store::new();
    register_user(&mut store, &alice()).unwrap();
    let r = login_user(
        &mut store,
        &LoginData { username: "alice".to_string(), password: "Wrong1!aa".to_string() },
        SECRET,
        NOW,
    );
    assert_eq!(r, Err(ApiError::Unauthorized));
    assert_eq!(store.sessions.len(), 0);
}

#[test]
fn unknown_user_is_unauthorized() {
    let mut store = Store::new();
    let r = login_user(
        &mut store,
        &LoginData { username: "nobody".to_string(), password: "Aa1!aaaa".to_string() },
        SECRET,
        NOW,
    );
    assert_eq!(r, Err(ApiError::Unauthorized));
}

#[test]
fn expired_session_is_refused() {
    let mut store = Store::new();
    register_user(&mut store, &alice()).unwrap();
    let user_id = store.users[0].id;
    let token = create_jwt(user_id, SECRET, NOW).expect("token");
    store.create_session(user_id, token.clone(), NOW - 1).unwrap();
    assert_eq!(
        authorize_request(&store, &token, SECRET, NOW),
        Err(AuthError::SessionExpired)
    );
}

#[test]
fn garbage_token_is_refused() {
    let store = Store::new();
    let token = "not.a.token".to_string();
    assert_eq!(
        authorize_request(&store, &token, SECRET, NOW),
        Err(AuthError::InvalidToken)
    );
}

#[test]
fn expired_claims_are_refused_by_decode() {
    let token = create_jwt(7, SECRET, NOW).expect("token");
    assert_eq!(validate_token(&token, SECRET, NOW), Some(7));
    assert_eq!(validate_token(&token, SECRET, NOW + 86_400), None);
}

#[test]
fn wrong_secret_is_refused() {
    let token = create_jwt(7, SECRET, NOW).expect("token");
    assert_eq!(validate_token(&token, b"other-secret", NOW), None);
}

#[test]
fn stream_gate_refuses_non_member() {
    let mut store = Store::new();
    register_user(&mut store, &alice()).unwrap();
    let token = login_user(
        &mut store,
        &LoginData { username: "alice".to_string(), password: "Aa1!aaaa".to_string() },
        SECRET,
        NOW,
    )
    .unwrap();
    let chat_id: u128 = 42;
    assert_eq!(
        authorize_stream(&store, &token, SECRET, chat_id, NOW),
        Err(AuthError::AccessDenied)
    );
}

#[test]
fn token_extraction_prefers_the_query_parameter() {
    let r = chatcore::auth::extract_token(
        Some("from-query".to_string()),
        Some("Bearer from-header".to_string()),
    );
    assert_eq!(r, Some("from-query".to_string()));
}

#[test]
fn token_extraction_strips_bearer_prefixes() {
    let r = chatcore::auth::extract_token(None, Some("Bearer abc".to_string()));
    assert_eq!(r, Some("abc".to_string()));
    let doubled = chatcore::auth::extract_token(None, Some("Bearer Bearer abc".to_string()));
    assert_eq!(doubled, Some("abc".to_string()));
    let bare = chatcore::auth::extract_token(None, Some("abc".to_string()));
    assert_eq!(bare, Some("abc".to_string()));
}

#[test]
fn token_extraction_with_nothing_yields_nothing() {
    assert_eq!(chatcore::auth::extract_token(None, None), None);
}
