use board_api::api::auth::{
    authorize_user, authorize_user_optional, login_user, login_user_with_token, renew_token,
    renew_token_with, AddedTime, TokenStore, TOKEN_TTL_SECS,
};
use board_api::database::db::LoginResultError;

fn store_with(token: &str, user: u32, now: u64) -> TokenStore {
    let mut store = TokenStore::new();
    let reply = login_user_with_token(&mut store, Ok(user), token.to_string(), now);
    assert_eq!(reply.status, 200);
    store
}

#[test]
fn added_time_expires_one_ttl_later() {
    let stamped = AddedTime::new(7u32, 1_000);
    assert_eq!(stamped.data, 7);
    assert_eq!(stamped.added_time, 1_000 + 3_600);
    assert_eq!(TOKEN_TTL_SECS, 3_600);
}

#[test]
fn login_then_authorize_gives_the_user() {
    let store = store_with("tok-1", 42, 10);
    let user = authorize_user(&store, "tok-1");
    assert!(matches!(user, Ok(42)));
}

#[test]
fn login_reply_carries_the_token() {
    let mut store = TokenStore::new();
    let reply = login_user_with_token(&mut store, Ok(5), "abc".to_string(), 0);
    assert_eq!(reply.status, 200);
    assert!(reply.json);
    assert_eq!(reply.body, "{\"token\":\"abc\"}");
}

#[test]
fn login_with_fresh_token_hands_out_a_uuid() {
    let mut store = TokenStore::new();
    let reply = login_user(&mut store, Ok(9), 100);
    assert_eq!(reply.status, 200);
    // {"token":"xxxxxxxx-xxxx-xxxx-xxxx-xxxxxxxxxxxx"}
    assert_eq!(reply.body.len(), 10 + 36 + 2);
    let token = &reply.body[10..46];
    assert_eq!(token.matches('-').count(), 4);
    assert_eq!(&token[14..15], "4");
    assert!(["8", "9", "a", "b"].contains(&&token[19..20]));
    assert!(token.chars().all(|c| c == '-' || c.is_ascii_digit() || ('a'..='f').contains(&c)));
    assert!(matches!(authorize_user(&store, token), Ok(9)));
    assert_eq!(store.get(token).map(|e| e.added_time), Some(3_700));
}

#[test]
fn two_logins_get_different_tokens() {
    let mut store = TokenStore::new();
    let first = login_user(&mut store, Ok(1), 0);
    let second = login_user(&mut store, Ok(1), 0);
    assert_ne!(first.body, second.body);
}

#[test]
fn failed_logins_change_no_session() {
    let mut store = store_with("tok", 3, 0);
    let reply = login_user(&mut store, Err(LoginResultError::InvalidUsernamePassword), 0);
    assert_eq!(reply.status, 400);
    assert_eq!(reply.body, "{\"error\":\"invalid username or password\"}");
    let reply = login_user(&mut store, Err(LoginResultError::SqlError("gone".to_string())), 0);
    assert_eq!(reply.status, 500);
    assert_eq!(reply.body, "{\"error\":\"internal error\"}");
    assert!(matches!(authorize_user(&store, "tok"), Ok(3)));
    assert!(store.get("other").is_none());
}

#[test]
fn unknown_token_is_unauthorized() {
    let store = store_with("tok", 3, 0);
    match authorize_user(&store, "nope") {
        Ok(_) => panic!("an unknown token authorized a user"),
        Err(reply) => {
            assert_eq!(reply.status, 401);
            assert!(reply.json);
            assert_eq!(reply.body, "{\"error\":\"unauthorized\"}");
        },
    }
}

#[test]
fn optional_authorization() {
    let store = store_with("tok", 8, 0);
    assert!(matches!(authorize_user_optional(&store, None), Ok(None)));
    assert!(matches!(authorize_user_optional(&store, Some("tok".to_string())), Ok(Some(8))));
    match authorize_user_optional(&store, Some("bad".to_string())) {
        Err(reply) => assert_eq!(reply.status, 401),
        Ok(_) => panic!("a bad token was accepted"),
    }
}

#[test]
fn renew_moves_the_session_and_keeps_its_expiry() {
    let mut store = store_with("old", 11, 500);
    let reply = renew_token_with(&mut store, "old".to_string(), "new".to_string());
    assert_eq!(reply.status, 200);
    assert_eq!(reply.body, "{\"token\":\"new\"}");
    assert!(authorize_user(&store, "old").is_err());
    assert!(matches!(authorize_user(&store, "new"), Ok(11)));
    assert_eq!(store.get("new").map(|e| e.added_time), Some(500 + 3_600));
}

#[test]
fn renew_with_a_fresh_token() {
    let mut store = store_with("old", 11, 0);
    let reply = renew_token(&mut store, "old".to_string());
    assert_eq!(reply.status, 200);
    let token = &reply.body[10..46];
    assert!(matches!(authorize_user(&store, token), Ok(11)));
    assert!(authorize_user(&store, "old").is_err());
}

#[test]
fn renew_of_unknown_token_is_refused() {
    let mut store = store_with("tok", 1, 0);
    let reply = renew_token(&mut store, "missing".to_string());
    assert_eq!(reply.status, 401);
    assert_eq!(reply.body, "{\"error\":\"unauthorized\"}");
    assert!(matches!(authorize_user(&store, "tok"), Ok(1)));
    assert!(store.get("missing").is_none());
}

#[test]
fn token_lives_for_the_ttl() {
    let mut store = store_with("tok", 4, 1_000);
    store.remove_expired(1_000 + 3_599);
    assert!(matches!(authorize_user(&store, "tok"), Ok(4)));
    store.remove_expired(1_000 + 3_600);
    assert!(authorize_user(&store, "tok").is_err());
}

#[test]
fn token_expiring_at_cleanup_time_is_removed() {
    let mut store = store_with("tok", 4, 0);
    store.remove_expired(3_600);
    assert!(store.get("tok").is_none());
}

#[test]
fn cleanup_keeps_exactly_the_live_tokens() {
    let mut store = TokenStore::new();
    login_user_with_token(&mut store, Ok(1), "a".to_string(), 0);
    login_user_with_token(&mut store, Ok(2), "b".to_string(), 100);
    login_user_with_token(&mut store, Ok(3), "c".to_string(), 200);
    store.remove_expired(3_650);
    assert!(store.get("a").is_none());
    assert!(matches!(authorize_user(&store, "b"), Ok(2)));
    assert!(matches!(authorize_user(&store, "c"), Ok(3)));
    store.remove_expired(3_650);
    assert!(store.get("a").is_none());
    assert!(store.get("b").is_some());
    store.remove_expired(10_000);
    assert!(store.get("b").is_none());
    assert!(store.get("c").is_none());
}

#[test]
fn store_insert_get_remove() {
    let mut store = TokenStore::new();
    store.insert("k".to_string(), AddedTime::new(1, 0));
    store.insert("k".to_string(), AddedTime::new(2, 5));
    assert_eq!(store.get("k").map(|e| e.data), Some(2));
    let removed = store.remove(&"k".to_string());
    assert_eq!(removed.map(|e| e.added_time), Some(3_605));
    assert!(store.get("k").is_none());
    assert!(store.remove(&"k".to_string()).is_none());
}
