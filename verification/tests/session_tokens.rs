use std::collections::HashSet;

use beacon::session::{session_cookie_values, SessionStore};
use beacon::token::SessionToken;
use beacon::user::{UserRecord, UserTable};

const T0: i64 = 1_700_000_000_000;
const WEEK: i64 = 604_800_000;

fn one_user_table() -> UserTable {
    let mut users = UserTable::new();
    users.insert(UserRecord {
        user_id: 11,
        username: String::from("alice"),
        password_hash: String::from("unused"),
        is_admin: false,
    });
    users
}

#[test]
fn tokens_are_distinct_and_64_hex_chars() {
    let mut store = SessionStore::new();
    let mut seen: HashSet<String> = HashSet::new();
    for _ in 0..50 {
        let info = store.create_session(11, T0, WEEK).expect("token draw");
        assert_eq!(info.token.raw().len(), 32);
        let hex = info.token.to_hex();
        assert_eq!(hex.len(), 64);
        assert!(hex.chars().all(|c| c.is_ascii_hexdigit()));
        assert!(seen.insert(hex), "token repeated across creations");
    }
    assert_eq!(store.len(), 50);
}

#[test]
fn token_hex_round_trips() {
    let token = SessionToken::from_bytes([0xab; 32]);
    let hex = token.to_hex();
    assert_eq!(hex, "ab".repeat(32));
    let back = SessionToken::parse_hex(&hex).expect("valid hex");
    assert_eq!(back.raw(), token.raw());

    let upper = hex.to_uppercase();
    let from_upper = SessionToken::parse_hex(&upper).expect("either case is valid");
    assert_eq!(from_upper.raw(), token.raw());

    assert!(SessionToken::parse_hex("").is_none());
    assert!(SessionToken::parse_hex("ab").is_none());
    assert!(SessionToken::parse_hex(&"zz".repeat(32)).is_none());
}

#[test]
fn validation_checks_window_and_token() {
    let users = one_user_table();
    let mut store = SessionStore::new();
    let info = store.create_session(11, T0, WEEK).expect("token draw");

    // Not yet valid at the issuance instant, valid just after, invalid
    // at and after expiry.
    assert!(store.validate_session(&users, &info.token, T0).is_none());
    let ctx = store
        .validate_session(&users, &info.token, T0 + 1)
        .expect("live session");
    assert_eq!(ctx.user_id, 11);
    assert_eq!(ctx.username, "alice");
    assert!(!ctx.is_admin);
    assert!(store
        .validate_session(&users, &info.token, T0 + WEEK)
        .is_none());
    assert!(store
        .validate_session(&users, &info.token, T0 + WEEK + 5)
        .is_none());

    let unknown = SessionToken::from_bytes([0x55; 32]);
    assert!(store.validate_session(&users, &unknown, T0 + 1).is_none());
}

#[test]
fn logout_removes_exactly_the_named_session() {
    let users = one_user_table();
    let mut store = SessionStore::new();
    let a = store.create_session(11, T0, WEEK).expect("token draw");
    let b = store.create_session(11, T0, WEEK).expect("token draw");

    store.remove_session(&a.token).expect("known session");
    assert!(store.validate_session(&users, &a.token, T0 + 1).is_none());
    assert!(store.validate_session(&users, &b.token, T0 + 1).is_some());

    // Removing it again is a storage-level fault.
    assert!(store.remove_session(&a.token).is_err());
}

#[test]
fn cookie_values_carry_token_and_user() {
    let mut store = SessionStore::new();
    let info = store.create_session(11, T0, WEEK).expect("token draw");
    let (token_value, user_value) = session_cookie_values(&info);
    assert_eq!(token_value, info.token.to_hex());
    assert_eq!(user_value, "11");
}

#[test]
fn request_authentication_goes_through_the_cookie() {
    let users = one_user_table();
    let mut store = SessionStore::new();
    let info = store.create_session(11, T0, WEEK).expect("token draw");
    let cookie = info.token.to_hex();

    let ctx = beacon::session::authenticate_request(&store, &users, &cookie, T0 + 1)
        .expect("valid cookie");
    assert_eq!(ctx.user_id, 11);

    assert!(beacon::session::authenticate_request(&store, &users, "not-hex", T0 + 1).is_none());
    assert!(beacon::session::authenticate_request(&store, &users, "", T0 + 1).is_none());
}
