use beacon::account::register_user;
use beacon::config::Config;
use beacon::password::{
    authenticate, authenticate_password, change_password, AuthenticateForm, PasswordAuthResult,
    PasswordChange,
};
use beacon::session::{AuthContext, SessionStore};
use beacon::throttle::FailureThrottle;
use beacon::user::UserTable;

const T0: i64 = 1_700_000_000_000;
const HOUR: i64 = 3_600_000;

fn form(username: &str, password: &str) -> AuthenticateForm {
    AuthenticateForm {
        username: String::from(username),
        password: String::from(password),
    }
}

fn registered_world() -> (UserTable, SessionStore, u128) {
    let config = Config::default();
    let mut users = UserTable::new();
    let mut sessions = SessionStore::new();
    let info = register_user(
        &config,
        &mut users,
        &mut sessions,
        String::from("alice"),
        String::from("correct horse"),
        T0 - HOUR,
    )
    .expect("registration succeeds");
    (users, sessions, info.user_id)
}

#[test]
fn failed_attempts_are_delayed_and_the_fourth_succeeds() {
    let (users, mut sessions, _uid) = registered_world();
    let mut throttle = FailureThrottle::new();

    for expected_delay in [100u64, 200, 300] {
        match authenticate_password(
            &users,
            &mut sessions,
            &mut throttle,
            &form("alice", "wrong password"),
            T0,
        ) {
            PasswordAuthResult::Rejected { delay_ms } => assert_eq!(delay_ms, expected_delay),
            _ => panic!("a wrong password must be rejected"),
        }
    }

    match authenticate_password(
        &users,
        &mut sessions,
        &mut throttle,
        &form("alice", "correct horse"),
        T0,
    ) {
        PasswordAuthResult::Authenticated(info) => {
            // One week: 604800 seconds.
            assert_eq!(info.valid_until - T0, 604_800_000);
        },
        _ => panic!("the correct password must authenticate"),
    }
}

#[test]
fn unknown_user_is_rejected_without_delay() {
    let (users, mut sessions, _uid) = registered_world();
    let mut throttle = FailureThrottle::new();
    match authenticate_password(
        &users,
        &mut sessions,
        &mut throttle,
        &form("nobody", "whatever"),
        T0,
    ) {
        PasswordAuthResult::Rejected { delay_ms } => assert_eq!(delay_ms, 0),
        _ => panic!("an unknown username must be rejected"),
    }
}

#[test]
fn delay_caps_at_two_seconds() {
    let (users, mut sessions, _uid) = registered_world();
    let mut throttle = FailureThrottle::new();
    let mut last_delay = 0;
    for _ in 0..25 {
        match authenticate_password(
            &users,
            &mut sessions,
            &mut throttle,
            &form("alice", "wrong password"),
            T0,
        ) {
            PasswordAuthResult::Rejected { delay_ms } => last_delay = delay_ms,
            _ => panic!("a wrong password must be rejected"),
        }
    }
    assert_eq!(last_delay, 2000);
}

#[test]
fn counter_restarts_after_an_hour_of_quiet() {
    let (users, mut sessions, _uid) = registered_world();
    let mut throttle = FailureThrottle::new();
    for _ in 0..5 {
        authenticate_password(
            &users,
            &mut sessions,
            &mut throttle,
            &form("alice", "wrong password"),
            T0,
        );
    }
    // More than an hour later the next failure counts as the first
    // again: the delay is 100 ms, not 600.
    match authenticate_password(
        &users,
        &mut sessions,
        &mut throttle,
        &form("alice", "wrong password"),
        T0 + HOUR + 1,
    ) {
        PasswordAuthResult::Rejected { delay_ms } => assert_eq!(delay_ms, 100),
        _ => panic!("a wrong password must be rejected"),
    }
}

#[test]
fn plain_authenticate_rejects_identically() {
    let (users, mut sessions, _uid) = registered_world();
    let unknown = authenticate(&users, &mut sessions, &form("nobody", "pw"), T0);
    let wrong = authenticate(&users, &mut sessions, &form("alice", "wrong"), T0);
    assert_eq!(unknown.unwrap_err(), wrong.unwrap_err());

    let info = authenticate(&users, &mut sessions, &form("alice", "correct horse"), T0)
        .expect("correct credentials");
    assert_eq!(info.valid_until - T0, 604_800_000);
}

#[test]
fn password_change_requires_the_current_password() {
    let (mut users, mut sessions, uid) = registered_world();
    let auth = AuthContext {
        user_id: uid,
        username: String::from("alice"),
        is_admin: false,
    };

    let wrong = change_password(
        &auth,
        &mut users,
        &mut sessions,
        uid,
        &PasswordChange {
            sender_current_password: String::from("not it"),
            target_new_password: String::from("next"),
        },
    );
    assert!(wrong.is_err());

    change_password(
        &auth,
        &mut users,
        &mut sessions,
        uid,
        &PasswordChange {
            sender_current_password: String::from("correct horse"),
            target_new_password: String::from("next"),
        },
    )
    .expect("correct current password");

    // Every prior session is gone, the old password fails, the new one
    // works.
    assert_eq!(sessions.len(), 0);
    assert!(authenticate(&users, &mut sessions, &form("alice", "correct horse"), T0).is_err());
    assert!(authenticate(&users, &mut sessions, &form("alice", "next"), T0).is_ok());
}

#[test]
fn password_change_is_restricted() {
    let (mut users, mut sessions, uid) = registered_world();
    let stranger = AuthContext {
        user_id: uid.wrapping_add(1),
        username: String::from("mallory"),
        is_admin: false,
    };
    let r = change_password(
        &stranger,
        &mut users,
        &mut sessions,
        uid,
        &PasswordChange {
            sender_current_password: String::from("correct horse"),
            target_new_password: String::from("next"),
        },
    );
    assert!(r.is_err());
    // The password still works.
    assert!(authenticate(&users, &mut sessions, &form("alice", "correct horse"), T0).is_ok());
}
