use beacon::account::{
    delete_user, is_admin_of, list_users, register_user, rename_user, user_id_by_name,
    user_overview,
};
use beacon::config::{Config, PublicConfig};
use beacon::error::ApiError;
use beacon::filedb::FileDb;
use beacon::session::{AuthContext, SessionStore};
use beacon::user::UserTable;

const T0: i64 = 1_700_000_000_000;

fn ctx(user_id: u128, is_admin: bool) -> AuthContext {
    AuthContext {
        user_id,
        username: String::from("someone"),
        is_admin,
    }
}

#[test]
fn registration_respects_config_and_uniqueness() {
    let mut users = UserTable::new();
    let mut sessions = SessionStore::new();

    let closed = Config {
        public_config: PublicConfig {
            allow_registering: false,
            disable_invite_codes: false,
        },
    };
    let refused = register_user(
        &closed,
        &mut users,
        &mut sessions,
        String::from("alice"),
        String::from("pw"),
        T0,
    );
    assert_eq!(refused.unwrap_err(), ApiError::Forbidden);

    let open = Config::default();
    let info = register_user(
        &open,
        &mut users,
        &mut sessions,
        String::from("alice"),
        String::from("pw"),
        T0,
    )
    .expect("registration succeeds");
    // Two weeks for a registration session.
    assert_eq!(info.valid_until - T0, 1_209_600_000);
    assert_eq!(sessions.len(), 1);

    let taken = register_user(
        &open,
        &mut users,
        &mut sessions,
        String::from("alice"),
        String::from("other"),
        T0,
    );
    assert_eq!(taken.unwrap_err(), ApiError::Conflict);
}

#[test]
fn renaming_requires_rights_and_a_free_name() {
    let mut users = UserTable::new();
    let mut sessions = SessionStore::new();
    let config = Config::default();
    let alice = register_user(
        &config,
        &mut users,
        &mut sessions,
        String::from("alice"),
        String::from("pw"),
        T0,
    )
    .expect("registration");
    register_user(
        &config,
        &mut users,
        &mut sessions,
        String::from("bob"),
        String::from("pw"),
        T0,
    )
    .expect("registration");

    let stranger = rename_user(
        &ctx(777, false),
        &mut users,
        alice.user_id,
        String::from("eve"),
    );
    assert_eq!(stranger.unwrap_err(), ApiError::Forbidden);

    let taken = rename_user(
        &ctx(alice.user_id, false),
        &mut users,
        alice.user_id,
        String::from("bob"),
    );
    assert_eq!(taken.unwrap_err(), ApiError::Conflict);

    // Renaming to the name already held also answers "taken".
    let own = rename_user(
        &ctx(alice.user_id, false),
        &mut users,
        alice.user_id,
        String::from("alice"),
    );
    assert_eq!(own.unwrap_err(), ApiError::Conflict);

    rename_user(
        &ctx(alice.user_id, false),
        &mut users,
        alice.user_id,
        String::from("alicia"),
    )
    .expect("free name");
    assert!(user_id_by_name(&users, "alice").is_err());
    assert_eq!(user_id_by_name(&users, "alicia").expect("renamed"), alice.user_id);
}

#[test]
fn deleting_an_account_takes_its_files_along() {
    let mut users = UserTable::new();
    let mut sessions = SessionStore::new();
    let mut files = FileDb::new();
    let config = Config::default();
    let alice = register_user(
        &config,
        &mut users,
        &mut sessions,
        String::from("alice"),
        String::from("pw"),
        T0,
    )
    .expect("registration");
    let bob = register_user(
        &config,
        &mut users,
        &mut sessions,
        String::from("bob"),
        String::from("pw"),
        T0,
    )
    .expect("registration");

    let hers = files
        .create(alice.user_id, String::from("a.txt"), vec![1u8; 3], T0)
        .expect("create");
    let his = files
        .create(bob.user_id, String::from("b.txt"), vec![2u8; 3], T0)
        .expect("create");

    let refused = delete_user(&ctx(bob.user_id, false), &mut users, &mut files, alice.user_id);
    assert_eq!(refused.unwrap_err(), ApiError::Forbidden);

    delete_user(&ctx(alice.user_id, false), &mut users, &mut files, alice.user_id)
        .expect("self-deletion");
    assert!(user_id_by_name(&users, "alice").is_err());
    assert!(files.file_info(hers.file_id).is_none());
    assert!(files.content(hers.file_id, "a.txt").is_none());
    assert!(files.file_info(his.file_id).is_some());
}

#[test]
fn listings_and_profiles_report_storage() {
    let mut users = UserTable::new();
    let mut sessions = SessionStore::new();
    let mut files = FileDb::new();
    let config = Config::default();
    let alice = register_user(
        &config,
        &mut users,
        &mut sessions,
        String::from("alice"),
        String::from("pw"),
        T0,
    )
    .expect("registration");
    files
        .create(alice.user_id, String::from("a.txt"), vec![1u8; 123], T0)
        .expect("create");

    let profile = user_overview(&users, &files, alice.user_id).expect("known user");
    assert_eq!(profile.username, "alice");
    assert_eq!(profile.total_storage_space, 123);
    assert_eq!(
        user_overview(&users, &files, 424242).unwrap_err(),
        ApiError::NotFound
    );

    let denied = list_users(&ctx(alice.user_id, false), &users, &files);
    assert_eq!(denied.unwrap_err(), ApiError::Forbidden);
    let listed = list_users(&ctx(9, true), &users, &files).expect("administrators may list");
    assert_eq!(listed.len(), 1);
    assert_eq!(listed[0].total_storage_space, 123);

    assert_eq!(
        is_admin_of(&ctx(alice.user_id, false), &users, alice.user_id).expect("own flag"),
        false
    );
    assert_eq!(
        is_admin_of(&ctx(8, false), &users, alice.user_id).unwrap_err(),
        ApiError::Forbidden
    );
}
