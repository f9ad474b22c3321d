use beacon::challenge::{begin_challenge, complete_challenge};
use beacon::error::ApiError;
use beacon::keys::KeyRegistry;
use beacon::session::{AuthContext, SessionStore};
use beacon::ticket::{respond_ticket, Ticket, TicketStore};
use beacon::user::{UserRecord, UserTable};

use rsa::{Pkcs1v15Encrypt, RsaPrivateKey, RsaPublicKey};
use ssh_key::public::{Ed25519PublicKey, KeyData};
use ssh_key::PublicKey;

const T0: i64 = 1_700_000_000_000;
const ALICE: u128 = 0xa11ce;

fn world() -> (UserTable, KeyRegistry, TicketStore, SessionStore) {
    let mut users = UserTable::new();
    users.insert(UserRecord {
        user_id: ALICE,
        username: String::from("alice"),
        password_hash: String::from("unused"),
        is_admin: false,
    });
    (
        users,
        KeyRegistry::new(),
        TicketStore::new(),
        SessionStore::new(),
    )
}

fn alice_auth() -> AuthContext {
    AuthContext {
        user_id: ALICE,
        username: String::from("alice"),
        is_admin: false,
    }
}

fn rsa_keypair() -> (RsaPrivateKey, String) {
    let mut rng = rand::thread_rng();
    let private = RsaPrivateKey::new(&mut rng, 2048).expect("key generation");
    let public = RsaPublicKey::from(&private);
    let ssh_public =
        ssh_key::public::RsaPublicKey::try_from(public).expect("convertible public key");
    let openssh = PublicKey::new(KeyData::Rsa(ssh_public), "alice@example")
        .to_openssh()
        .expect("encodable key");
    (private, openssh)
}

fn ed25519_openssh() -> String {
    PublicKey::new(KeyData::Ed25519(Ed25519PublicKey([7u8; 32])), "alice@example")
        .to_openssh()
        .expect("encodable key")
}

fn parse_wire_ticket(text: &str) -> Ticket {
    let nonce_start = text.find("\"nonce\":").expect("nonce field") + 8;
    let nonce_end = text[nonce_start..].find(',').expect("comma") + nonce_start;
    let ts_start = text.find("\"timestamp\":").expect("timestamp field") + 12;
    let ts_end = text[ts_start..].find(',').expect("comma") + ts_start;
    let subject_start = text.find("\"subject\":").expect("subject field") + 10;
    let subject_end = text[subject_start..].find('}').expect("brace") + subject_start;
    Ticket {
        nonce: text[nonce_start..nonce_end].parse().expect("nonce number"),
        timestamp: text[ts_start..ts_end].parse().expect("timestamp number"),
        subject: text[subject_start..subject_end]
            .parse()
            .expect("subject number"),
    }
}

#[test]
fn rsa_challenge_round_trip_mints_a_short_session() {
    let (users, mut keys, mut tickets, mut sessions) = world();
    let (private, openssh) = rsa_keypair();
    keys.add_key(
        &alice_auth(),
        &users,
        ALICE,
        String::from("laptop"),
        openssh,
        T0 - 1_000,
    )
    .expect("key registration");
    let listed = keys.keys_of_user(&alice_auth(), ALICE).expect("own keys");
    let fingerprint = listed[0].fingerprint.clone();
    assert!(fingerprint.starts_with("SHA512:"));

    let cipher = begin_challenge(&users, &keys, &mut tickets, "alice", &fingerprint, T0)
        .expect("step one succeeds for a registered RSA key");

    // The client proves possession by decrypting and transforming the
    // nonce.
    let plain = private
        .decrypt(Pkcs1v15Encrypt, &cipher)
        .expect("the holder of the private key can decrypt");
    let issued = parse_wire_ticket(std::str::from_utf8(&plain).expect("utf-8 wire form"));
    assert_eq!(issued.subject, ALICE);
    assert_eq!(issued.timestamp, T0);
    let response = respond_ticket(&issued);

    let info = complete_challenge(&users, &keys, &mut tickets, &mut sessions, &response, T0 + 500)
        .expect("step two accepts the derived response");
    assert_eq!(info.user_id, ALICE);
    // One minute only: this session bootstraps a full one.
    assert_eq!(info.valid_until, T0 + 500 + 60_000);

    // The ticket was consumed: the same response replays to a rejection.
    let replay = complete_challenge(&users, &keys, &mut tickets, &mut sessions, &response, T0 + 600);
    assert_eq!(replay.unwrap_err(), ApiError::Unauthenticated);
}

#[test]
fn ed25519_only_key_gets_the_unsupported_algorithm_answer() {
    let (users, mut keys, mut tickets, _sessions) = world();
    keys.add_key(
        &alice_auth(),
        &users,
        ALICE,
        String::from("yubikey"),
        ed25519_openssh(),
        T0 - 1_000,
    )
    .expect("any readable key may be registered");
    let listed = keys.keys_of_user(&alice_auth(), ALICE).expect("own keys");
    let fingerprint = listed[0].fingerprint.clone();

    let r = begin_challenge(&users, &keys, &mut tickets, "alice", &fingerprint, T0);
    assert_eq!(r.unwrap_err(), ApiError::UnsupportedAlgorithm);
    assert_eq!(tickets.len(), 0);
}

#[test]
fn unknown_user_and_unknown_fingerprint_are_rejected_alike() {
    let (users, mut keys, mut tickets, _sessions) = world();
    let (_private, openssh) = rsa_keypair();
    keys.add_key(
        &alice_auth(),
        &users,
        ALICE,
        String::from("laptop"),
        openssh,
        T0,
    )
    .expect("key registration");
    let listed = keys.keys_of_user(&alice_auth(), ALICE).expect("own keys");
    let fingerprint = listed[0].fingerprint.clone();

    let unknown_user = begin_challenge(&users, &keys, &mut tickets, "bob", &fingerprint, T0);
    let unknown_print = begin_challenge(&users, &keys, &mut tickets, "alice", "SHA512:nope", T0);
    assert_eq!(unknown_user.unwrap_err(), ApiError::Unauthenticated);
    assert_eq!(unknown_print.unwrap_err(), ApiError::Unauthenticated);
}

#[test]
fn revoked_key_fails_step_two() {
    let (users, mut keys, mut tickets, mut sessions) = world();
    let (private, openssh) = rsa_keypair();
    keys.add_key(
        &alice_auth(),
        &users,
        ALICE,
        String::from("laptop"),
        openssh,
        T0,
    )
    .expect("key registration");
    let listed = keys.keys_of_user(&alice_auth(), ALICE).expect("own keys");
    let fingerprint = listed[0].fingerprint.clone();

    let cipher = begin_challenge(&users, &keys, &mut tickets, "alice", &fingerprint, T0)
        .expect("step one");
    let plain = private.decrypt(Pkcs1v15Encrypt, &cipher).expect("decrypt");
    let issued = parse_wire_ticket(std::str::from_utf8(&plain).expect("utf-8"));
    let response = respond_ticket(&issued);

    // The key is revoked between the steps.
    keys.remove_key(&alice_auth(), ALICE, &fingerprint)
        .expect("own key may be removed");

    let r = complete_challenge(&users, &keys, &mut tickets, &mut sessions, &response, T0 + 500);
    assert_eq!(r.unwrap_err(), ApiError::Unauthenticated);
    assert_eq!(sessions.len(), 0);
}

#[test]
fn duplicate_key_registration_conflicts() {
    let (users, mut keys, _tickets, _sessions) = world();
    let (_private, openssh) = rsa_keypair();
    keys.add_key(
        &alice_auth(),
        &users,
        ALICE,
        String::from("laptop"),
        openssh.clone(),
        T0,
    )
    .expect("first registration");
    let again = keys.add_key(
        &alice_auth(),
        &users,
        ALICE,
        String::from("laptop again"),
        openssh,
        T0 + 1,
    );
    assert_eq!(again.unwrap_err(), ApiError::Conflict);

    let unreadable = keys.add_key(
        &alice_auth(),
        &users,
        ALICE,
        String::from("garbage"),
        String::from("not a key"),
        T0 + 2,
    );
    assert_eq!(unreadable.unwrap_err(), ApiError::UnsupportedAlgorithm);
}
