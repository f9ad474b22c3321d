use beacon::ticket::{encode_ticket, respond_ticket, Ticket, TicketStore};

const T0: i64 = 1_700_000_000_000;

fn issue(store: &mut TicketStore, subject: u128, now: i64) -> Ticket {
    store
        .new_ticket(subject, String::from("SHA512:testprint"), now)
        .expect("nonce draws should not collide")
}

#[test]
fn valid_response_is_accepted_once() {
    let mut store = TicketStore::new();
    let ticket = issue(&mut store, 7, T0);
    let response = respond_ticket(&ticket);

    let first = store.take_response_ticket(&response, T0 + 1_000);
    let (subject, fingerprint) = first.expect("a fresh, correct response validates");
    assert_eq!(subject, 7);
    assert_eq!(fingerprint, "SHA512:testprint");

    // Replay: the same response a moment later finds nothing.
    let second = store.take_response_ticket(&response, T0 + 2_000);
    assert!(second.is_none());
    assert_eq!(store.len(), 0);
}

#[test]
fn expired_ticket_is_rejected_at_validation() {
    let mut store = TicketStore::new();
    let ticket = issue(&mut store, 9, T0);
    let response = respond_ticket(&ticket);

    // Eleven seconds after issuance the ticket is outside its window.
    let r = store.take_response_ticket(&response, T0 + 11_000);
    assert!(r.is_none());
}

#[test]
fn expired_ticket_is_removed_by_the_sweep() {
    let mut store = TicketStore::new();
    let stale = issue(&mut store, 1, T0);
    let fresh = issue(&mut store, 2, T0 + 55_000);
    assert_eq!(store.len(), 2);

    store.sweep(T0 + 60_000);
    assert_eq!(store.len(), 1);

    assert!(store
        .take_response_ticket(&respond_ticket(&stale), T0 + 60_001)
        .is_none());
    assert!(store
        .take_response_ticket(&respond_ticket(&fresh), T0 + 60_001)
        .is_some());
}

#[test]
fn only_the_decremented_nonce_validates() {
    let mut store = TicketStore::new();
    let ticket = issue(&mut store, 3, T0);

    let unchanged = Ticket { ..ticket };
    assert!(store.take_response_ticket(&unchanged, T0 + 1).is_none());

    let plus_one = Ticket {
        nonce: ticket.nonce.wrapping_add(1),
        ..ticket
    };
    assert!(store.take_response_ticket(&plus_one, T0 + 1).is_none());

    let minus_two = Ticket {
        nonce: ticket.nonce.wrapping_sub(2),
        ..ticket
    };
    assert!(store.take_response_ticket(&minus_two, T0 + 1).is_none());

    let minus_one = Ticket {
        nonce: ticket.nonce.wrapping_sub(1),
        ..ticket
    };
    assert!(store.take_response_ticket(&minus_one, T0 + 1).is_some());
}

#[test]
fn nonce_transformation_wraps_at_zero() {
    let issued = Ticket {
        nonce: 0,
        timestamp: T0,
        subject: 4,
    };
    let response = respond_ticket(&issued);
    assert_eq!(response.nonce, u128::MAX);

    let issued_max = Ticket {
        nonce: u128::MAX,
        timestamp: T0,
        subject: 4,
    };
    assert_eq!(respond_ticket(&issued_max).nonce, u128::MAX - 1);
}

#[test]
fn wrong_timestamp_or_subject_is_rejected() {
    let mut store = TicketStore::new();
    let ticket = issue(&mut store, 5, T0);

    let wrong_time = Ticket {
        timestamp: ticket.timestamp + 1,
        ..respond_ticket(&ticket)
    };
    assert!(store.take_response_ticket(&wrong_time, T0 + 1).is_none());

    let wrong_subject = Ticket {
        subject: 6,
        ..respond_ticket(&ticket)
    };
    assert!(store.take_response_ticket(&wrong_subject, T0 + 1).is_none());
}

#[test]
fn wire_form_is_canonical_json() {
    let ticket = Ticket {
        nonce: 12345678901234567890123456789,
        timestamp: -42,
        subject: 77,
    };
    assert_eq!(
        encode_ticket(&ticket),
        "{\"nonce\":12345678901234567890123456789,\"timestamp\":-42,\"subject\":77}"
    );
}
