//! The two-step public-key challenge protocol: it proves possession of
//! a registered private key without the key ever crossing the wire.

use vstd::prelude::*;
use crate::error::ApiError;
use crate::keys::{key_for, KeyAlg, KeyRegistry, rsa_encrypt_openssh};
use crate::session::{session_with_token, SessionInfo, SessionRecord, SessionStore, MINUTE_MS};
use crate::ticket::{
    encode_ticket, response_accepted, spec_recover_ticket, ticket_entry, Ticket, TicketEntry,
    TicketStore,
};
use crate::user::{user_with_name, UserTable};

verus! {

/// Step one: looks up the registered key named by a username and a
/// fingerprint, mints a ticket bound to that user, and returns the
/// ticket's wire form encrypted to the key. An unknown user and an
/// unknown fingerprint are rejected identically; a registered key whose
/// algorithm cannot carry the challenge is refused distinctly.
pub fn begin_challenge(
    users: &UserTable,
    keys: &KeyRegistry,
    tickets: &mut TicketStore,
    username: &str,
    fingerprint: &str,
    now: i64,
) -> (r: Result<Vec<u8>, ApiError>)
    requires
        old(tickets).wf(),
    ensures
        final(tickets).wf(),
        user_with_name(users@, username@) is None ==> r == Err::<Vec<u8>, ApiError>(
            ApiError::Unauthenticated,
        ) && final(tickets)@ == old(tickets)@,
        user_with_name(users@, username@) matches Some(u) ==> ({
            &&& key_for(keys@, u.user_id, fingerprint@) is None ==> r == Err::<Vec<u8>, ApiError>(
                ApiError::Unauthenticated,
            ) && final(tickets)@ == old(tickets)@
            &&& key_for(keys@, u.user_id, fingerprint@) matches Some(k) ==> ({
                &&& k.algorithm != KeyAlg::Rsa ==> r == Err::<Vec<u8>, ApiError>(
                    ApiError::UnsupportedAlgorithm,
                ) && final(tickets)@ == old(tickets)@
                &&& k.algorithm == KeyAlg::Rsa ==> ({
                    &&& r is Ok || r == Err::<Vec<u8>, ApiError>(ApiError::Internal)
                    &&& r is Ok ==> (exists|t: Ticket|
                        {
                            &&& t.subject == u.user_id
                            &&& t.timestamp == now
                            &&& ticket_entry(old(tickets)@, t) is None
                            &&& final(tickets)@ == old(tickets)@.push(
                                (TicketEntry { ticket: t, fingerprint: k.fingerprint }),
                            )
                        })
                    &&& r is Err ==> (final(tickets)@ == old(tickets)@ || (exists|t: Ticket|
                        {
                            &&& t.subject == u.user_id
                            &&& t.timestamp == now
                            &&& ticket_entry(old(tickets)@, t) is None
                            &&& final(tickets)@ == old(tickets)@.push(
                                (TicketEntry { ticket: t, fingerprint: k.fingerprint }),
                            )
                        }))
                })
            })
        }),
{
    let user = match users.find_by_name(username) {
        Some(u) => u,
        None => {
            return Err(ApiError::Unauthenticated);
        },
    };
    let key = match keys.find(user.user_id, fingerprint) {
        Some(k) => k,
        None => {
            return Err(ApiError::Unauthenticated);
        },
    };
    match key.algorithm {
        KeyAlg::Rsa => {},
        KeyAlg::Other => {
            return Err(ApiError::UnsupportedAlgorithm);
        },
    }
    let ticket = match tickets.new_ticket(user.user_id, key.fingerprint.clone(), now) {
        Ok(t) => t,
        Err(_) => {
            return Err(ApiError::Internal);
        },
    };
    let wire = encode_ticket(&ticket);
    match rsa_encrypt_openssh(key.openssh.as_str(), wire.as_str()) {
        Some(cipher) => Ok(cipher),
        None => Err(ApiError::Internal),
    }
}

/// Step two: takes the response ticket a client derived from the
/// decrypted original, consumes the stored ticket it stands for,
/// re-checks that the bound key registration still exists, and mints a
/// short-lived session. An unknown, expired or replayed ticket and a
/// revoked key are rejected identically.
pub fn complete_challenge(
    users: &UserTable,
    keys: &KeyRegistry,
    tickets: &mut TicketStore,
    sessions: &mut SessionStore,
    response: &Ticket,
    now: i64,
) -> (r: Result<SessionInfo, ApiError>)
    requires
        old(tickets).wf(),
        old(sessions).wf(),
        0 <= now <= i64::MAX - MINUTE_MS,
    ensures
        final(tickets).wf(),
        final(sessions).wf(),
        !response_accepted(old(tickets)@, *response, now) ==> r == Err::<SessionInfo, ApiError>(
            ApiError::Unauthenticated,
        ) && final(tickets)@ == old(tickets)@ && final(sessions)@ == old(sessions)@,
        response_accepted(old(tickets)@, *response, now) ==> ({
            &&& ticket_entry(final(tickets)@, spec_recover_ticket(*response)) is None
            &&& forall|t2: Ticket|
                t2 != spec_recover_ticket(*response) ==> ticket_entry(final(tickets)@, t2)
                    == ticket_entry(old(tickets)@, t2)
            &&& ticket_entry(old(tickets)@, spec_recover_ticket(*response)) matches Some(e) ==> ({
                &&& key_for(
                    keys@,
                    spec_recover_ticket(*response).subject,
                    e.fingerprint@,
                ) is None ==> r == Err::<SessionInfo, ApiError>(ApiError::Unauthenticated)
                    && final(sessions)@ == old(sessions)@
                &&& key_for(
                    keys@,
                    spec_recover_ticket(*response).subject,
                    e.fingerprint@,
                ) is Some ==> ({
                    &&& r is Ok || r == Err::<SessionInfo, ApiError>(ApiError::Internal)
                    &&& r is Err ==> final(sessions)@ == old(sessions)@
                    &&& r matches Ok(info) ==> ({
                        &&& info.user_id == spec_recover_ticket(*response).subject
                        &&& info.valid_until == now + MINUTE_MS
                        &&& session_with_token(old(sessions)@, info.token@) is None
                        &&& final(sessions)@ == old(sessions)@.push(
                            (SessionRecord {
                                token: info.token,
                                user_id: spec_recover_ticket(*response).subject,
                                issued_at: now,
                                expires_on: (now + MINUTE_MS) as i64,
                            }),
                        )
                    })
                })
            })
        }),
{
    let (subject, fingerprint) = match tickets.take_response_ticket(response, now) {
        Some(p) => p,
        None => {
            return Err(ApiError::Unauthenticated);
        },
    };
    if keys.find(subject, fingerprint.as_str()).is_none() {
        return Err(ApiError::Unauthenticated);
    }
    match sessions.create_session(subject, now, MINUTE_MS) {
        Ok(info) => Ok(info),
        Err(_) => Err(ApiError::Internal),
    }
}

} // verus!
