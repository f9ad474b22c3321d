//! Password authentication: the credential lookup, the memory-hard
//! verification, the failure throttle, and the session it mints.

use vstd::prelude::*;
use crate::error::ApiError;
use crate::passhash::{hash_password, password_matches, phc_matches};
use crate::session::{
    session_with_token, AuthContext, SessionInfo, SessionRecord, SessionStore, WEEK_MS,
};
use crate::throttle::{
    failure_for, next_failure_count, next_first_failure, throttle_delay_ms, FailureEntry,
    FailureThrottle,
};
use crate::user::{user_with_id, user_with_name, UserTable};

verus! {

/// A login request: a username and a plaintext password.
pub struct AuthenticateForm {
    pub username: String,
    pub password: String,
}

/// What a password authentication attempt came to.
#[derive(Debug)]
pub enum PasswordAuthResult {
    /// The password matched; a week-long session was created.
    Authenticated(SessionInfo),
    /// The credentials were rejected. The caller must let `delay_ms`
    /// elapse, measured from when the request arrived, before answering.
    Rejected { delay_ms: u64 },
    /// The session store failed; nothing about the credentials is implied.
    Failed,
}

/// Authenticates a username and password without throttling, as the
/// plain login endpoint does: an unknown username and a wrong password
/// are rejected identically.
pub fn authenticate(
    users: &UserTable,
    sessions: &mut SessionStore,
    form: &AuthenticateForm,
    now: i64,
) -> (r: Result<SessionInfo, ApiError>)
    requires
        old(sessions).wf(),
        0 <= now <= i64::MAX - WEEK_MS,
    ensures
        final(sessions).wf(),
        user_with_name(users@, form.username@) is None ==> r == Err::<SessionInfo, ApiError>(
            ApiError::Unauthenticated,
        ) && final(sessions)@ == old(sessions)@,
        user_with_name(users@, form.username@) matches Some(u) ==> (!phc_matches(
            form.password@,
            u.password_hash@,
        ) ==> r == Err::<SessionInfo, ApiError>(ApiError::Unauthenticated) && final(sessions)@
            == old(sessions)@),
        r matches Ok(info) ==> ({
            &&& user_with_name(users@, form.username@) matches Some(u)
            &&& phc_matches(form.password@, u.password_hash@)
            &&& info.user_id == u.user_id
            &&& info.valid_until == now + WEEK_MS
            &&& session_with_token(old(sessions)@, info.token@) is None
            &&& final(sessions)@ == old(sessions)@.push(
                (SessionRecord {
                    token: info.token,
                    user_id: u.user_id,
                    issued_at: now,
                    expires_on: (now + WEEK_MS) as i64,
                }),
            )
        }),
        r matches Err(e) ==> (e == ApiError::Unauthenticated || e == ApiError::Internal),
        r == Err::<SessionInfo, ApiError>(ApiError::Internal) ==> ({
            &&& user_with_name(users@, form.username@) matches Some(u)
            &&& phc_matches(form.password@, u.password_hash@)
            &&& final(sessions)@ == old(sessions)@
        }),
{
    let user = match users.find_by_name(form.username.as_str()) {
        Some(u) => u,
        None => {
            return Err(ApiError::Unauthenticated);
        },
    };
    if password_matches(form.password.as_str(), user.password_hash.as_str()) {
        match sessions.create_session(user.user_id, now, WEEK_MS) {
            Ok(info) => Ok(info),
            Err(_) => Err(ApiError::Internal),
        }
    } else {
        Err(ApiError::Unauthenticated)
    }
}

/// Authenticates a username and password with the failure throttle, as
/// the cookie-backed login endpoint does. An unknown username is
/// rejected at once and records nothing; a wrong password records a
/// failure and imposes the throttle's delay; a matching password mints a
/// week-long session.
pub fn authenticate_password(
    users: &UserTable,
    sessions: &mut SessionStore,
    throttle: &mut FailureThrottle,
    form: &AuthenticateForm,
    now: i64,
) -> (r: PasswordAuthResult)
    requires
        old(sessions).wf(),
        old(throttle).wf(),
        0 <= now <= i64::MAX - WEEK_MS,
    ensures
        final(sessions).wf(),
        final(throttle).wf(),
        user_with_name(users@, form.username@) is None ==> ({
            &&& r == (PasswordAuthResult::Rejected { delay_ms: 0u64 })
            &&& final(sessions)@ == old(sessions)@
            &&& final(throttle)@ == old(throttle)@
        }),
        user_with_name(users@, form.username@) matches Some(u) ==> (!phc_matches(
            form.password@,
            u.password_hash@,
        ) ==> ({
            &&& r == (PasswordAuthResult::Rejected {
                delay_ms: throttle_delay_ms(
                    next_failure_count(failure_for(old(throttle)@, u.user_id), now),
                ),
            })
            &&& final(sessions)@ == old(sessions)@
            &&& failure_for(final(throttle)@, u.user_id) == Some(
                (FailureEntry {
                    user_id: u.user_id,
                    count: next_failure_count(failure_for(old(throttle)@, u.user_id), now),
                    first_failure: next_first_failure(failure_for(old(throttle)@, u.user_id), now),
                }),
            )
            &&& forall|id2: u128|
                id2 != u.user_id ==> failure_for(final(throttle)@, id2) == failure_for(
                    old(throttle)@,
                    id2,
                )
        })),
        user_with_name(users@, form.username@) matches Some(u) ==> (phc_matches(
            form.password@,
            u.password_hash@,
        ) ==> ({
            &&& final(throttle)@ == old(throttle)@
            &&& match r {
                PasswordAuthResult::Authenticated(info) => {
                    &&& info.user_id == u.user_id
                    &&& info.valid_until == now + WEEK_MS
                    &&& session_with_token(old(sessions)@, info.token@) is None
                    &&& final(sessions)@ == old(sessions)@.push(
                        (SessionRecord {
                            token: info.token,
                            user_id: u.user_id,
                            issued_at: now,
                            expires_on: (now + WEEK_MS) as i64,
                        }),
                    )
                },
                PasswordAuthResult::Rejected { .. } => false,
                PasswordAuthResult::Failed => final(sessions)@ == old(sessions)@,
            }
        })),
{
    let user = match users.find_by_name(form.username.as_str()) {
        Some(u) => u,
        None => {
            return PasswordAuthResult::Rejected { delay_ms: 0 };
        },
    };
    if password_matches(form.password.as_str(), user.password_hash.as_str()) {
        match sessions.create_session(user.user_id, now, WEEK_MS) {
            Ok(info) => PasswordAuthResult::Authenticated(info),
            Err(_) => PasswordAuthResult::Failed,
        }
    } else {
        let delay_ms = throttle.record_failure(user.user_id, now);
        PasswordAuthResult::Rejected { delay_ms }
    }
}

/// A password-change request.
pub struct PasswordChange {
    /// The current password of the user making the request.
    pub sender_current_password: String,
    /// The desired new password for the target user.
    pub target_new_password: String,
}

/// Changes a user's password: only the user or an administrator may, the
/// target's current password must be presented, and every session of the
/// target is removed so that they log in afresh. The new hash is salted
/// by the generator, so only its holder is pinned down, not its text.
pub fn change_password(
    auth: &AuthContext,
    users: &mut UserTable,
    sessions: &mut SessionStore,
    target: u128,
    change: &PasswordChange,
) -> (r: Result<(), ApiError>)
    requires
        old(users).wf(),
        old(sessions).wf(),
    ensures
        final(users).wf(),
        final(sessions).wf(),
        !(auth.is_admin || auth.user_id == target) ==> r == Err::<(), ApiError>(ApiError::Forbidden)
            && final(users)@ == old(users)@ && final(sessions)@ == old(sessions)@,
        (auth.is_admin || auth.user_id == target) && user_with_id(old(users)@, target) is None
            ==> r == Err::<(), ApiError>(ApiError::NotFound) && final(users)@ == old(users)@
            && final(sessions)@ == old(sessions)@,
        (auth.is_admin || auth.user_id == target) ==> (user_with_id(
            old(users)@,
            target,
        ) matches Some(u) ==> ({
            &&& !phc_matches(change.sender_current_password@, u.password_hash@) ==> r == Err::<
                (),
                ApiError,
            >(ApiError::Unauthenticated) && final(users)@ == old(users)@ && final(sessions)@ == old(
                sessions,
            )@
            &&& phc_matches(change.sender_current_password@, u.password_hash@) ==> ({
                &&& r is Ok || r == Err::<(), ApiError>(ApiError::Internal)
                &&& r == Err::<(), ApiError>(ApiError::Internal) ==> final(users)@ == old(users)@
                    && final(sessions)@ == old(sessions)@
                &&& r is Ok ==> ({
                    &&& user_with_id(final(users)@, target) matches Some(u2)
                    &&& u2.user_id == u.user_id
                    &&& u2.username@ == u.username@
                    &&& u2.is_admin == u.is_admin
                    &&& forall|id2: u128|
                        id2 != target ==> user_with_id(final(users)@, id2) == user_with_id(
                            old(users)@,
                            id2,
                        )
                    &&& forall|t: Seq<u8>|
                        #[trigger] session_with_token(final(sessions)@, t) == (
                        match session_with_token(old(sessions)@, t) {
                            Some(row) => if row.user_id == target {
                                None
                            } else {
                                Some(row)
                            },
                            None => None,
                        })
                })
            })
        })),
{
    if !(auth.is_admin || auth.user_id == target) {
        return Err(ApiError::Forbidden);
    }
    let current_hash = match users.find_by_id(target) {
        Some(u) => u.password_hash.clone(),
        None => {
            return Err(ApiError::NotFound);
        },
    };
    if !password_matches(change.sender_current_password.as_str(), current_hash.as_str()) {
        return Err(ApiError::Unauthenticated);
    }
    let new_hash = match hash_password(change.target_new_password.as_str()) {
        Some(h) => h,
        None => {
            return Err(ApiError::Internal);
        },
    };
    if !users.set_password_hash(target, new_hash) {
        return Err(ApiError::Internal);
    }
    sessions.remove_sessions_of(target);
    Ok(())
}

} // verus!
