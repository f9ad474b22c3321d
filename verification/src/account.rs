//! Account management: registration, renaming, deletion and the user
//! listings the administration endpoints serve.

use vstd::prelude::*;
use crate::config::Config;
use crate::error::ApiError;
use crate::filedb::{record_with_id, sizes_sum, FileDb};
use crate::filestore::{stored_with_id, FileId};
use crate::passhash::hash_password;
use crate::session::{
    session_with_token, AuthContext, SessionInfo, SessionRecord, SessionStore, TWO_WEEKS_MS,
};
use crate::user::{user_with_id, user_with_name, UserRecord, UserTable};

verus! {

/// How many random draws identifier generation makes before giving up.
pub const MAX_USER_ID_ATTEMPTS: usize = 16;

/// Draws user identifiers until one is not yet taken.
fn fresh_user_id(users: &UserTable) -> (r: Option<u128>)
    ensures
        r matches Some(id) ==> user_with_id(users@, id) is None,
{
    let mut attempts: usize = 0;
    while attempts < MAX_USER_ID_ATTEMPTS
        decreases MAX_USER_ID_ATTEMPTS - attempts,
    {
        let candidate: u128 = rand::random();
        if users.find_by_id(candidate).is_none() {
            return Some(candidate);
        }
        attempts = attempts + 1;
    }
    None
}

/// Registers a new account, if registering is enabled and the username
/// is free, and signs the new user in with a two-week session. The
/// stored hash is salted by the generator, so only its holder is pinned
/// down.
pub fn register_user(
    config: &Config,
    users: &mut UserTable,
    sessions: &mut SessionStore,
    username: String,
    password: String,
    now: i64,
) -> (r: Result<SessionInfo, ApiError>)
    requires
        old(users).wf(),
        old(sessions).wf(),
        0 <= now <= i64::MAX - TWO_WEEKS_MS,
    ensures
        final(users).wf(),
        final(sessions).wf(),
        !config.public_config.allow_registering ==> r == Err::<SessionInfo, ApiError>(
            ApiError::Forbidden,
        ) && final(users)@ == old(users)@ && final(sessions)@ == old(sessions)@,
        config.public_config.allow_registering && user_with_name(old(users)@, username@) is Some
            ==> r == Err::<SessionInfo, ApiError>(ApiError::Conflict) && final(users)@ == old(
            users,
        )@ && final(sessions)@ == old(sessions)@,
        config.public_config.allow_registering && user_with_name(old(users)@, username@) is None
            ==> ({
            &&& r matches Err(e) ==> e == ApiError::Internal && final(users)@ == old(users)@
                && final(sessions)@ == old(sessions)@
            &&& r matches Ok(info) ==> ({
                &&& user_with_name(final(users)@, username@) matches Some(u)
                &&& u.user_id == info.user_id
                &&& !u.is_admin
                &&& user_with_id(old(users)@, u.user_id) is None
                &&& final(users)@ == old(users)@.push(u)
                &&& info.valid_until == now + TWO_WEEKS_MS
                &&& session_with_token(old(sessions)@, info.token@) is None
                &&& final(sessions)@ == old(sessions)@.push(
                    (SessionRecord {
                        token: info.token,
                        user_id: u.user_id,
                        issued_at: now,
                        expires_on: (now + TWO_WEEKS_MS) as i64,
                    }),
                )
            })
        }),
{
    if !config.public_config.allow_registering {
        return Err(ApiError::Forbidden);
    }
    if users.find_by_name(username.as_str()).is_some() {
        return Err(ApiError::Conflict);
    }
    let password_hash = match hash_password(password.as_str()) {
        Some(h) => h,
        None => {
            return Err(ApiError::Internal);
        },
    };
    let user_id = match fresh_user_id(users) {
        Some(id) => id,
        None => {
            return Err(ApiError::Internal);
        },
    };
    let record = UserRecord {
        user_id,
        username: username.clone(),
        password_hash,
        is_admin: false,
    };
    users.insert(record);
    match sessions.create_session(user_id, now, TWO_WEEKS_MS) {
        Ok(info) => Ok(info),
        Err(_) => {
            // The surrounding transaction rolls back: the user row is
            // taken out again so that nothing of the attempt remains.
            let ghost inserted = users@;
            users.remove(user_id);
            proof {
                crate::assoc::lemma_assoc_none(
                    old(users)@,
                    crate::user::by_user_id(),
                    user_id,
                );
                let i = choose|i: int|
                    0 <= i < inserted.len() && (#[trigger] inserted[i]).user_id == user_id
                        && users@ == inserted.remove(i);
                assert(i == old(users)@.len());
                assert(users@ =~= old(users)@);
            }
            Err(ApiError::Internal)
        },
    }
}

/// Gives a user a new username: the user or an administrator may; a
/// name any account already holds, the user's own included, is refused
/// as taken.
pub fn rename_user(
    auth: &AuthContext,
    users: &mut UserTable,
    user_id: u128,
    new_name: String,
) -> (r: Result<(), ApiError>)
    requires
        old(users).wf(),
    ensures
        final(users).wf(),
        !(auth.user_id == user_id || auth.is_admin) ==> r == Err::<(), ApiError>(
            ApiError::Forbidden,
        ) && final(users)@ == old(users)@,
        (auth.user_id == user_id || auth.is_admin) ==> ({
            &&& user_with_name(old(users)@, new_name@) is Some ==> r == Err::<(), ApiError>(
                ApiError::Conflict,
            ) && final(users)@ == old(users)@
            &&& user_with_name(old(users)@, new_name@) is None && user_with_id(
                old(users)@,
                user_id,
            ) is None ==> r == Err::<(), ApiError>(ApiError::NotFound) && final(users)@ == old(
                users,
            )@
            &&& user_with_name(old(users)@, new_name@) is None ==> (user_with_id(
                old(users)@,
                user_id,
            ) matches Some(u) ==> ({
                &&& r is Ok
                &&& user_with_name(final(users)@, new_name@) == user_with_id(
                    final(users)@,
                    user_id,
                )
                &&& user_with_id(final(users)@, user_id) matches Some(u2)
                &&& u2.username@ == new_name@
                &&& u2.user_id == u.user_id
                &&& u2.password_hash@ == u.password_hash@
                &&& u2.is_admin == u.is_admin
                &&& user_with_name(final(users)@, u.username@) is None
            }))
        }),
{
    if !(auth.user_id == user_id || auth.is_admin) {
        return Err(ApiError::Forbidden);
    }
    if users.find_by_name(new_name.as_str()).is_some() {
        return Err(ApiError::Conflict);
    }
    if users.rename(user_id, new_name) {
        Ok(())
    } else {
        Err(ApiError::NotFound)
    }
}

/// Deletes an account: the user or an administrator may. Every file the
/// user uploaded goes with it, rows and blobs both.
pub fn delete_user(
    auth: &AuthContext,
    users: &mut UserTable,
    files: &mut FileDb,
    user_id: u128,
) -> (r: Result<(), ApiError>)
    requires
        old(users).wf(),
        old(files).wf(),
    ensures
        final(users).wf(),
        final(files).wf(),
        !(auth.is_admin || auth.user_id == user_id) ==> r == Err::<(), ApiError>(
            ApiError::Forbidden,
        ) && final(users)@ == old(users)@ && final(files).recs() == old(files).recs()
            && final(files).objs() == old(files).objs(),
        (auth.is_admin || auth.user_id == user_id) ==> ({
            &&& r is Ok
            &&& user_with_id(final(users)@, user_id) is None
            &&& forall|id2: u128|
                id2 != user_id ==> user_with_id(final(users)@, id2) == user_with_id(
                    old(users)@,
                    id2,
                )
            &&& forall|id: FileId|
                #[trigger] record_with_id(final(files).recs(), id) == (
                match record_with_id(old(files).recs(), id) {
                    Some(rec) => if rec.uploader_id == user_id {
                        None
                    } else {
                        Some(rec)
                    },
                    None => None,
                })
            &&& forall|id: FileId|
                #[trigger] stored_with_id(final(files).objs(), id) == (
                match record_with_id(old(files).recs(), id) {
                    Some(rec) => if rec.uploader_id == user_id {
                        None
                    } else {
                        stored_with_id(old(files).objs(), id)
                    },
                    None => stored_with_id(old(files).objs(), id),
                })
        }),
{
    if !(auth.is_admin || auth.user_id == user_id) {
        return Err(ApiError::Forbidden);
    }
    files.remove_files_of(user_id);
    users.remove(user_id);
    Ok(())
}

/// What the administration listing shows of one user.
#[derive(Debug)]
pub struct UserOverview {
    pub user_id: u128,
    pub username: String,
    pub total_storage_space: u64,
    pub is_admin: bool,
}

/// One user's public profile: the username and the total stored size.
pub fn user_overview(users: &UserTable, files: &FileDb, user_id: u128) -> (r: Result<
    UserOverview,
    ApiError,
>)
    ensures
        user_with_id(users@, user_id) is None ==> r == Err::<UserOverview, ApiError>(
            ApiError::NotFound,
        ),
        user_with_id(users@, user_id) matches Some(u) ==> (r matches Ok(o) && o.user_id
            == u.user_id && o.username@ == u.username@ && o.is_admin == u.is_admin
            && o.total_storage_space == (if sizes_sum(files.recs(), user_id) <= u64::MAX {
            sizes_sum(files.recs(), user_id)
        } else {
            u64::MAX as nat
        })),
{
    let user = match users.find_by_id(user_id) {
        Some(u) => u,
        None => {
            return Err(ApiError::NotFound);
        },
    };
    Ok(
        UserOverview {
            user_id: user.user_id,
            username: user.username.clone(),
            total_storage_space: files.total_size_of(user_id),
            is_admin: user.is_admin,
        },
    )
}

/// Every user with their storage use, for administrators only.
pub fn list_users(auth: &AuthContext, users: &UserTable, files: &FileDb) -> (r: Result<
    Vec<UserOverview>,
    ApiError,
>)
    ensures
        !auth.is_admin ==> r == Err::<Vec<UserOverview>, ApiError>(ApiError::Forbidden),
        auth.is_admin ==> (r matches Ok(list) && list@.len() == users@.len() && (forall|i: int|
            0 <= i < users@.len() ==> ({
                &&& (#[trigger] list@[i]).user_id == users@[i].user_id
                &&& list@[i].username@ == users@[i].username@
                &&& list@[i].is_admin == users@[i].is_admin
                &&& list@[i].total_storage_space == (if sizes_sum(
                    files.recs(),
                    users@[i].user_id,
                ) <= u64::MAX {
                    sizes_sum(files.recs(), users@[i].user_id)
                } else {
                    u64::MAX as nat
                })
            }))),
{
    if !auth.is_admin {
        return Err(ApiError::Forbidden);
    }
    let n = users.len();
    let mut out: Vec<UserOverview> = Vec::new();
    let mut i: usize = 0;
    while i < n
        invariant
            i <= n == users@.len(),
            out@.len() == i,
            forall|j: int|
                0 <= j < i ==> ({
                    &&& (#[trigger] out@[j]).user_id == users@[j].user_id
                    &&& out@[j].username@ == users@[j].username@
                    &&& out@[j].is_admin == users@[j].is_admin
                    &&& out@[j].total_storage_space == (if sizes_sum(
                        files.recs(),
                        users@[j].user_id,
                    ) <= u64::MAX {
                        sizes_sum(files.recs(), users@[j].user_id)
                    } else {
                        u64::MAX as nat
                    })
                }),
        decreases n - i,
    {
        let user = users.row_at(i);
        out.push(
            UserOverview {
                user_id: user.user_id,
                username: user.username.clone(),
                total_storage_space: files.total_size_of(user.user_id),
                is_admin: user.is_admin,
            },
        );
        i = i + 1;
    }
    Ok(out)
}

/// Whether a user holds administrator rights, for the user or an
/// administrator.
pub fn is_admin_of(auth: &AuthContext, users: &UserTable, user_id: u128) -> (r: Result<
    bool,
    ApiError,
>)
    ensures
        !(auth.is_admin || auth.user_id == user_id) ==> r == Err::<bool, ApiError>(
            ApiError::Forbidden,
        ),
        (auth.is_admin || auth.user_id == user_id) ==> (match user_with_id(users@, user_id) {
            Some(u) => r == Ok::<bool, ApiError>(u.is_admin),
            None => r == Err::<bool, ApiError>(ApiError::NotFound),
        }),
{
    if !(auth.is_admin || auth.user_id == user_id) {
        return Err(ApiError::Forbidden);
    }
    match users.find_by_id(user_id) {
        Some(u) => Ok(u.is_admin),
        None => Err(ApiError::NotFound),
    }
}

/// The identifier behind a username, as the public lookup endpoint
/// serves it.
pub fn user_id_by_name(users: &UserTable, username: &str) -> (r: Result<u128, ApiError>)
    ensures
        match user_with_name(users@, username@) {
            Some(u) => r == Ok::<u128, ApiError>(u.user_id),
            None => r == Err::<u128, ApiError>(ApiError::NotFound),
        },
{
    match users.find_by_name(username) {
        Some(u) => Ok(u.user_id),
        None => Err(ApiError::NotFound),
    }
}

} // verus!
