//! Session issuance, validation and removal: the common downstream of
//! both authenticators.

use vstd::prelude::*;
use crate::assoc::{assoc, assoc_wf, lemma_assoc_filter, lemma_assoc_push, lemma_assoc_remove};
use crate::error::ApiError;
use crate::hexfmt::{bytes_of_hex, is_hex_digit, lemma_hex_of_len};
use crate::token::SessionToken;
use crate::user::{user_with_id, UserTable};

verus! {

/// How long a password-established session lives: one week.
pub const WEEK_MS: i64 = 604800000;

/// How long a registration-established session lives: two weeks.
pub const TWO_WEEKS_MS: i64 = 1209600000;

/// How long a challenge-established session lives: one minute, since it
/// only bootstraps a full session.
pub const MINUTE_MS: i64 = 60000;

/// How many random draws the collision-retry loop makes before giving
/// up; with 256-bit tokens it is effectively never exhausted.
pub const MAX_DRAW_ATTEMPTS: usize = 16;

/// One row of the session table.
#[derive(Clone, Copy, Debug)]
pub struct SessionRecord {
    /// The token the client holds.
    pub token: SessionToken,
    /// The user the session belongs to.
    pub user_id: u128,
    /// When the session was created, as epoch milliseconds.
    pub issued_at: i64,
    /// When the session stops being valid, as epoch milliseconds.
    pub expires_on: i64,
}

/// What a successful authentication hands back to the client.
#[derive(Debug)]
pub struct SessionInfo {
    /// The unique identifier for the session.
    pub token: SessionToken,
    /// The user to which the session belongs.
    pub user_id: u128,
    /// When the session will no longer be considered valid.
    pub valid_until: i64,
}

/// The key of a session row: the token's bytes.
pub open spec fn by_token() -> spec_fn(SessionRecord) -> Seq<u8> {
    |r: SessionRecord| r.token@
}

/// The session row holding the given token, if any.
pub open spec fn session_with_token(s: Seq<SessionRecord>, t: Seq<u8>) -> Option<SessionRecord> {
    assoc(s, by_token(), t)
}

/// A session row accepted at time `now`: already issued and not expired.
pub open spec fn session_live(row: SessionRecord, now: i64) -> bool {
    row.issued_at < now && row.expires_on > now
}

/// Tokens are pairwise distinct and 32 bytes each.
pub open spec fn sessions_wf(s: Seq<SessionRecord>) -> bool {
    assoc_wf(s, by_token()) && (forall|i: int|
        0 <= i < s.len() ==> (#[trigger] s[i]).token@.len() == 32)
}

/// Keeps the sessions that do not belong to the given user.
pub open spec fn not_of_user(user_id: u128) -> spec_fn(SessionRecord) -> bool {
    |row: SessionRecord| row.user_id != user_id
}

/// Dropping one user's sessions keeps the table well-formed, removes
/// exactly the tokens that user held, and leaves every other session in
/// place.
pub proof fn lemma_sessions_purge(s: Seq<SessionRecord>, user_id: u128)
    requires
        sessions_wf(s),
    ensures
        sessions_wf(s.filter(not_of_user(user_id))),
        forall|t: Seq<u8>|
            #[trigger] session_with_token(s.filter(not_of_user(user_id)), t) == (
            match session_with_token(s, t) {
                Some(row) => if row.user_id == user_id {
                    None
                } else {
                    Some(row)
                },
                None => None,
            }),
{
    lemma_assoc_filter(s, by_token(), not_of_user(user_id));
    let f = s.filter(not_of_user(user_id));
    assert forall|i: int| 0 <= i < f.len() implies (#[trigger] f[i]).token@.len() == 32 by {
        let j = choose|j: int| 0 <= j < s.len() && s[j] == f[i];
    }
}

/// The identity a validated session proves.
#[derive(Debug, Clone)]
pub struct AuthContext {
    /// The unique identifier of the authenticated user.
    pub user_id: u128,
    /// The username of the authenticated user.
    pub username: String,
    /// True if the user has administrator permissions.
    pub is_admin: bool,
}

/// The session table, as the external relational store presents it.
pub struct SessionStore {
    rows: Vec<SessionRecord>,
}

impl View for SessionStore {
    type V = Seq<SessionRecord>;

    closed spec fn view(&self) -> Seq<SessionRecord> {
        self.rows@
    }
}

impl SessionStore {
    /// Tokens are pairwise distinct and 32 bytes each.
    pub open spec fn wf(&self) -> bool {
        sessions_wf(self@)
    }

    /// An empty table.
    pub fn new() -> (r: Self)
        ensures
            r@ == Seq::<SessionRecord>::empty(),
            r.wf(),
    {
        SessionStore { rows: Vec::new() }
    }

    /// How many sessions are recorded.
    pub fn len(&self) -> (r: usize)
        ensures
            r == self@.len(),
    {
        self.rows.len()
    }

    /// The index of the row holding a token.
    fn find_index(&self, token: &SessionToken) -> (r: Option<usize>)
        ensures
            match r {
                Some(i) => i < self@.len() && self@[i as int].token@ == token@
                    && session_with_token(self@, token@) == Some(self@[i as int]),
                None => session_with_token(self@, token@) is None,
            },
    {
        let n = self.rows.len();
        proof {
            assert(self@.take(n as int) =~= self@);
        }
        let mut i = n;
        while i > 0
            invariant
                i <= n == self@.len(),
                session_with_token(self@, token@) == assoc(
                    self@.take(i as int),
                    by_token(),
                    token@,
                ),
            decreases i,
        {
            proof {
                assert(self@.take(i as int).last() == self@[i - 1]);
                assert(self@.take(i as int).drop_last() =~= self@.take(i - 1));
            }
            if self.rows[i - 1].token.same_as(token) {
                return Some(i - 1);
            }
            i = i - 1;
        }
        None
    }

    /// Creates a session for a user: draws a token, retries while the
    /// draw collides with a recorded one, and inserts the row. The whole
    /// runs inside the caller's transaction, so the existence check and
    /// the insert are consistent.
    pub fn create_session(&mut self, user_id: u128, now: i64, valid_for: i64) -> (r: Result<
        SessionInfo,
        ApiError,
    >)
        requires
            old(self).wf(),
            0 <= valid_for,
            now <= i64::MAX - valid_for,
        ensures
            final(self).wf(),
            r matches Ok(info) ==> ({
                &&& info.user_id == user_id
                &&& info.valid_until == now + valid_for
                &&& info.token@.len() == 32
                &&& session_with_token(old(self)@, info.token@) is None
                &&& final(self)@ == old(self)@.push(
                    (SessionRecord {
                        token: info.token,
                        user_id,
                        issued_at: now,
                        expires_on: (now + valid_for) as i64,
                    }),
                )
            }),
            r matches Err(e) ==> e == ApiError::Internal && final(self)@ == old(self)@,
    {
        let mut attempts: usize = 0;
        while attempts < MAX_DRAW_ATTEMPTS
            invariant
                self@ == old(self)@,
                self.wf(),
                0 <= valid_for,
                now <= i64::MAX - valid_for,
            decreases MAX_DRAW_ATTEMPTS - attempts,
        {
            let token = SessionToken::random();
            match self.find_index(&token) {
                Some(_) => {
                    attempts = attempts + 1;
                },
                None => {
                    let row = SessionRecord {
                        token,
                        user_id,
                        issued_at: now,
                        expires_on: now + valid_for,
                    };
                    proof {
                        lemma_assoc_push(self@, by_token(), row);
                    }
                    self.rows.push(row);
                    return Ok(SessionInfo { token, user_id, valid_until: now + valid_for });
                },
            }
        }
        Err(ApiError::Internal)
    }

    /// Validates a token at time `now` against the session table and the
    /// user directory. An unknown, not-yet-valid or expired token and a
    /// vanished user are all equally "no session".
    pub fn validate_session(&self, users: &UserTable, token: &SessionToken, now: i64) -> (r:
        Option<AuthContext>)
        ensures
            r is Some <==> (session_with_token(self@, token@) matches Some(row) && session_live(
                row,
                now,
            ) && user_with_id(users@, row.user_id) is Some),
            r matches Some(ctx) ==> ({
                &&& session_with_token(self@, token@) matches Some(row)
                &&& session_live(row, now)
                &&& ctx.user_id == row.user_id
                &&& user_with_id(users@, row.user_id) matches Some(u)
                &&& ctx.username@ == u.username@
                &&& ctx.is_admin == u.is_admin
            }),
    {
        let i = match self.find_index(token) {
            Some(i) => i,
            None => {
                return None;
            },
        };
        let row = &self.rows[i];
        if !(row.issued_at < now && row.expires_on > now) {
            return None;
        }
        match users.find_by_id(row.user_id) {
            Some(user) => Some(
                AuthContext {
                    user_id: row.user_id,
                    username: user.username.clone(),
                    is_admin: user.is_admin,
                },
            ),
            None => None,
        }
    }

    /// Removes the session a token names, as logout does. Removing an
    /// unknown token is a storage-level fault, surfaced opaquely.
    pub fn remove_session(&mut self, token: &SessionToken) -> (r: Result<(), ApiError>)
        requires
            old(self).wf(),
        ensures
            final(self).wf(),
            r is Ok <==> session_with_token(old(self)@, token@) is Some,
            r matches Err(e) ==> e == ApiError::Internal && final(self)@ == old(self)@,
            session_with_token(final(self)@, token@) is None,
            forall|t2: Seq<u8>|
                t2 != token@ ==> session_with_token(final(self)@, t2) == session_with_token(
                    old(self)@,
                    t2,
                ),
            r is Ok ==> final(self)@.len() == old(self)@.len() - 1,
    {
        match self.find_index(token) {
            Some(i) => {
                proof {
                    lemma_assoc_remove(self@, by_token(), i as int);
                    assert(forall|j: int|
                        0 <= j < self@.remove(i as int).len() ==> (#[trigger] self@.remove(
                            i as int,
                        )[j]) == (if j < i { self@[j] } else { self@[j + 1] }));
                }
                self.rows.remove(i);
                Ok(())
            },
            None => Err(ApiError::Internal),
        }
    }

    /// Removes every session a user holds, as a password change does to
    /// force a fresh login.
    pub fn remove_sessions_of(&mut self, user_id: u128)
        requires
            old(self).wf(),
        ensures
            final(self).wf(),
            final(self)@ == old(self)@.filter(not_of_user(user_id)),
            forall|t: Seq<u8>|
                #[trigger] session_with_token(final(self)@, t) == (
                match session_with_token(old(self)@, t) {
                    Some(row) => if row.user_id == user_id {
                        None
                    } else {
                        Some(row)
                    },
                    None => None,
                }),
    {
        proof {
            reveal_with_fuel(Seq::filter, 2);
        }
        let n = self.rows.len();
        let mut kept: Vec<SessionRecord> = Vec::new();
        let mut i: usize = 0;
        while i < n
            invariant
                i <= n == self@.len(),
                self@ == old(self)@,
                kept@ == self@.take(i as int).filter(not_of_user(user_id)),
            decreases n - i,
        {
            proof {
                reveal_with_fuel(Seq::filter, 2);
                assert(self@.take(i + 1).drop_last() =~= self@.take(i as int));
                assert(self@.take(i + 1).last() == self@[i as int]);
            }
            let row = self.rows[i];
            if row.user_id != user_id {
                kept.push(row);
            }
            i = i + 1;
        }
        proof {
            assert(self@.take(n as int) =~= self@);
            lemma_sessions_purge(self@, user_id);
        }
        self.rows = kept;
    }
}

/// The token bytes a cookie value denotes: 64 hex characters, or
/// nothing.
pub open spec fn cookie_token(s: Seq<char>) -> Option<Seq<u8>> {
    if s.len() == 64 && (forall|i: int| 0 <= i < s.len() ==> is_hex_digit(#[trigger] s[i])) {
        Some(bytes_of_hex(s))
    } else {
        None
    }
}

/// Authenticates a request from its session-token cookie value, as the
/// extractor at the front of every protected endpoint does: a missing,
/// malformed, unknown or expired token all mean "unauthenticated".
pub fn authenticate_request(
    sessions: &SessionStore,
    users: &UserTable,
    cookie: &str,
    now: i64,
) -> (r: Option<AuthContext>)
    ensures
        r is Some <==> (cookie_token(cookie@) matches Some(tb) && session_with_token(
            sessions@,
            tb,
        ) matches Some(row) && session_live(row, now) && user_with_id(users@, row.user_id) is Some),
        r matches Some(ctx) ==> ({
            &&& cookie_token(cookie@) matches Some(tb)
            &&& session_with_token(sessions@, tb) matches Some(row)
            &&& ctx.user_id == row.user_id
            &&& user_with_id(users@, row.user_id) matches Some(u)
            &&& ctx.username@ == u.username@
            &&& ctx.is_admin == u.is_admin
        }),
{
    let token = match SessionToken::parse_hex(cookie) {
        Some(t) => t,
        None => {
            return None;
        },
    };
    sessions.validate_session(users, &token, now)
}

/// The two cookie values a session is delivered in: the token in hex,
/// and the owning user's identifier in decimal. Both are scoped to the
/// whole path and expire with the session; the token cookie is also
/// marked secure and HTTP-only where the transport supports it.
pub fn session_cookie_values(info: &SessionInfo) -> (r: (String, String))
    ensures
        r.0@ == crate::hexfmt::hex_of(info.token@),
        r.1@ == crate::decimal::dec_of(info.user_id as nat),
{
    (info.token.to_hex(), crate::decimal::u128_to_dec(info.user_id))
}

/// Every token a well-formed session store holds is pairwise distinct
/// from the others, is exactly 32 bytes, and renders as 64 hex
/// characters.
pub proof fn lemma_session_tokens_distinct(store: SessionStore)
    requires
        store.wf(),
    ensures
        forall|i: int, j: int|
            0 <= i < j < store@.len() ==> (#[trigger] store@[i]).token@ != (
            #[trigger] store@[j]).token@,
        forall|i: int|
            0 <= i < store@.len() ==> (#[trigger] store@[i]).token@.len() == 32 && crate::hexfmt::hex_of(
                store@[i].token@,
            ).len() == 64,
{
    assert forall|i: int, j: int| 0 <= i < j < store@.len() implies (
    #[trigger] store@[i]).token@ != (#[trigger] store@[j]).token@ by {
        assert(by_token()(store@[i]) != by_token()(store@[j]));
    }
    assert forall|i: int| 0 <= i < store@.len() implies (#[trigger] store@[i]).token@.len() == 32
        && crate::hexfmt::hex_of(store@[i].token@).len() == 64 by {
        lemma_hex_of_len(store@[i].token@);
    }
}

} // verus!
