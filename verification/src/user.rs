//! The user directory: identity, username, stored password hash and the
//! administrator flag, with unique identifiers and unique usernames.

use vstd::prelude::*;
use crate::assoc::{
    assoc, assoc_wf, lemma_assoc_index, lemma_assoc_none, lemma_assoc_push, lemma_assoc_remove,
    lemma_assoc_update,
};
use crate::text::str_eq;

verus! {

/// One user as the authenticators see it.
#[derive(Debug, Clone)]
pub struct UserRecord {
    /// Opaque unique identifier.
    pub user_id: u128,
    /// Unique login name.
    pub username: String,
    /// Salted memory-hard hash of the user's password, in PHC string form.
    pub password_hash: String,
    /// Whether the user holds administrator rights.
    pub is_admin: bool,
}

/// The key on user identifiers.
pub open spec fn by_user_id() -> spec_fn(UserRecord) -> u128 {
    |u: UserRecord| u.user_id
}

/// The key on usernames.
pub open spec fn by_username() -> spec_fn(UserRecord) -> Seq<char> {
    |u: UserRecord| u.username@
}

/// The user with the given identifier, if any.
pub open spec fn user_with_id(s: Seq<UserRecord>, id: u128) -> Option<UserRecord> {
    assoc(s, by_user_id(), id)
}

/// The user with the given username, if any.
pub open spec fn user_with_name(s: Seq<UserRecord>, name: Seq<char>) -> Option<UserRecord> {
    assoc(s, by_username(), name)
}

/// Identifiers and usernames are pairwise distinct.
pub open spec fn users_wf(s: Seq<UserRecord>) -> bool {
    assoc_wf(s, by_user_id()) && assoc_wf(s, by_username())
}

/// The registry of users, as the external relational store presents it.
pub struct UserTable {
    users: Vec<UserRecord>,
}

impl View for UserTable {
    type V = Seq<UserRecord>;

    closed spec fn view(&self) -> Seq<UserRecord> {
        self.users@
    }
}

impl UserTable {
    /// Identifiers and usernames are pairwise distinct.
    pub open spec fn wf(&self) -> bool {
        users_wf(self@)
    }

    /// An empty directory.
    pub fn new() -> (r: Self)
        ensures
            r@ == Seq::<UserRecord>::empty(),
            r.wf(),
    {
        UserTable { users: Vec::new() }
    }

    /// How many users are registered.
    pub fn len(&self) -> (r: usize)
        ensures
            r == self@.len(),
    {
        self.users.len()
    }

    /// The row at an index, for audit walks.
    pub fn row_at(&self, i: usize) -> (r: &UserRecord)
        requires
            i < self@.len(),
        ensures
            *r == self@[i as int],
    {
        &self.users[i]
    }

    /// The index of the user with an identifier.
    fn index_by_id(&self, id: u128) -> (r: Option<usize>)
        ensures
            match r {
                Some(i) => i < self@.len() && self@[i as int].user_id == id && user_with_id(
                    self@,
                    id,
                ) == Some(self@[i as int]),
                None => user_with_id(self@, id) is None,
            },
    {
        let n = self.users.len();
        proof {
            assert(self@.take(n as int) =~= self@);
        }
        let mut i = n;
        while i > 0
            invariant
                i <= n == self@.len(),
                user_with_id(self@, id) == assoc(self@.take(i as int), by_user_id(), id),
            decreases i,
        {
            proof {
                assert(self@.take(i as int).last() == self@[i - 1]);
                assert(self@.take(i as int).drop_last() =~= self@.take(i - 1));
            }
            if self.users[i - 1].user_id == id {
                return Some(i - 1);
            }
            i = i - 1;
        }
        None
    }

    /// Looks a user up by identifier.
    pub fn find_by_id(&self, id: u128) -> (r: Option<&UserRecord>)
        ensures
            match r {
                Some(u) => user_with_id(self@, id) == Some(*u),
                None => user_with_id(self@, id) is None,
            },
    {
        match self.index_by_id(id) {
            Some(i) => Some(&self.users[i]),
            None => None,
        }
    }

    /// Looks a user up by username.
    pub fn find_by_name(&self, name: &str) -> (r: Option<&UserRecord>)
        ensures
            match r {
                Some(u) => user_with_name(self@, name@) == Some(*u),
                None => user_with_name(self@, name@) is None,
            },
    {
        let n = self.users.len();
        proof {
            assert(self@.take(n as int) =~= self@);
        }
        let mut i = n;
        while i > 0
            invariant
                i <= n == self@.len(),
                user_with_name(self@, name@) == assoc(self@.take(i as int), by_username(), name@),
            decreases i,
        {
            proof {
                assert(self@.take(i as int).last() == self@[i - 1]);
                assert(self@.take(i as int).drop_last() =~= self@.take(i - 1));
            }
            if str_eq(self.users[i - 1].username.as_str(), name) {
                return Some(&self.users[i - 1]);
            }
            i = i - 1;
        }
        None
    }

    /// Adds a user whose identifier and username are not yet taken.
    pub fn insert(&mut self, user: UserRecord)
        requires
            old(self).wf(),
            user_with_id(old(self)@, user.user_id) is None,
            user_with_name(old(self)@, user.username@) is None,
        ensures
            final(self)@ == old(self)@.push(user),
            final(self).wf(),
    {
        proof {
            lemma_assoc_push(self@, by_user_id(), user);
            lemma_assoc_push(self@, by_username(), user);
        }
        self.users.push(user);
    }

    /// Replaces a user's stored password hash.
    pub fn set_password_hash(&mut self, user_id: u128, new_hash: String) -> (r: bool)
        requires
            old(self).wf(),
        ensures
            final(self).wf(),
            r == (user_with_id(old(self)@, user_id) is Some),
            !r ==> final(self)@ == old(self)@,
            r ==> ({
                &&& user_with_id(old(self)@, user_id) matches Some(u)
                &&& user_with_id(final(self)@, user_id) == Some(
                    (UserRecord {
                        user_id: u.user_id,
                        username: u.username,
                        password_hash: new_hash,
                        is_admin: u.is_admin,
                    }),
                )
                &&& user_with_name(final(self)@, u.username@) == user_with_id(
                    final(self)@,
                    user_id,
                )
                &&& forall|id2: u128|
                    id2 != user_id ==> user_with_id(final(self)@, id2) == user_with_id(
                        old(self)@,
                        id2,
                    )
                &&& forall|n2: Seq<char>|
                    n2 != u.username@ ==> user_with_name(final(self)@, n2) == user_with_name(
                        old(self)@,
                        n2,
                    )
            }),
    {
        match self.index_by_id(user_id) {
            Some(i) => {
                let updated = UserRecord {
                    user_id: self.users[i].user_id,
                    username: self.users[i].username.clone(),
                    password_hash: new_hash,
                    is_admin: self.users[i].is_admin,
                };
                proof {
                    lemma_assoc_update(self@, by_user_id(), i as int, updated);
                    lemma_assoc_update(self@, by_username(), i as int, updated);
                }
                self.users.set(i, updated);
                true
            },
            None => false,
        }
    }

    /// Gives a user a new, untaken username.
    pub fn rename(&mut self, user_id: u128, new_name: String) -> (r: bool)
        requires
            old(self).wf(),
            user_with_name(old(self)@, new_name@) is None,
        ensures
            final(self).wf(),
            r == (user_with_id(old(self)@, user_id) is Some),
            !r ==> final(self)@ == old(self)@,
            r ==> ({
                &&& user_with_id(old(self)@, user_id) matches Some(u)
                &&& user_with_id(final(self)@, user_id) == Some(
                    (UserRecord {
                        user_id: u.user_id,
                        username: new_name,
                        password_hash: u.password_hash,
                        is_admin: u.is_admin,
                    }),
                )
                &&& user_with_name(final(self)@, new_name@) == user_with_id(final(self)@, user_id)
                &&& user_with_name(final(self)@, u.username@) is None
                &&& forall|id2: u128|
                    id2 != user_id ==> user_with_id(final(self)@, id2) == user_with_id(
                        old(self)@,
                        id2,
                    )
                &&& forall|n2: Seq<char>|
                    n2 != u.username@ && n2 != new_name@ ==> user_with_name(final(self)@, n2)
                        == user_with_name(old(self)@, n2)
            }),
    {
        match self.index_by_id(user_id) {
            Some(i) => {
                let updated = UserRecord {
                    user_id: self.users[i].user_id,
                    username: new_name,
                    password_hash: self.users[i].password_hash.clone(),
                    is_admin: self.users[i].is_admin,
                };
                proof {
                    lemma_assoc_index(self@, by_username(), i as int);
                    assert(new_name@ != self@[i as int].username@);
                    lemma_assoc_update(self@, by_user_id(), i as int, updated);
                    lemma_assoc_update(self@, by_username(), i as int, updated);
                }
                self.users.set(i, updated);
                true
            },
            None => false,
        }
    }

    /// Removes a user.
    pub fn remove(&mut self, user_id: u128) -> (r: bool)
        requires
            old(self).wf(),
        ensures
            final(self).wf(),
            r == (user_with_id(old(self)@, user_id) is Some),
            !r ==> final(self)@ == old(self)@,
            user_with_id(final(self)@, user_id) is None,
            r ==> ({
                &&& user_with_id(old(self)@, user_id) matches Some(u)
                &&& user_with_name(final(self)@, u.username@) is None
                &&& final(self)@.len() == old(self)@.len() - 1
                &&& exists|i: int|
                    0 <= i < old(self)@.len() && (#[trigger] old(self)@[i]).user_id == user_id
                        && final(self)@ == old(self)@.remove(i)
                &&& forall|id2: u128|
                    id2 != user_id ==> user_with_id(final(self)@, id2) == user_with_id(
                        old(self)@,
                        id2,
                    )
                &&& forall|n2: Seq<char>|
                    n2 != u.username@ ==> user_with_name(final(self)@, n2) == user_with_name(
                        old(self)@,
                        n2,
                    )
            }),
    {
        match self.index_by_id(user_id) {
            Some(i) => {
                proof {
                    lemma_assoc_remove(self@, by_user_id(), i as int);
                    lemma_assoc_remove(self@, by_username(), i as int);
                }
                self.users.remove(i);
                true
            },
            None => false,
        }
    }
}

} // verus!
