//! The registry of users' public keys, and the calls into the `ssh-key`
//! and `rsa` crates that read and use them.

use vstd::prelude::*;
use crate::assoc::{assoc, assoc_wf, lemma_assoc_push, lemma_assoc_remove};
use crate::error::ApiError;
use crate::session::AuthContext;
use crate::text::str_eq;
use crate::user::{user_with_id, UserTable};

verus! {

/// The asymmetric algorithm a registered key uses, as far as the
/// challenge protocol cares: only RSA can carry it.
#[derive(Clone, Copy, Debug, PartialEq, Eq, Structural)]
pub enum KeyAlg {
    Rsa,
    Other,
}

/// Whether a string is a readable OpenSSH public key.
pub uninterp spec fn openssh_parses(s: Seq<char>) -> bool;

/// Whether a readable OpenSSH public key carries RSA key data.
pub uninterp spec fn openssh_is_rsa(s: Seq<char>) -> bool;

/// The rendered SHA-512 fingerprint of a readable OpenSSH public key.
pub uninterp spec fn sha512_fingerprint_of(s: Seq<char>) -> Seq<char>;

/// Relies on `ssh_key::PublicKey::from_openssh`, `key_data` and
/// `fingerprint`: reading, classifying and fingerprinting a key are
/// functions of the key text alone.
#[verifier::external_body]
pub fn inspect_openssh_key(text: &str) -> (r: Option<(KeyAlg, String)>)
    ensures
        r.is_some() == openssh_parses(text@),
        r matches Some(p) ==> ((p.0 == KeyAlg::Rsa) <==> openssh_is_rsa(text@)) && p.1@
            == sha512_fingerprint_of(text@),
{
    let key = ssh_key::PublicKey::from_openssh(text).ok()?;
    let alg = match key.key_data() {
        ssh_key::public::KeyData::Rsa(_) => KeyAlg::Rsa,
        _ => KeyAlg::Other,
    };
    Some((alg, key.fingerprint(ssh_key::HashAlg::Sha512).to_string()))
}

/// Relies on `rsa`'s `encrypt` with PKCS#1 v1.5 padding, over the RSA
/// key data `ssh_key` reads from the key text. The padding draws random
/// bytes, so nothing is promised of the ciphertext; a key that cannot
/// be read, or is not RSA, encrypts nothing.
#[verifier::external_body]
pub fn rsa_encrypt_openssh(text: &str, payload: &str) -> (r: Option<Vec<u8>>)
    ensures
        !openssh_parses(text@) ==> r is None,
        !openssh_is_rsa(text@) ==> r is None,
{
    let key = ssh_key::PublicKey::from_openssh(text).ok()?;
    let rsa_key = match key.key_data() {
        ssh_key::public::KeyData::Rsa(k) => rsa::RsaPublicKey::try_from(k).ok()?,
        _ => return None,
    };
    rsa_key.encrypt(&mut rand::thread_rng(), rsa::Pkcs1v15Encrypt, payload.as_bytes()).ok()
}

/// One registered public key.
#[derive(Debug, Clone)]
pub struct SshKeyRecord {
    /// The user the key belongs to.
    pub user_id: u128,
    /// A display name the user gave the key.
    pub name: String,
    /// The rendered SHA-512 fingerprint, unique per user.
    pub fingerprint: String,
    /// What algorithm the key uses.
    pub algorithm: KeyAlg,
    /// The key itself, in OpenSSH form.
    pub openssh: String,
    /// When the key was added, as epoch milliseconds.
    pub add_date: i64,
    /// When the key last completed a challenge, if ever.
    pub last_use: Option<i64>,
}

/// The key of a registration: owner and fingerprint together.
pub open spec fn by_owner_and_fp() -> spec_fn(SshKeyRecord) -> (u128, Seq<char>) {
    |k: SshKeyRecord| (k.user_id, k.fingerprint@)
}

/// The registration a user holds under a fingerprint, if any.
pub open spec fn key_for(s: Seq<SshKeyRecord>, user_id: u128, fp: Seq<char>) -> Option<
    SshKeyRecord,
> {
    assoc(s, by_owner_and_fp(), (user_id, fp))
}

/// Registrations are pairwise distinct in (owner, fingerprint).
pub open spec fn keys_wf(s: Seq<SshKeyRecord>) -> bool {
    assoc_wf(s, by_owner_and_fp())
}

/// Keeps the registrations of one user.
pub open spec fn key_of_user(user_id: u128) -> spec_fn(SshKeyRecord) -> bool {
    |k: SshKeyRecord| k.user_id == user_id
}

/// The registry of public keys, as the external relational store
/// presents it.
pub struct KeyRegistry {
    keys: Vec<SshKeyRecord>,
}

impl View for KeyRegistry {
    type V = Seq<SshKeyRecord>;

    closed spec fn view(&self) -> Seq<SshKeyRecord> {
        self.keys@
    }
}

impl KeyRegistry {
    /// Registrations are pairwise distinct in (owner, fingerprint).
    pub open spec fn wf(&self) -> bool {
        keys_wf(self@)
    }

    /// An empty registry.
    pub fn new() -> (r: Self)
        ensures
            r@ == Seq::<SshKeyRecord>::empty(),
            r.wf(),
    {
        KeyRegistry { keys: Vec::new() }
    }

    /// The index of a user's registration under a fingerprint.
    fn find_index(&self, user_id: u128, fingerprint: &str) -> (r: Option<usize>)
        ensures
            match r {
                Some(i) => i < self@.len() && self@[i as int].user_id == user_id
                    && self@[i as int].fingerprint@ == fingerprint@ && key_for(
                    self@,
                    user_id,
                    fingerprint@,
                ) == Some(self@[i as int]),
                None => key_for(self@, user_id, fingerprint@) is None,
            },
    {
        let n = self.keys.len();
        proof {
            assert(self@.take(n as int) =~= self@);
        }
        let mut i = n;
        while i > 0
            invariant
                i <= n == self@.len(),
                key_for(self@, user_id, fingerprint@) == assoc(
                    self@.take(i as int),
                    by_owner_and_fp(),
                    (user_id, fingerprint@),
                ),
            decreases i,
        {
            proof {
                assert(self@.take(i as int).last() == self@[i - 1]);
                assert(self@.take(i as int).drop_last() =~= self@.take(i - 1));
            }
            if self.keys[i - 1].user_id == user_id && str_eq(
                self.keys[i - 1].fingerprint.as_str(),
                fingerprint,
            ) {
                return Some(i - 1);
            }
            i = i - 1;
        }
        None
    }

    /// A user's registration under a fingerprint.
    pub fn find(&self, user_id: u128, fingerprint: &str) -> (r: Option<&SshKeyRecord>)
        ensures
            match r {
                Some(k) => key_for(self@, user_id, fingerprint@) == Some(*k),
                None => key_for(self@, user_id, fingerprint@) is None,
            },
    {
        match self.find_index(user_id, fingerprint) {
            Some(i) => Some(&self.keys[i]),
            None => None,
        }
    }

    /// Registers a public key for a user: only the user may, the user
    /// must exist, the key text must be readable, and a key may be
    /// registered once per user.
    pub fn add_key(
        &mut self,
        auth: &AuthContext,
        users: &UserTable,
        user_id: u128,
        name: String,
        openssh: String,
        now: i64,
    ) -> (r: Result<(), ApiError>)
        requires
            old(self).wf(),
        ensures
            final(self).wf(),
            auth.user_id != user_id ==> r == Err::<(), ApiError>(ApiError::Unauthenticated)
                && final(self)@ == old(self)@,
            auth.user_id == user_id && !openssh_parses(openssh@) ==> r == Err::<(), ApiError>(
                ApiError::UnsupportedAlgorithm,
            ) && final(self)@ == old(self)@,
            auth.user_id == user_id && openssh_parses(openssh@) ==> ({
                &&& user_with_id(users@, user_id) is None ==> r == Err::<(), ApiError>(
                    ApiError::NotFound,
                ) && final(self)@ == old(self)@
                &&& user_with_id(users@, user_id) is Some ==> ({
                    &&& key_for(old(self)@, user_id, sha512_fingerprint_of(openssh@)) is Some
                        ==> r == Err::<(), ApiError>(ApiError::Conflict) && final(self)@ == old(
                        self,
                    )@
                    &&& key_for(old(self)@, user_id, sha512_fingerprint_of(openssh@)) is None
                        ==> r is Ok && ({
                        &&& key_for(
                            final(self)@,
                            user_id,
                            sha512_fingerprint_of(openssh@),
                        ) matches Some(k)
                        &&& k.user_id == user_id
                        &&& k.name@ == name@
                        &&& k.openssh@ == openssh@
                        &&& ((k.algorithm == KeyAlg::Rsa) <==> openssh_is_rsa(openssh@))
                        &&& k.add_date == now
                        &&& forall|p2: (u128, Seq<char>)|
                            p2 != (user_id, sha512_fingerprint_of(openssh@)) ==> assoc(
                                final(self)@,
                                by_owner_and_fp(),
                                p2,
                            ) == assoc(old(self)@, by_owner_and_fp(), p2)
                    })
                })
            }),
    {
        if auth.user_id != user_id {
            return Err(ApiError::Unauthenticated);
        }
        let (algorithm, fingerprint) = match inspect_openssh_key(openssh.as_str()) {
            Some(p) => p,
            None => {
                return Err(ApiError::UnsupportedAlgorithm);
            },
        };
        if users.find_by_id(user_id).is_none() {
            return Err(ApiError::NotFound);
        }
        if self.find_index(user_id, fingerprint.as_str()).is_some() {
            return Err(ApiError::Conflict);
        }
        let record = SshKeyRecord {
            user_id,
            name,
            fingerprint,
            algorithm,
            openssh,
            add_date: now,
            last_use: None,
        };
        proof {
            lemma_assoc_push(self@, by_owner_and_fp(), record);
        }
        self.keys.push(record);
        Ok(())
    }

    /// Removes a user's registration under a fingerprint: only the user
    /// may.
    pub fn remove_key(&mut self, auth: &AuthContext, user_id: u128, fingerprint: &str) -> (r:
        Result<(), ApiError>)
        requires
            old(self).wf(),
        ensures
            final(self).wf(),
            auth.user_id != user_id ==> r == Err::<(), ApiError>(ApiError::Unauthenticated)
                && final(self)@ == old(self)@,
            auth.user_id == user_id ==> ({
                &&& r is Ok <==> key_for(old(self)@, user_id, fingerprint@) is Some
                &&& r is Err ==> r == Err::<(), ApiError>(ApiError::NotFound) && final(self)@
                    == old(self)@
                &&& key_for(final(self)@, user_id, fingerprint@) is None
                &&& forall|p2: (u128, Seq<char>)|
                    p2 != (user_id, fingerprint@) ==> assoc(final(self)@, by_owner_and_fp(), p2)
                        == assoc(old(self)@, by_owner_and_fp(), p2)
            }),
    {
        if auth.user_id != user_id {
            return Err(ApiError::Unauthenticated);
        }
        match self.find_index(user_id, fingerprint) {
            Some(i) => {
                proof {
                    lemma_assoc_remove(self@, by_owner_and_fp(), i as int);
                }
                self.keys.remove(i);
                Ok(())
            },
            None => Err(ApiError::NotFound),
        }
    }

    /// A user's registrations, as the key-listing endpoint shows them:
    /// only the user may list them.
    pub fn keys_of_user(&self, auth: &AuthContext, user_id: u128) -> (r: Result<
        Vec<SshKeyRecord>,
        ApiError,
    >)
        ensures
            auth.user_id != user_id ==> r == Err::<Vec<SshKeyRecord>, ApiError>(
                ApiError::Unauthenticated,
            ),
            auth.user_id == user_id ==> (r matches Ok(list) && list@ == self@.filter(
                key_of_user(user_id),
            )),
    {
        if auth.user_id != user_id {
            return Err(ApiError::Unauthenticated);
        }
        proof {
            reveal_with_fuel(Seq::filter, 2);
        }
        let n = self.keys.len();
        let mut out: Vec<SshKeyRecord> = Vec::new();
        let mut i: usize = 0;
        while i < n
            invariant
                i <= n == self@.len(),
                out@ == self@.take(i as int).filter(key_of_user(user_id)),
            decreases n - i,
        {
            proof {
                reveal_with_fuel(Seq::filter, 2);
                assert(self@.take(i + 1).drop_last() =~= self@.take(i as int));
                assert(self@.take(i + 1).last() == self@[i as int]);
            }
            let k = &self.keys[i];
            if k.user_id == user_id {
                let copied = SshKeyRecord {
                    user_id: k.user_id,
                    name: k.name.clone(),
                    fingerprint: k.fingerprint.clone(),
                    algorithm: k.algorithm,
                    openssh: k.openssh.clone(),
                    add_date: k.add_date,
                    last_use: k.last_use,
                };
                proof {
                    assert(copied == self@[i as int]);
                }
                out.push(copied);
            }
            i = i + 1;
        }
        proof {
            assert(self@.take(n as int) =~= self@);
        }
        Ok(out)
    }
}

} // verus!
