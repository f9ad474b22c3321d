//! Per-user failure counting and the escalating delay imposed on failed
//! password authentication.

use vstd::prelude::*;
use crate::assoc::{assoc, assoc_wf, lemma_assoc_index, lemma_assoc_push, lemma_assoc_update};

verus! {

/// The sliding forgiveness window: an hour, in milliseconds.
pub const FAILURE_WINDOW_MS: i64 = 3600000;

/// One user's consecutive-failure state.
#[derive(Clone, Copy)]
pub struct FailureEntry {
    /// The user the failures belong to.
    pub user_id: u128,
    /// How many failures have been seen inside the current window.
    pub count: u64,
    /// When the current window opened, as epoch milliseconds.
    pub first_failure: i64,
}

/// The key of a failure entry.
pub open spec fn by_failure_user() -> spec_fn(FailureEntry) -> u128 {
    |e: FailureEntry| e.user_id
}

/// The failure entry recorded for a user, if any.
pub open spec fn failure_for(s: Seq<FailureEntry>, id: u128) -> Option<FailureEntry> {
    assoc(s, by_failure_user(), id)
}

/// More than the window has passed since the entry's window opened.
pub open spec fn window_expired(e: FailureEntry, now: i64) -> bool {
    now - e.first_failure > FAILURE_WINDOW_MS
}

/// The counter after one more failure: starts over at one after the
/// window has expired or for a first failure, and otherwise increments
/// with saturation.
pub open spec fn next_failure_count(prior: Option<FailureEntry>, now: i64) -> u64 {
    match prior {
        None => 1,
        Some(e) => if window_expired(e, now) {
            1
        } else if e.count == u64::MAX {
            u64::MAX
        } else {
            (e.count + 1) as u64
        },
    }
}

/// When the window after one more failure opened.
pub open spec fn next_first_failure(prior: Option<FailureEntry>, now: i64) -> i64 {
    match prior {
        None => now,
        Some(e) => if window_expired(e, now) {
            now
        } else {
            e.first_failure
        },
    }
}

/// The delay imposed for a given counter value: 100 ms per failure,
/// capped at 2000 ms.
pub open spec fn throttle_delay_ms(count: u64) -> u64 {
    if count < 20 {
        (100 * count) as u64
    } else {
        2000
    }
}

/// The delay grows by exactly 100 ms per consecutive failure up to the
/// 2000 ms cap, and a failure after more than an hour of quiet starts
/// over at one failure and 100 ms.
pub proof fn lemma_throttle_delay_law(prior: Option<FailureEntry>, now: i64)
    ensures
        prior matches Some(e) ==> (!window_expired(e, now) && e.count < 20 ==> throttle_delay_ms(
            next_failure_count(prior, now),
        ) == 100 * (e.count + 1)),
        prior matches Some(e) ==> (!window_expired(e, now) && e.count >= 20 ==> throttle_delay_ms(
            next_failure_count(prior, now),
        ) == 2000),
        prior matches Some(e) ==> (window_expired(e, now) ==> next_failure_count(prior, now) == 1
            && throttle_delay_ms(next_failure_count(prior, now)) == 100),
        prior is None ==> next_failure_count(prior, now) == 1 && throttle_delay_ms(
            next_failure_count(prior, now),
        ) == 100,
{
}

/// The in-memory failure map, guarded by one lock in the surrounding
/// service.
pub struct FailureThrottle {
    entries: Vec<FailureEntry>,
}

impl View for FailureThrottle {
    type V = Seq<FailureEntry>;

    closed spec fn view(&self) -> Seq<FailureEntry> {
        self.entries@
    }
}

impl FailureThrottle {
    /// Entries are keyed by user, one per user.
    pub open spec fn wf(&self) -> bool {
        assoc_wf(self@, by_failure_user())
    }

    /// An empty map: no user has failed.
    pub fn new() -> (r: Self)
        ensures
            r@ == Seq::<FailureEntry>::empty(),
            r.wf(),
    {
        FailureThrottle { entries: Vec::new() }
    }

    /// The index of a user's entry.
    fn find_index(&self, user_id: u128) -> (r: Option<usize>)
        ensures
            match r {
                Some(i) => i < self@.len() && self@[i as int].user_id == user_id && failure_for(
                    self@,
                    user_id,
                ) == Some(self@[i as int]),
                None => failure_for(self@, user_id) is None,
            },
    {
        let n = self.entries.len();
        proof {
            assert(self@.take(n as int) =~= self@);
        }
        let mut i = n;
        while i > 0
            invariant
                i <= n == self@.len(),
                failure_for(self@, user_id) == assoc(
                    self@.take(i as int),
                    by_failure_user(),
                    user_id,
                ),
            decreases i,
        {
            proof {
                assert(self@.take(i as int).last() == self@[i - 1]);
                assert(self@.take(i as int).drop_last() =~= self@.take(i - 1));
            }
            if self.entries[i - 1].user_id == user_id {
                return Some(i - 1);
            }
            i = i - 1;
        }
        None
    }

    /// Records one failed authentication attempt for a user and returns
    /// the delay the caller must let elapse before answering. The lock on
    /// this map is to be released before waiting.
    pub fn record_failure(&mut self, user_id: u128, now: i64) -> (delay_ms: u64)
        requires
            old(self).wf(),
        ensures
            final(self).wf(),
            delay_ms == throttle_delay_ms(
                next_failure_count(failure_for(old(self)@, user_id), now),
            ),
            failure_for(final(self)@, user_id) == Some(
                (FailureEntry {
                    user_id,
                    count: next_failure_count(failure_for(old(self)@, user_id), now),
                    first_failure: next_first_failure(failure_for(old(self)@, user_id), now),
                }),
            ),
            forall|id2: u128|
                id2 != user_id ==> failure_for(final(self)@, id2) == failure_for(old(self)@, id2),
    {
        let prior = self.find_index(user_id);
        let count: u64;
        match prior {
            None => {
                let entry = FailureEntry { user_id, count: 1, first_failure: now };
                proof {
                    lemma_assoc_push(self@, by_failure_user(), entry);
                }
                self.entries.push(entry);
                count = 1;
            },
            Some(i) => {
                let e = self.entries[i];
                let expired = (now as i128) - (e.first_failure as i128) > (
                FAILURE_WINDOW_MS as i128);
                let new_entry = if expired {
                    FailureEntry { user_id, count: 1, first_failure: now }
                } else {
                    FailureEntry {
                        user_id,
                        count: e.count.saturating_add(1),
                        first_failure: e.first_failure,
                    }
                };
                proof {
                    lemma_assoc_update(self@, by_failure_user(), i as int, new_entry);
                }
                self.entries.set(i, new_entry);
                count = new_entry.count;
            },
        }
        if count < 20 {
            count * 100
        } else {
            2000
        }
    }
}

} // verus!
