//! Challenge tickets: single-use, time-limited proof tokens for the
//! public-key authentication protocol, and the store that linearizes
//! their issuance and consumption.

use vstd::prelude::*;
use crate::assoc::{assoc, assoc_wf, lemma_assoc_filter, lemma_assoc_push, lemma_assoc_remove};
use crate::decimal::{dec_of, dec_of_i64, i64_to_dec, u128_to_dec};
use crate::error::ApiError;

verus! {

/// How long a ticket stays valid after issuance.
pub const TICKET_LIFETIME_MS: i64 = 10000;

/// How often the background sweep runs.
pub const SWEEP_INTERVAL_MS: i64 = 60000;

/// How many random draws ticket creation makes before giving up; with
/// 128-bit nonces it is effectively never exhausted.
pub const MAX_NONCE_ATTEMPTS: usize = 16;

/// A single-use challenge ticket. Equality and hashing cover all three
/// fields: the whole value is the map key and the wire payload.
#[derive(Clone, Copy, Debug, PartialEq, Eq, Hash, Structural)]
pub struct Ticket {
    /// A randomly generated nonce.
    pub nonce: u128,
    /// A unix timestamp in milliseconds.
    pub timestamp: i64,
    /// The user the session will be granted to on success.
    pub subject: u128,
}

/// A stored ticket, bound to the fingerprint of the key it was
/// encrypted to.
pub struct TicketEntry {
    pub ticket: Ticket,
    pub fingerprint: String,
}

/// The key of a ticket entry: the full ticket value.
pub open spec fn by_ticket() -> spec_fn(TicketEntry) -> Ticket {
    |e: TicketEntry| e.ticket
}

/// The entry stored under a ticket, if any.
pub open spec fn ticket_entry(s: Seq<TicketEntry>, t: Ticket) -> Option<TicketEntry> {
    assoc(s, by_ticket(), t)
}

/// Stored tickets are pairwise distinct.
pub open spec fn tickets_wf(s: Seq<TicketEntry>) -> bool {
    assoc_wf(s, by_ticket())
}

/// A ticket still within its lifetime at time `now`.
pub open spec fn ticket_fresh(t: Ticket, now: i64) -> bool {
    now - t.timestamp < TICKET_LIFETIME_MS
}

/// The publicly known transformation a client applies to a decrypted
/// ticket: decrement the nonce by one, wrapping around at zero.
pub open spec fn spec_respond_ticket(t: Ticket) -> Ticket {
    Ticket {
        nonce: if t.nonce == 0 {
            u128::MAX
        } else {
            (t.nonce - 1) as u128
        },
        timestamp: t.timestamp,
        subject: t.subject,
    }
}

/// The issued ticket a response stands for: the nonce incremented by
/// one, wrapping around at the maximum.
pub open spec fn spec_recover_ticket(r: Ticket) -> Ticket {
    Ticket {
        nonce: if r.nonce == u128::MAX {
            0
        } else {
            (r.nonce + 1) as u128
        },
        timestamp: r.timestamp,
        subject: r.subject,
    }
}

/// A response is accepted against a store at time `now` exactly when
/// the ticket it stands for is still stored and still fresh.
pub open spec fn response_accepted(s: Seq<TicketEntry>, response: Ticket, now: i64) -> bool {
    ticket_entry(s, spec_recover_ticket(response)) is Some && ticket_fresh(
        spec_recover_ticket(response),
        now,
    )
}

/// A response stands for an issued ticket exactly when it is that
/// ticket with the nonce decremented by one (wrapping): no other nonce
/// validates.
pub proof fn lemma_nonce_binding(issued: Ticket, response: Ticket)
    ensures
        spec_recover_ticket(response) == issued <==> response == spec_respond_ticket(issued),
        spec_recover_ticket(spec_respond_ticket(issued)) == issued,
{
}

/// A ticket aged past its lifetime is not accepted, wherever it is
/// stored: a validation eleven seconds after issuance fails.
pub proof fn lemma_expired_response_rejected(
    s: Seq<TicketEntry>,
    response: Ticket,
    now: i64,
)
    requires
        now - spec_recover_ticket(response).timestamp >= TICKET_LIFETIME_MS,
    ensures
        !response_accepted(s, response, now),
{
}

/// A consumed ticket cannot be replayed: once validation has removed the
/// entry, the same response is rejected at any later time.
pub proof fn lemma_replay_rejected(after: Seq<TicketEntry>, response: Ticket, later: i64)
    requires
        ticket_entry(after, spec_recover_ticket(response)) is None,
    ensures
        !response_accepted(after, response, later),
{
}

/// Applies the client-side transformation to a decrypted ticket.
pub fn respond_ticket(t: &Ticket) -> (r: Ticket)
    ensures
        r == spec_respond_ticket(*t),
{
    Ticket {
        nonce: if t.nonce == 0 {
            u128::MAX
        } else {
            t.nonce - 1
        },
        timestamp: t.timestamp,
        subject: t.subject,
    }
}

/// The canonical wire form of a ticket, encrypted in the first protocol
/// step and posted back in the second.
pub open spec fn ticket_wire(t: Ticket) -> Seq<char> {
    "{\"nonce\":"@ + dec_of(t.nonce as nat) + ",\"timestamp\":"@ + dec_of_i64(t.timestamp as int)
        + ",\"subject\":"@ + dec_of(t.subject as nat) + "}"@
}

/// Serializes a ticket to its canonical wire form.
pub fn encode_ticket(t: &Ticket) -> (r: String)
    ensures
        r@ == ticket_wire(*t),
{
    let mut r = String::from_str("{\"nonce\":");
    let nonce = u128_to_dec(t.nonce);
    r.append(nonce.as_str());
    r.append(",\"timestamp\":");
    let ts = i64_to_dec(t.timestamp);
    r.append(ts.as_str());
    r.append(",\"subject\":");
    let subject = u128_to_dec(t.subject);
    r.append(subject.as_str());
    r.append("}");
    proof {
        assert(r@ =~= ticket_wire(*t));
    }
    r
}

/// The in-memory map of outstanding tickets, guarded by one lock in the
/// surrounding service so that issuance and consumption are linearized.
pub struct TicketStore {
    entries: Vec<TicketEntry>,
}

impl View for TicketStore {
    type V = Seq<TicketEntry>;

    closed spec fn view(&self) -> Seq<TicketEntry> {
        self.entries@
    }
}

impl TicketStore {
    /// Stored tickets are pairwise distinct.
    pub open spec fn wf(&self) -> bool {
        tickets_wf(self@)
    }

    /// An empty store.
    pub fn new() -> (r: Self)
        ensures
            r@ == Seq::<TicketEntry>::empty(),
            r.wf(),
    {
        TicketStore { entries: Vec::new() }
    }

    /// How many tickets are outstanding.
    pub fn len(&self) -> (r: usize)
        ensures
            r == self@.len(),
    {
        self.entries.len()
    }

    /// The index of the entry stored under a ticket.
    fn find_index(&self, t: &Ticket) -> (r: Option<usize>)
        ensures
            match r {
                Some(i) => i < self@.len() && self@[i as int].ticket == *t && ticket_entry(
                    self@,
                    *t,
                ) == Some(self@[i as int]),
                None => ticket_entry(self@, *t) is None,
            },
    {
        let n = self.entries.len();
        proof {
            assert(self@.take(n as int) =~= self@);
        }
        let mut i = n;
        while i > 0
            invariant
                i <= n == self@.len(),
                ticket_entry(self@, *t) == assoc(self@.take(i as int), by_ticket(), *t),
            decreases i,
        {
            proof {
                assert(self@.take(i as int).last() == self@[i - 1]);
                assert(self@.take(i as int).drop_last() =~= self@.take(i - 1));
            }
            if self.entries[i - 1].ticket == *t {
                return Some(i - 1);
            }
            i = i - 1;
        }
        None
    }

    /// Mints a fresh ticket for a user, stamped `now` and bound to the
    /// fingerprint of the key it will be encrypted to: draws a nonce and
    /// retries while the full ticket value collides with a stored one.
    pub fn new_ticket(&mut self, subject: u128, fingerprint: String, now: i64) -> (r: Result<
        Ticket,
        ApiError,
    >)
        requires
            old(self).wf(),
        ensures
            final(self).wf(),
            r matches Ok(t) ==> ({
                &&& t.subject == subject
                &&& t.timestamp == now
                &&& ticket_entry(old(self)@, t) is None
                &&& final(self)@ == old(self)@.push((TicketEntry { ticket: t, fingerprint }))
            }),
            r matches Err(e) ==> e == ApiError::Internal && final(self)@ == old(self)@,
    {
        let mut attempts: usize = 0;
        while attempts < MAX_NONCE_ATTEMPTS
            invariant
                self@ == old(self)@,
                self.wf(),
            decreases MAX_NONCE_ATTEMPTS - attempts,
        {
            let ticket = Ticket { nonce: rand::random(), timestamp: now, subject };
            match self.find_index(&ticket) {
                Some(_) => {
                    attempts = attempts + 1;
                },
                None => {
                    let entry = TicketEntry { ticket, fingerprint };
                    proof {
                        lemma_assoc_push(self@, by_ticket(), entry);
                    }
                    self.entries.push(entry);
                    return Ok(ticket);
                },
            }
        }
        Err(ApiError::Internal)
    }

    /// Checks a response ticket sent by a client: recovers the issued
    /// ticket by undoing the nonce transformation, and accepts exactly
    /// when that ticket is stored and still fresh. Acceptance removes
    /// the entry, so a ticket validates at most once.
    pub fn take_response_ticket(&mut self, response: &Ticket, now: i64) -> (r: Option<(
        u128,
        String,
    )>)
        requires
            old(self).wf(),
        ensures
            final(self).wf(),
            r is Some <==> response_accepted(old(self)@, *response, now),
            r is None ==> final(self)@ == old(self)@,
            r matches Some(p) ==> ({
                &&& ticket_entry(old(self)@, spec_recover_ticket(*response)) matches Some(e)
                &&& p.0 == spec_recover_ticket(*response).subject
                &&& p.1@ == e.fingerprint@
                &&& ticket_entry(final(self)@, spec_recover_ticket(*response)) is None
                &&& forall|t2: Ticket|
                    t2 != spec_recover_ticket(*response) ==> ticket_entry(final(self)@, t2)
                        == ticket_entry(old(self)@, t2)
                &&& final(self)@.len() == old(self)@.len() - 1
            }),
    {
        let key = Ticket {
            nonce: if response.nonce == u128::MAX {
                0
            } else {
                response.nonce + 1
            },
            timestamp: response.timestamp,
            subject: response.subject,
        };
        let i = match self.find_index(&key) {
            Some(i) => i,
            None => {
                return None;
            },
        };
        let fresh = (now as i128) - (key.timestamp as i128) < (TICKET_LIFETIME_MS as i128);
        if !fresh {
            return None;
        }
        let fingerprint = self.entries[i].fingerprint.clone();
        proof {
            lemma_assoc_remove(self@, by_ticket(), i as int);
        }
        self.entries.remove(i);
        Some((key.subject, fingerprint))
    }

    /// Removes every ticket older than the validity window, as the
    /// periodic background sweep does.
    pub fn sweep(&mut self, now: i64)
        requires
            old(self).wf(),
        ensures
            final(self).wf(),
            final(self)@ == old(self)@.filter(sweep_keeps(now)),
            forall|t: Ticket|
                #[trigger] ticket_entry(final(self)@, t) == (
                match ticket_entry(old(self)@, t) {
                    Some(e) => if ticket_fresh(e.ticket, now) {
                        Some(e)
                    } else {
                        None
                    },
                    None => None,
                }),
    {
        proof {
            reveal_with_fuel(Seq::filter, 2);
        }
        let n = self.entries.len();
        let mut kept: Vec<TicketEntry> = Vec::new();
        let mut i: usize = 0;
        while i < n
            invariant
                i <= n == self@.len(),
                self@ == old(self)@,
                kept@ == self@.take(i as int).filter(sweep_keeps(now)),
            decreases n - i,
        {
            proof {
                reveal_with_fuel(Seq::filter, 2);
                assert(self@.take(i + 1).drop_last() =~= self@.take(i as int));
                assert(self@.take(i + 1).last() == self@[i as int]);
            }
            let entry = &self.entries[i];
            let fresh = (now as i128) - (entry.ticket.timestamp as i128) < (
            TICKET_LIFETIME_MS as i128);
            if fresh {
                let kept_entry = TicketEntry {
                    ticket: entry.ticket,
                    fingerprint: entry.fingerprint.clone(),
                };
                proof {
                    assert(kept_entry == self@[i as int]);
                }
                kept.push(kept_entry);
            }
            i = i + 1;
        }
        proof {
            assert(self@.take(n as int) =~= self@);
            lemma_ticket_sweep(self@, now);
        }
        self.entries = kept;
    }
}

/// Keeps the tickets still inside the validity window.
pub open spec fn sweep_keeps(now: i64) -> spec_fn(TicketEntry) -> bool {
    |e: TicketEntry| ticket_fresh(e.ticket, now)
}

/// The sweep keeps the store well-formed, drops exactly the stale
/// tickets, and leaves every fresh one in place.
pub proof fn lemma_ticket_sweep(s: Seq<TicketEntry>, now: i64)
    requires
        tickets_wf(s),
    ensures
        tickets_wf(s.filter(sweep_keeps(now))),
        forall|t: Ticket|
            #[trigger] ticket_entry(s.filter(sweep_keeps(now)), t) == (
            match ticket_entry(s, t) {
                Some(e) => if ticket_fresh(e.ticket, now) {
                    Some(e)
                } else {
                    None
                },
                None => None,
            }),
{
    lemma_assoc_filter(s, by_ticket(), sweep_keeps(now));
}

} // verus!
