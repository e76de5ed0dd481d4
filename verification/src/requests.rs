//! Requests sent to the language server that still wait for their answer.
//!
//! Times are milliseconds since the manager was made.

use crate::seqs::lemma_push_contains;
use std::collections::HashMap;
use std::time::Instant;
use vstd::prelude::*;
use vstd::std_specs::hash::group_hash_axioms;
use vstd::std_specs::iter::IteratorSpec;

verus! {

broadcast use group_hash_axioms;

/// `std::time::Instant`, a moment of the clock. Nothing of its inside is
/// known here.
#[verifier::external_type_specification]
#[verifier::external_body]
pub struct ExInstant(std::time::Instant);

/// How urgent a request is.
#[derive(Debug, Clone, Copy, PartialEq, Eq, PartialOrd, Ord, Structural)]
pub enum Priority {
    Low,
    Normal,
    High,
}

/// Errors of the language server client.
#[derive(Debug)]
pub enum LspError {
    ConnectionError(String),
    ProtocolError(String),
    Timeout,
    NotInitialized,
}

/// A request that waits for its answer. `sent_at` and `timeout` are in
/// milliseconds.
#[derive(Debug)]
pub struct PendingRequest {
    pub id: i64,
    pub method: String,
    pub priority: Priority,
    pub sent_at: u128,
    pub timeout: u128,
}

/// The time that a request may wait for its answer, in milliseconds.
pub const REQUEST_TIMEOUT_MS: u128 = 5000;

/// `Instant::now`: the present moment. Nothing is claimed of it.
#[verifier::external_body]
fn current_instant() -> Instant {
    Instant::now()
}

/// `Instant::elapsed`, in milliseconds: the time that has passed since
/// `since`. Nothing is claimed of it.
#[verifier::external_body]
fn elapsed_millis(since: &Instant) -> u128 {
    since.elapsed().as_millis()
}

/// A request as it is registered.
pub open spec fn fresh_request(id: i64, method: String, priority: Priority, sent_at: u128) -> PendingRequest {
    PendingRequest { id, method, priority, sent_at, timeout: REQUEST_TIMEOUT_MS }
}

/// At time `now` the request has waited longer than its timeout.
pub open spec fn timed_out(request: PendingRequest, now: u128) -> bool {
    now - request.sent_at > request.timeout
}

/// The ids of the requests that have timed out at time `now`.
pub open spec fn timed_out_ids(pending: Map<i64, PendingRequest>, now: u128) -> Set<i64> {
    Set::new(|id: i64| pending.contains_key(id) && timed_out(pending[id], now))
}

/// Keeps the requests that wait for an answer and hands out their ids.
pub struct RequestManager {
    pending: HashMap<i64, PendingRequest>,
    next_id: i64,
    started: Instant,
}

impl RequestManager {
    /// The waiting requests by id.
    pub closed spec fn pending_view(&self) -> Map<i64, PendingRequest> {
        self.pending@
    }

    /// The id that the next request gets.
    pub closed spec fn next_id_view(&self) -> i64 {
        self.next_id
    }

    /// The moment from which the manager counts time.
    pub closed spec fn started_view(&self) -> Instant {
        self.started
    }

    pub fn new() -> (r: RequestManager)
        ensures
            r.pending_view() == Map::<i64, PendingRequest>::empty(),
            r.next_id_view() == 1,
    {
        RequestManager { pending: HashMap::new(), next_id: 1, started: current_instant() }
    }

    /// Registers a request that was sent at time `sent_at` and gives its id.
    pub fn register(&mut self, method: String, priority: Priority, sent_at: u128) -> (id: i64)
        requires
            old(self).next_id_view() < i64::MAX,
        ensures
            id == old(self).next_id_view(),
            final(self).next_id_view() == id + 1,
            final(self).started_view() == old(self).started_view(),
            final(self).pending_view() == old(self).pending_view().insert(
                id,
                fresh_request(id, method, priority, sent_at),
            ),
    {
        let id: i64 = self.next_id;
        self.next_id = self.next_id + 1;
        let request = PendingRequest { id, method, priority, sent_at, timeout: REQUEST_TIMEOUT_MS };
        self.pending.insert(id, request);
        id
    }

    /// Registers a request that is sent now and gives its id.
    pub fn create_request(&mut self, method: String, priority: Priority) -> (id: i64)
        requires
            old(self).next_id_view() < i64::MAX,
        ensures
            id == old(self).next_id_view(),
            final(self).next_id_view() == id + 1,
            final(self).started_view() == old(self).started_view(),
            exists|sent_at: u128|
                final(self).pending_view() == old(self).pending_view().insert(
                    id,
                    #[trigger] fresh_request(id, method, priority, sent_at),
                ),
    {
        let now: u128 = elapsed_millis(&self.started);
        self.register(method, priority, now)
    }

    /// Takes a request out because its answer has come.
    pub fn complete_request(&mut self, id: i64) -> (r: Option<PendingRequest>)
        ensures
            final(self).pending_view() == old(self).pending_view().remove(id),
            final(self).next_id_view() == old(self).next_id_view(),
            final(self).started_view() == old(self).started_view(),
            match r {
                Some(request) => old(self).pending_view().contains_key(id) && request == old(self).pending_view()[id],
                None => !old(self).pending_view().contains_key(id),
            },
    {
        self.pending.remove(&id)
    }

    /// Takes a request out because it is no longer wanted. The result says
    /// whether the request was waiting.
    pub fn cancel_request(&mut self, id: i64) -> (r: bool)
        ensures
            final(self).pending_view() == old(self).pending_view().remove(id),
            final(self).next_id_view() == old(self).next_id_view(),
            final(self).started_view() == old(self).started_view(),
            r == old(self).pending_view().contains_key(id),
    {
        self.pending.remove(&id).is_some()
    }

    pub fn get_pending(&self, id: i64) -> (r: Option<&PendingRequest>)
        ensures
            match r {
                Some(request) => self.pending_view().contains_key(id) && *request
                    == self.pending_view()[id],
                None => !self.pending_view().contains_key(id),
            },
    {
        self.pending.get(&id)
    }

    pub fn pending_count(&self) -> (r: usize)
        ensures
            r == self.pending_view().len(),
    {
        self.pending.len()
    }

    /// Takes out the requests that have timed out at time `now` and gives
    /// their ids, each once, in no particular order.
    pub fn expire(&mut self, now: u128) -> (r: Vec<i64>)
        ensures
            r@.no_duplicates(),
            r@.to_set() == timed_out_ids(old(self).pending_view(), now),
            final(self).pending_view() == old(self).pending_view().remove_keys(
                timed_out_ids(old(self).pending_view(), now),
            ),
            final(self).next_id_view() == old(self).next_id_view(),
            final(self).started_view() == old(self).started_view(),
    {
        let ghost before = self.pending@;
        let mut expired: Vec<i64> = Vec::new();
        let keys = self.pending.keys();
        let ghost all = keys.remaining().unref();
        for key in it: keys
            invariant
                before == self.pending@,
                it.seq().unref() == all,
                all.no_duplicates(),
                all.to_set() == before.dom(),
                expired@.no_duplicates(),
                forall|id: i64|
                    expired@.contains(id) <==> all.take(it.index()).contains(id) && timed_out(
                        before[id],
                        now,
                    ),
        {
            let ghost seen = all.take(it.index());
            assert(all[it.index()] == *key);
            assert(before.dom().contains(*key)) by {
                assert(all.contains(*key));
            }
            let request = self.pending.get(key).unwrap();
            let ghost grown = all.take(it.index() + 1);
            assert(grown =~= seen.push(*key));
            assert(!seen.contains(*key)) by {
                if seen.contains(*key) {
                    let j = choose|j: int| 0 <= j < seen.len() && seen[j] == *key;
                    assert(all[j] == all[it.index()]);
                }
            }
            let ghost old_expired = expired@;
            if now > request.sent_at && now - request.sent_at > request.timeout {
                expired.push(*key);
                assert forall|id: i64| expired@.contains(id) <==> grown.contains(id) && timed_out(
                    before[id],
                    now,
                ) by {
                    lemma_push_contains(old_expired, *key, id);
                    lemma_push_contains(seen, *key, id);
                    assert(old_expired.contains(id) <==> seen.contains(id) && timed_out(
                        before[id],
                        now,
                    ));
                }
                assert(expired@.no_duplicates()) by {
                    assert(!old_expired.contains(*key));
                }
            } else {
                assert forall|id: i64| expired@.contains(id) <==> grown.contains(id) && timed_out(
                    before[id],
                    now,
                ) by {
                    lemma_push_contains(seen, *key, id);
                    assert(old_expired.contains(id) <==> seen.contains(id) && timed_out(
                        before[id],
                        now,
                    ));
                }
            }
        }
        proof {
            assert(all.take(all.len() as int) =~= all);
            assert(expired@.to_set() =~= timed_out_ids(before, now)) by {
                assert forall|id: i64| expired@.to_set().contains(id) <==> timed_out_ids(
                    before,
                    now,
                ).contains(id) by {
                    if before.contains_key(id) {
                        assert(all.to_set().contains(id));
                    }
                }
            }
        }
        let mut i: usize = 0;
        while i < expired.len()
            invariant
                i <= expired@.len(),
                self.next_id == old(self).next_id,
                self.started == old(self).started,
                self.pending@ == before.remove_keys(expired@.take(i as int).to_set()),
            decreases expired@.len() - i,
        {
            let id: i64 = expired[i];
            let ghost gone = expired@.take(i as int).to_set();
            self.pending.remove(&id);
            proof {
                assert(expired@.take(i + 1) =~= expired@.take(i as int).push(id));
                expired@.take(i as int).lemma_push_to_set_commute(id);
                assert(self.pending@ =~= before.remove_keys(gone.insert(id)));
            }
            i = i + 1;
        }
        assert(expired@.take(expired@.len() as int) =~= expired@);
        expired
    }

    /// Takes out the requests that have timed out by now and gives their
    /// ids, each once, in no particular order.
    pub fn check_timeouts(&mut self) -> (r: Vec<i64>)
        ensures
            r@.no_duplicates(),
            final(self).next_id_view() == old(self).next_id_view(),
            final(self).started_view() == old(self).started_view(),
            exists|now: u128|
                r@.to_set() == #[trigger] timed_out_ids(old(self).pending_view(), now)
                    && final(self).pending_view() == old(self).pending_view().remove_keys(
                    timed_out_ids(old(self).pending_view(), now),
                ),
    {
        let now: u128 = elapsed_millis(&self.started);
        self.expire(now)
    }
}

impl Default for RequestManager {
    fn default() -> (r: RequestManager)
        ensures
            r.pending_view() == Map::<i64, PendingRequest>::empty(),
            r.next_id_view() == 1,
    {
        RequestManager::new()
    }
}

} // verus!
