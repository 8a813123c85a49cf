//! The completion index: for each server with a pending start or an item
//! expected to finish, the key under which the driver will examine it — a
//! timestamp, or [`IMMEDIATE_KEY`] for "needs an immediate start". A server
//! sits under at most one key at a time; removal clears it from wherever
//! it sits.

use vstd::prelude::*;
use crate::assoc::{
    count_key, find_key, find_index, lemma_count_key_unique, lemma_find_key_at,
    lemma_find_key_none, lemma_find_key_push, lemma_find_key_remove, lemma_unique_keys_push,
    unique_keys,
};

verus! {

/// The key under which a server is scheduled for an immediate start/check
/// by the driver, rather than at an expected completion time.
pub const IMMEDIATE_KEY: u64 = 0;

/// Maps each scheduled server to its expected-completion key.
pub struct CompletionIndex {
    /// One `(server, key)` entry per scheduled server.
    entries: Vec<(u64, u64)>,
}

impl CompletionIndex {
    /// No server has two entries.
    pub closed spec fn wf(&self) -> bool {
        unique_keys(self.entries@)
    }

    /// The key a server is scheduled under, if any.
    pub closed spec fn spec_key_of(&self, server_id: u64) -> Option<u64> {
        find_key(self.entries@, server_id)
    }

    /// Whether a server is scheduled at all.
    pub open spec fn spec_is_scheduled(&self, server_id: u64) -> bool {
        self.spec_key_of(server_id) is Some
    }

    /// How many entries name the server. Well-formedness bounds it by one;
    /// see [`lemma_scheduled_at_most_once`].
    pub closed spec fn spec_times_listed(&self, server_id: u64) -> nat {
        count_key(self.entries@, server_id)
    }

    /// An empty index: nothing scheduled.
    pub fn new() -> (r: Self)
        ensures
            r.wf(),
            forall|t: u64| !r.spec_is_scheduled(t),
    {
        CompletionIndex { entries: Vec::new() }
    }

    /// Registers the server under `key`. The server must not be scheduled
    /// already — being listed twice is a scheduling bug, never merged
    /// silently.
    pub fn register_completion(&mut self, server_id: u64, key: u64)
        requires
            old(self).wf(),
            !old(self).spec_is_scheduled(server_id),
        ensures
            final(self).wf(),
            final(self).spec_key_of(server_id) == Some(key),
            forall|t: u64| t != server_id ==> final(self).spec_key_of(t) == old(self).spec_key_of(t),
    {
        let ghost s0 = self.entries@;
        self.entries.push((server_id, key));
        proof {
            lemma_find_key_none(s0, server_id);
            lemma_unique_keys_push(s0, server_id, key);
            lemma_find_key_push(s0, server_id, key, server_id);
            assert forall|t: u64| t != server_id implies #[trigger] self.spec_key_of(t) == old(self).spec_key_of(t) by {
                lemma_find_key_push(s0, server_id, key, t);
            }
        }
    }

    /// Drops the server from wherever it sits. Returns whether it was
    /// found; a second call is a no-op.
    pub fn remove_server(&mut self, server_id: u64) -> (found: bool)
        requires
            old(self).wf(),
        ensures
            final(self).wf(),
            !final(self).spec_is_scheduled(server_id),
            found == old(self).spec_is_scheduled(server_id),
            forall|t: u64| t != server_id ==> final(self).spec_key_of(t) == old(self).spec_key_of(t),
    {
        match find_index(&self.entries, server_id) {
            Some(i) => {
                let ghost s0 = self.entries@;
                self.entries.remove(i);
                proof {
                    lemma_find_key_at(s0, i as int, server_id);
                    lemma_find_key_remove(s0, i as int, server_id);
                    assert forall|t: u64| t != server_id implies #[trigger] self.spec_key_of(t)
                        == old(self).spec_key_of(t) by {
                        lemma_find_key_remove(s0, i as int, t);
                    }
                }
                true
            },
            None => {
                proof {
                    lemma_find_key_none(self.entries@, server_id);
                }
                false
            },
        }
    }

    /// Whether the server is scheduled under any key.
    pub fn is_scheduled(&self, server_id: u64) -> (r: bool)
        requires
            self.wf(),
        ensures
            r == self.spec_is_scheduled(server_id),
    {
        match find_index(&self.entries, server_id) {
            Some(i) => {
                proof {
                    lemma_find_key_at(self.entries@, i as int, server_id);
                }
                true
            },
            None => {
                proof {
                    lemma_find_key_none(self.entries@, server_id);
                }
                false
            },
        }
    }

    /// The key the server is scheduled under, if any.
    pub fn scheduled_key(&self, server_id: u64) -> (r: Option<u64>)
        requires
            self.wf(),
        ensures
            r == self.spec_key_of(server_id),
    {
        match find_index(&self.entries, server_id) {
            Some(i) => {
                proof {
                    lemma_find_key_at(self.entries@, i as int, server_id);
                }
                Some(self.entries[i].1)
            },
            None => {
                proof {
                    lemma_find_key_none(self.entries@, server_id);
                }
                None
            },
        }
    }

    /// Schedules the server for an immediate start, unless it is already
    /// scheduled there or elsewhere.
    pub fn schedule_immediate(&mut self, server_id: u64)
        requires
            old(self).wf(),
        ensures
            final(self).wf(),
            final(self).spec_is_scheduled(server_id),
            old(self).spec_is_scheduled(server_id) ==> *final(self) == *old(self),
            !old(self).spec_is_scheduled(server_id) ==> final(self).spec_key_of(server_id)
                == Some(IMMEDIATE_KEY),
            forall|t: u64| t != server_id ==> final(self).spec_key_of(t) == old(self).spec_key_of(t),
    {
        if !self.is_scheduled(server_id) {
            self.register_completion(server_id, IMMEDIATE_KEY);
        }
    }

    /// One driver pass: every `(server, key)` entry whose key is due at
    /// `now` leaves the index and is returned, oldest key first, so the
    /// driver starts the longest-due transitions before newer ones.
    pub fn take_due(&mut self, now: u64) -> (due: Vec<(u64, u64)>)
        requires
            old(self).wf(),
        ensures
            final(self).wf(),
            // what stays is exactly what was not yet due
            forall|t: u64|
                #![trigger final(self).spec_key_of(t)]
                final(self).spec_key_of(t) == (if old(self).spec_key_of(t) matches Some(k) && k
                    <= now {
                    None::<u64>
                } else {
                    old(self).spec_key_of(t)
                }),
            // each returned entry was scheduled so, and was due
            forall|i: int|
                #![trigger due@[i]]
                0 <= i < due@.len() ==> old(self).spec_key_of(due@[i].0) == Some(due@[i].1)
                    && due@[i].1 <= now,
            // every due server is returned
            forall|t: u64|
                old(self).spec_is_scheduled(t) && !final(self).spec_is_scheduled(t) ==> exists|
                    i: int,
                |
                    0 <= i < due@.len() && due@[i].0 == t,
            // once each, oldest key first
            forall|i: int, j: int| 0 <= i < j < due@.len() ==> due@[i].0 != due@[j].0,
            forall|i: int, j: int| 0 <= i < j < due@.len() ==> due@[i].1 <= due@[j].1,
    {
        let ghost orig = *self;
        let mut due: Vec<(u64, u64)> = Vec::new();
        loop
            invariant
                self.wf(),
                forall|t: u64|
                    #![trigger self.spec_key_of(t)]
                    (exists|i: int| 0 <= i < due@.len() && due@[i].0 == t) ==> self.spec_key_of(t)
                        is None,
                forall|t: u64|
                    #![trigger self.spec_key_of(t)]
                    !(exists|i: int| 0 <= i < due@.len() && due@[i].0 == t) ==> self.spec_key_of(t)
                        == orig.spec_key_of(t),
                forall|i: int|
                    #![trigger due@[i]]
                    0 <= i < due@.len() ==> orig.spec_key_of(due@[i].0) == Some(due@[i].1)
                        && due@[i].1 <= now,
                forall|i: int, j: int| 0 <= i < j < due@.len() ==> due@[i].0 != due@[j].0,
                forall|i: int, j: int| 0 <= i < j < due@.len() ==> due@[i].1 <= due@[j].1,
                forall|i: int, t: u64|
                    #![trigger due@[i], self.spec_key_of(t)]
                    0 <= i < due@.len() && self.spec_key_of(t) is Some && self.spec_key_of(t)->0
                        <= now ==> due@[i].1 <= self.spec_key_of(t)->0,
            ensures
                self.wf(),
                forall|j: int| 0 <= j < self.entries@.len() ==> self.entries@[j].1 > now,
                forall|t: u64|
                    #![trigger self.spec_key_of(t)]
                    (exists|i: int| 0 <= i < due@.len() && due@[i].0 == t) ==> self.spec_key_of(t)
                        is None,
                forall|t: u64|
                    #![trigger self.spec_key_of(t)]
                    !(exists|i: int| 0 <= i < due@.len() && due@[i].0 == t) ==> self.spec_key_of(t)
                        == orig.spec_key_of(t),
                forall|i: int|
                    #![trigger due@[i]]
                    0 <= i < due@.len() ==> orig.spec_key_of(due@[i].0) == Some(due@[i].1)
                        && due@[i].1 <= now,
                forall|i: int, j: int| 0 <= i < j < due@.len() ==> due@[i].0 != due@[j].0,
                forall|i: int, j: int| 0 <= i < j < due@.len() ==> due@[i].1 <= due@[j].1,
            decreases self.entries@.len(),
        {
            let ghost pre = *self;
            let ghost due0 = due@;
            let mut best: Option<usize> = None;
            let mut i: usize = 0;
            while i < self.entries.len()
                invariant
                    i <= self.entries@.len(),
                    match best {
                        Some(b) => b < i && self.entries@[b as int].1 <= now && forall|j: int|
                            0 <= j < i && self.entries@[j].1 <= now
                                ==> self.entries@[b as int].1 <= self.entries@[j].1,
                        None => forall|j: int| 0 <= j < i ==> self.entries@[j].1 > now,
                    },
                decreases self.entries@.len() - i,
            {
                let candidate = self.entries[i].1;
                if candidate <= now {
                    best = match best {
                        None => Some(i),
                        Some(b) => if candidate < self.entries[b].1 {
                            Some(i)
                        } else {
                            Some(b)
                        },
                    };
                }
                i += 1;
            }
            let b = match best {
                None => {
                    break ;
                },
                Some(b) => b,
            };
            let entry = self.entries.remove(b);
            due.push(entry);
            proof {
                let t0 = entry.0;
                lemma_find_key_at(pre.entries@, b as int, t0);
                assert(pre.spec_key_of(t0) == Some(entry.1));
                // this server had not been taken yet
                assert(!(exists|i: int| 0 <= i < due0.len() && due0[i].0 == t0));
                // how the removal moved the lookups
                assert forall|t: u64| true implies #[trigger] self.spec_key_of(t) == (if t == t0 {
                    None::<u64>
                } else {
                    pre.spec_key_of(t)
                }) by {
                    lemma_find_key_remove(pre.entries@, b as int, t);
                }
                // the removed key was the least among the still-due ones
                assert forall|t: u64|
                    self.spec_key_of(t) is Some && self.spec_key_of(t)->0 <= now implies entry.1
                        <= self.spec_key_of(t)->0 by {
                    lemma_find_key_none(pre.entries@, t);
                    let e = choose|e: int|
                        0 <= e < pre.entries@.len() && pre.entries@[e].0 == t;
                    lemma_find_key_at(pre.entries@, e, t);
                }
                // each invariant, re-established over the grown list
                assert forall|t: u64|
                    (exists|i: int| 0 <= i < due@.len() && due@[i].0 == t) implies #[trigger]
                    self.spec_key_of(t) is None by {
                    if t != t0 {
                        let i = choose|i: int| 0 <= i < due@.len() && due@[i].0 == t;
                        assert(due0[i] == due@[i]);
                        assert(pre.spec_key_of(t) is None);
                    }
                }
                assert forall|t: u64|
                    !(exists|i: int| 0 <= i < due@.len() && due@[i].0 == t) implies #[trigger]
                    self.spec_key_of(t) == orig.spec_key_of(t) by {
                    assert(due@[due0.len() as int].0 == t0);
                    assert(t != t0);
                    assert(!(exists|i: int| 0 <= i < due0.len() && due0[i].0 == t)) by {
                        if exists|i: int| 0 <= i < due0.len() && due0[i].0 == t {
                            let i = choose|i: int| 0 <= i < due0.len() && due0[i].0 == t;
                            assert(due@[i].0 == t);
                        }
                    }
                    assert(pre.spec_key_of(t) == orig.spec_key_of(t));
                }
                assert forall|i: int| 0 <= i < due@.len() implies #[trigger]
                    orig.spec_key_of(due@[i].0) == Some(due@[i].1) && due@[i].1 <= now by {
                    if i < due0.len() {
                        assert(due@[i] == due0[i]);
                    } else {
                        assert(due@[i] == entry);
                        assert(pre.spec_key_of(t0) == orig.spec_key_of(t0));
                    }
                }
                assert forall|i: int, j: int| 0 <= i < j < due@.len() implies due@[i].0
                    != due@[j].0 by {
                    if j < due0.len() {
                        assert(due@[i] == due0[i] && due@[j] == due0[j]);
                    } else {
                        assert(due@[i] == due0[i] && due@[j] == entry);
                        assert(pre.spec_key_of(due0[i].0) is None);
                    }
                }
                assert forall|i: int, j: int| 0 <= i < j < due@.len() implies due@[i].1
                    <= due@[j].1 by {
                    if j < due0.len() {
                        assert(due@[i] == due0[i] && due@[j] == due0[j]);
                    } else {
                        assert(due@[i] == due0[i] && due@[j] == entry);
                        assert(due0[i].1 <= entry.1) by {
                            assert(pre.spec_key_of(t0) == Some(entry.1));
                        }
                    }
                }
            }
        }
        proof {
            assert forall|t: u64|
                orig.spec_is_scheduled(t) && !self.spec_is_scheduled(t) implies exists|i: int|
                0 <= i < due@.len() && due@[i].0 == t by {
                if !(exists|i: int| 0 <= i < due@.len() && due@[i].0 == t) {
                    assert(self.spec_key_of(t) == orig.spec_key_of(t));
                }
            }
            assert forall|t: u64| true implies #[trigger] self.spec_key_of(t) == (if
                orig.spec_key_of(t) matches Some(k) && k <= now {
                None::<u64>
            } else {
                orig.spec_key_of(t)
            }) by {
                if self.spec_key_of(t) is Some {
                    lemma_find_key_none(self.entries@, t);
                    let e = choose|e: int|
                        0 <= e < self.entries@.len() && self.entries@[e].0 == t;
                    lemma_find_key_at(self.entries@, e, t);
                    assert(!(exists|i: int| 0 <= i < due@.len() && due@[i].0 == t));
                } else {
                    if exists|i: int| 0 <= i < due@.len() && due@[i].0 == t {
                        let i = choose|i: int| 0 <= i < due@.len() && due@[i].0 == t;
                        assert(orig.spec_key_of(due@[i].0) == Some(due@[i].1));
                    }
                }
            }
        }
        due
    }
}

/// In every well-formed index a server appears at most once, whatever was
/// registered or removed before: registering while scheduled is ruled out,
/// so no sequence of operations lists a server twice.
pub proof fn lemma_scheduled_at_most_once(index: CompletionIndex, server_id: u64)
    requires
        index.wf(),
    ensures
        index.spec_times_listed(server_id) <= 1,
{
    lemma_count_key_unique(index.entries@, server_id);
}

} // verus!
