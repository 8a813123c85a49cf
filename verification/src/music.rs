//! The session store and the playback facade.
//!
//! `MusicState` is the authoritative in-memory map from server to session
//! (queue and playing status) plus the completion index; callers share one
//! value of it behind one lock, acquired for the span of each operation
//! and released before any blocking call. `Music` carries the operations
//! a command handler composes: join, leave, play, queue, skip, status,
//! and the driver step that starts the next queued item.
//!
//! All voice I/O stays outside: the gateway's connection report comes in
//! as an argument, and a forced stop or a `ConnectFirst` answer tells the
//! caller what to ask of the gateway.

use vstd::prelude::*;
use crate::assoc::{
    find_key, find_index, lemma_find_key_at, lemma_find_key_none, lemma_find_key_push,
    lemma_find_key_remove, lemma_replace_entry, lemma_unique_keys_push, unique_keys,
};
use crate::completion::{CompletionIndex, IMMEDIATE_KEY};
use crate::error::Error;
use crate::request::{
    MusicPlaying, MusicRequest, SkipVote, duration_display, forces_stop, skip_outcome,
};

verus! {

/// One server's session: the pending queue and what is playing now.
///
/// A server with no session is absent (not connected); a session with
/// `playing == None` is connected-idle; with `Some` it is
/// connected-playing.
pub struct Session {
    /// Requests waiting to play, oldest first.
    pub queue: Vec<MusicRequest>,
    /// The record of the item playing now, if any.
    pub playing: Option<MusicPlaying>,
}

/// The per-server sessions and the completion index, mutated as one unit.
pub struct MusicState {
    /// One `(server, session)` entry per connected server.
    sessions: Vec<(u64, Session)>,
    /// Where each scheduled server waits for the driver.
    completion: CompletionIndex,
}

impl MusicState {
    /// No server has two sessions, and the completion index is sound.
    pub closed spec fn wf(&self) -> bool {
        unique_keys(self.sessions@) && self.completion.wf()
    }

    /// The session of a server, if it has one.
    pub closed spec fn spec_session(&self, server_id: u64) -> Option<Session> {
        find_key(self.sessions@, server_id)
    }

    /// Whether the server is connected (has a session).
    pub open spec fn spec_has_session(&self, server_id: u64) -> bool {
        self.spec_session(server_id) is Some
    }

    /// The server's queue; an absent server's queue is empty.
    pub open spec fn spec_queue(&self, server_id: u64) -> Seq<MusicRequest> {
        match self.spec_session(server_id) {
            Some(s) => s.queue@,
            None => Seq::empty(),
        }
    }

    /// The server's playing record, if a session holds one.
    pub open spec fn spec_playing(&self, server_id: u64) -> Option<MusicPlaying> {
        match self.spec_session(server_id) {
            Some(s) => s.playing,
            None => None,
        }
    }

    /// No playing record: connected-idle, or absent.
    pub open spec fn spec_is_idle(&self, server_id: u64) -> bool {
        self.spec_playing(server_id) is None
    }

    /// The completion key the server is scheduled under, if any.
    pub closed spec fn spec_scheduled_key(&self, server_id: u64) -> Option<u64> {
        self.completion.spec_key_of(server_id)
    }

    /// Whether the server sits anywhere in the completion index.
    pub open spec fn spec_is_scheduled(&self, server_id: u64) -> bool {
        self.spec_scheduled_key(server_id) is Some
    }

    /// An empty store: every server absent, nothing scheduled.
    pub fn new() -> (r: MusicState)
        ensures
            r.wf(),
            forall|t: u64| !r.spec_has_session(t),
            forall|t: u64| !r.spec_is_scheduled(t),
    {
        let completion = CompletionIndex::new();
        let ghost c = completion;
        let r = MusicState { sessions: Vec::new(), completion };
        proof {
            assert forall|t: u64| !r.spec_is_scheduled(t) by {
                assert(!c.spec_is_scheduled(t));
            }
        }
        r
    }

    /// Whether the server is connected.
    pub fn has_session(&self, server_id: u64) -> (r: bool)
        requires
            self.wf(),
        ensures
            r == self.spec_has_session(server_id),
    {
        match find_index(&self.sessions, server_id) {
            Some(i) => {
                proof {
                    lemma_find_key_at(self.sessions@, i as int, server_id);
                }
                true
            },
            None => {
                proof {
                    lemma_find_key_none(self.sessions@, server_id);
                }
                false
            },
        }
    }

    /// Whether the server sits in the completion index.
    pub fn is_scheduled(&self, server_id: u64) -> (r: bool)
        requires
            self.wf(),
        ensures
            r == self.spec_is_scheduled(server_id),
    {
        self.completion.is_scheduled(server_id)
    }

    /// The completion key the server is scheduled under, if any.
    pub fn scheduled_key(&self, server_id: u64) -> (r: Option<u64>)
        requires
            self.wf(),
        ensures
            r == self.spec_scheduled_key(server_id),
    {
        self.completion.scheduled_key(server_id)
    }

    /// Inserts a connected-idle session with an empty queue if the server
    /// is absent; a no-op otherwise. Connecting the gateway is the
    /// caller's business, before this call.
    pub fn ensure_session(&mut self, server_id: u64)
        requires
            old(self).wf(),
        ensures
            final(self).wf(),
            final(self).spec_has_session(server_id),
            old(self).spec_has_session(server_id) ==> *final(self) == *old(self),
            !old(self).spec_has_session(server_id) ==> final(self).spec_queue(server_id)
                == Seq::<MusicRequest>::empty() && final(self).spec_playing(server_id) is None,
            forall|t: u64|
                t != server_id ==> final(self).spec_session(t) == old(self).spec_session(t),
            forall|t: u64| final(self).spec_scheduled_key(t) == old(self).spec_scheduled_key(t),
    {
        match find_index(&self.sessions, server_id) {
            Some(i) => {
                proof {
                    lemma_find_key_at(self.sessions@, i as int, server_id);
                }
            },
            None => {
                let ghost s0 = self.sessions@;
                let sess = Session { queue: Vec::new(), playing: None };
                let ghost gv = sess;
                self.sessions.push((server_id, sess));
                proof {
                    lemma_find_key_none(s0, server_id);
                    lemma_unique_keys_push(s0, server_id, gv);
                    lemma_find_key_push(s0, server_id, gv, server_id);
                    assert forall|t: u64| t != server_id implies self.spec_session(t) == old(self).spec_session(t) by {
                        lemma_find_key_push(s0, server_id, gv, t);
                    }
                }
            },
        }
    }

    /// Appends a request to the server's queue. Fails with `NotConnected`,
    /// mutating nothing, when the server is absent: `ensure_session` comes
    /// first.
    pub fn enqueue(&mut self, server_id: u64, request: MusicRequest) -> (r: Result<(), Error>)
        requires
            old(self).wf(),
        ensures
            final(self).wf(),
            r is Ok <==> old(self).spec_has_session(server_id),
            r is Err ==> r == Err::<(), Error>(Error::NotConnected) && *final(self) == *old(self),
            r is Ok ==> final(self).spec_queue(server_id) == old(self).spec_queue(
                server_id,
            ).push(request) && final(self).spec_playing(server_id) == old(self).spec_playing(
                server_id,
            ) && final(self).spec_has_session(server_id),
            forall|t: u64|
                t != server_id ==> final(self).spec_session(t) == old(self).spec_session(t),
            forall|t: u64| final(self).spec_scheduled_key(t) == old(self).spec_scheduled_key(t),
    {
        match find_index(&self.sessions, server_id) {
            None => {
                proof {
                    lemma_find_key_none(self.sessions@, server_id);
                }
                Err(Error::NotConnected)
            },
            Some(i) => {
                let ghost s0 = self.sessions@;
                proof {
                    lemma_find_key_at(s0, i as int, server_id);
                }
                let (k, mut sess) = self.sessions.remove(i);
                sess.queue.push(request);
                let ghost gv = sess;
                self.sessions.push((k, sess));
                proof {
                    assert(self.sessions@ =~= s0.remove(i as int).push((s0[i as int].0, gv)));
                    lemma_replace_entry(s0, i as int, gv, server_id);
                    assert forall|t: u64| t != server_id implies self.spec_session(t) == old(self).spec_session(t) by {
                        lemma_replace_entry(s0, i as int, gv, t);
                    }
                }
                Ok(())
            },
        }
    }

    /// Removes the server's session entirely, and with it any pending
    /// completion-index membership, so no dangling scheduling survives.
    pub fn teardown_session(&mut self, server_id: u64)
        requires
            old(self).wf(),
        ensures
            final(self).wf(),
            !final(self).spec_has_session(server_id),
            !final(self).spec_is_scheduled(server_id),
            forall|t: u64|
                t != server_id ==> final(self).spec_session(t) == old(self).spec_session(t),
            forall|t: u64|
                t != server_id ==> final(self).spec_scheduled_key(t) == old(self).spec_scheduled_key(t),
    {
        match find_index(&self.sessions, server_id) {
            Some(i) => {
                let ghost s0 = self.sessions@;
                self.sessions.remove(i);
                proof {
                    lemma_find_key_remove(s0, i as int, server_id);
                    assert forall|t: u64| t != server_id implies self.spec_session(t) == old(self).spec_session(t) by {
                        lemma_find_key_remove(s0, i as int, t);
                    }
                }
            },
            None => {
                proof {
                    lemma_find_key_none(self.sessions@, server_id);
                }
            },
        }
        self.completion.remove_server(server_id);
    }

    /// Whether a freshly queued song should be started at once: the server
    /// has no playing record and the gateway reports an active voice
    /// connection. The gateway's report is handed in by the caller.
    pub fn is_idle_and_connected(&self, server_id: u64, gateway_connected: bool) -> (r: bool)
        requires
            self.wf(),
        ensures
            r == (gateway_connected && self.spec_is_idle(server_id)),
    {
        let idle = match find_index(&self.sessions, server_id) {
            Some(i) => {
                proof {
                    lemma_find_key_at(self.sessions@, i as int, server_id);
                }
                self.sessions[i].1.playing.is_none()
            },
            None => {
                proof {
                    lemma_find_key_none(self.sessions@, server_id);
                }
                true
            },
        };
        gateway_connected && idle
    }

    /// Schedules the server for an immediate start, unless it is already
    /// scheduled there or elsewhere.
    pub fn schedule_immediate_start(&mut self, server_id: u64)
        requires
            old(self).wf(),
        ensures
            final(self).wf(),
            final(self).spec_is_scheduled(server_id),
            old(self).spec_is_scheduled(server_id) ==> final(self).spec_scheduled_key(server_id)
                == old(self).spec_scheduled_key(server_id),
            !old(self).spec_is_scheduled(server_id) ==> final(self).spec_scheduled_key(server_id)
                == Some(IMMEDIATE_KEY),
            forall|t: u64|
                t != server_id ==> final(self).spec_scheduled_key(t) == old(self).spec_scheduled_key(t),
            forall|t: u64| final(self).spec_session(t) == old(self).spec_session(t),
    {
        self.completion.schedule_immediate(server_id);
    }

    /// One driver pass over the completion index: every server whose key
    /// is due at `now` leaves the index and is returned with that key,
    /// oldest key first, so queue transitions start longest-due first.
    /// Sessions are untouched; the caller starts each returned server's
    /// next item.
    pub fn take_due(&mut self, now: u64) -> (due: Vec<(u64, u64)>)
        requires
            old(self).wf(),
        ensures
            final(self).wf(),
            forall|t: u64|
                #![trigger final(self).spec_scheduled_key(t)]
                final(self).spec_scheduled_key(t) == (if old(self).spec_scheduled_key(t) matches
                    Some(k) && k <= now {
                    None::<u64>
                } else {
                    old(self).spec_scheduled_key(t)
                }),
            forall|i: int|
                #![trigger due@[i]]
                0 <= i < due@.len() ==> old(self).spec_scheduled_key(due@[i].0) == Some(due@[i].1)
                    && due@[i].1 <= now,
            forall|t: u64|
                old(self).spec_is_scheduled(t) && !final(self).spec_is_scheduled(t) ==> exists|
                    i: int,
                |
                    0 <= i < due@.len() && due@[i].0 == t,
            forall|i: int, j: int| 0 <= i < j < due@.len() ==> due@[i].0 != due@[j].0,
            forall|i: int, j: int| 0 <= i < j < due@.len() ==> due@[i].1 <= due@[j].1,
            forall|t: u64| final(self).spec_session(t) == old(self).spec_session(t),
    {
        let ghost pre = *self;
        let due = self.completion.take_due(now);
        proof {
            assert forall|t: u64|
                old(self).spec_is_scheduled(t) && !self.spec_is_scheduled(t) implies exists|i: int|
                0 <= i < due@.len() && due@[i].0 == t by {
                assert(pre.completion.spec_is_scheduled(t));
                assert(!self.completion.spec_is_scheduled(t));
            }
        }
        due
    }
}

/// What `play` must do before touching the queue, when the server may not
/// be connected yet.
#[derive(Copy, Clone, Debug, PartialEq, Eq, Structural)]
pub enum PlayPrep {
    /// A session exists, or a URL was given: go on to resolve and enqueue.
    Proceed,
    /// No session, but the requesting user sits in this voice channel:
    /// connect there first, then go on.
    ConnectFirst(u64),
    /// No session, the user is in no voice channel, and no URL was given:
    /// report that nothing was done.
    NothingToDo,
}

/// One displayed queue entry: the item's title, who asked for it, and the
/// duration rendered `MM:SS`.
pub struct QueueLine {
    /// The item's display title.
    pub title: String,
    /// Display name of the requesting user.
    pub requester_name: String,
    /// The duration, rendered by [`crate::request::get_duration`].
    pub duration: String,
}

/// The progress report for the item playing now.
pub struct PlayStatus {
    /// The item's display title.
    pub title: String,
    /// Seconds played so far: now minus the start time.
    pub elapsed: i128,
    /// Seconds left: start time plus duration, minus now.
    pub remaining: i128,
    /// The item's full duration in seconds.
    pub duration: u64,
}

/// The completion key for an item of `duration` seconds started at `now`:
/// their sum, stopped at the largest key.
pub open spec fn completion_key(now: u64, duration: u64) -> u64 {
    if now + duration > u64::MAX {
        u64::MAX
    } else {
        (now + duration) as u64
    }
}

/// Whether `voter` is among the counted votes.
fn contains_vote(votes: &Vec<u64>, voter: u64) -> (r: bool)
    ensures
        r == votes@.contains(voter),
{
    let mut i: usize = 0;
    while i < votes.len()
        invariant
            i <= votes@.len(),
            forall|j: int| 0 <= j < i ==> votes@[j] != voter,
        decreases votes@.len() - i,
    {
        if votes[i] == voter {
            assert(votes@.contains(voter)) by {
                assert(votes@[i as int] == voter);
            }
            return true;
        }
        i += 1;
    }
    false
}

/// Relies on `chrono::Utc::now`: the wall clock's seconds since the Unix
/// epoch, whatever the system clock reports.
#[verifier::external_body]
fn now_timestamp() -> (r: i64) {
    chrono::Utc::now().timestamp()
}

/// The playback facade: the state every command handler shares.
pub struct Music {
    /// The shared coordinator state. Callers wrap the whole `Music` value
    /// in their lock of choice and hold it across each call.
    pub state: MusicState,
}

impl Music {
    /// The store's well-formedness.
    pub open spec fn wf(&self) -> bool {
        self.state.wf()
    }

    /// A fresh facade over an empty store.
    pub fn new() -> (r: Music)
        ensures
            r.wf(),
            forall|t: u64| !r.state.spec_has_session(t),
            forall|t: u64| !r.state.spec_is_scheduled(t),
    {
        Music { state: MusicState::new() }
    }

    /// Joins a voice channel's server: rejected — not silently ignored —
    /// with `AlreadyConnected` when a session exists; otherwise the caller
    /// connects the gateway (mute-deaf) and a connected-idle session is
    /// made.
    pub fn join(&mut self, server_id: u64) -> (r: Result<(), Error>)
        requires
            old(self).wf(),
        ensures
            final(self).wf(),
            r is Ok <==> !old(self).state.spec_has_session(server_id),
            r is Err ==> r == Err::<(), Error>(Error::AlreadyConnected) && *final(self) == *old(self),
            r is Ok ==> final(self).state.spec_has_session(server_id) && final(self).state.spec_queue(server_id) == Seq::<MusicRequest>::empty() && final(self).state.spec_playing(server_id) is None,
            forall|t: u64|
                t != server_id ==> final(self).state.spec_session(t) == old(self).state.spec_session(
                    t,
                ),
            forall|t: u64|
                final(self).state.spec_scheduled_key(t) == old(self).state.spec_scheduled_key(t),
    {
        if self.state.has_session(server_id) {
            Err(Error::AlreadyConnected)
        } else {
            self.state.ensure_session(server_id);
            Ok(())
        }
    }

    /// Leaves a server: the caller disconnects the gateway (tolerating a
    /// missing connection), and the session, its queue, and any completion
    /// scheduling are dropped. Safe to repeat.
    pub fn leave(&mut self, server_id: u64)
        requires
            old(self).wf(),
        ensures
            final(self).wf(),
            !final(self).state.spec_has_session(server_id),
            !final(self).state.spec_is_scheduled(server_id),
            forall|t: u64|
                t != server_id ==> final(self).state.spec_session(t) == old(self).state.spec_session(
                    t,
                ),
            forall|t: u64|
                t != server_id ==> final(self).state.spec_scheduled_key(t) == old(self).state.spec_scheduled_key(t),
    {
        self.state.teardown_session(server_id);
    }

    /// What `play` must do before any enqueue: proceed when a session
    /// exists; connect to the user's voice channel first when there is
    /// none; report `NothingToDo` when there is also no URL to queue.
    pub fn play_prepare(&self, server_id: u64, user_voice_channel: Option<u64>, has_url: bool) -> (r:
        PlayPrep)
        requires
            self.wf(),
        ensures
            self.state.spec_has_session(server_id) ==> r == PlayPrep::Proceed,
            !self.state.spec_has_session(server_id) ==> r == (match user_voice_channel {
                Some(c) => PlayPrep::ConnectFirst(c),
                None => if has_url {
                    PlayPrep::Proceed
                } else {
                    PlayPrep::NothingToDo
                },
            }),
    {
        if self.state.has_session(server_id) {
            PlayPrep::Proceed
        } else {
            match user_voice_channel {
                Some(c) => PlayPrep::ConnectFirst(c),
                None => if has_url {
                    PlayPrep::Proceed
                } else {
                    PlayPrep::NothingToDo
                },
            }
        }
    }

    /// Queues a resolved request: the session is ensured, the request goes
    /// onto the end of this server's queue — no other server's queue
    /// moves — and, exactly when the server was idle and the gateway
    /// reported a connection before this enqueue and nothing was scheduled
    /// yet, the server is registered for an immediate start.
    pub fn play(&mut self, server_id: u64, request: MusicRequest, gateway_connected: bool)
        requires
            old(self).wf(),
        ensures
            final(self).wf(),
            final(self).state.spec_has_session(server_id),
            final(self).state.spec_queue(server_id) == old(self).state.spec_queue(server_id).push(
                request,
            ),
            final(self).state.spec_playing(server_id) == old(self).state.spec_playing(server_id),
            forall|t: u64|
                t != server_id ==> final(self).state.spec_session(t) == old(self).state.spec_session(
                    t,
                ),
            forall|t: u64|
                t != server_id ==> final(self).state.spec_scheduled_key(t) == old(self).state.spec_scheduled_key(t),
            (gateway_connected && old(self).state.spec_is_idle(server_id) && !old(self).state.spec_is_scheduled(server_id)) ==> final(self).state.spec_scheduled_key(server_id)
                == Some(IMMEDIATE_KEY),
            !(gateway_connected && old(self).state.spec_is_idle(server_id) && !old(self).state.spec_is_scheduled(server_id)) ==> final(self).state.spec_scheduled_key(server_id)
                == old(self).state.spec_scheduled_key(server_id),
    {
        let start_now = self.state.is_idle_and_connected(server_id, gateway_connected);
        self.state.ensure_session(server_id);
        let queued = self.state.enqueue(server_id, request);
        proof {
            assert(queued is Ok);
        }
        if start_now {
            self.state.schedule_immediate_start(server_id);
        }
    }

    /// The server's queue for display, oldest first, or `EmptyQueue` when
    /// the server has no session or nothing queued. Read-only.
    pub fn queue(&self, server_id: u64) -> (r: Result<Vec<QueueLine>, Error>)
        requires
            self.wf(),
        ensures
            r is Ok <==> self.state.spec_queue(server_id).len() > 0,
            r is Err ==> r == Err::<Vec<QueueLine>, Error>(Error::EmptyQueue),
            r matches Ok(lines) ==> lines@.len() == self.state.spec_queue(server_id).len()
                && forall|j: int|
                #![all_triggers]
                0 <= j < lines@.len() ==> {
                    &&& lines@[j].title@ == self.state.spec_queue(server_id)[j].response.data.title@
                    &&& lines@[j].requester_name@ == self.state.spec_queue(
                        server_id,
                    )[j].requester_name@
                    &&& lines@[j].duration@ == duration_display(
                        self.state.spec_queue(server_id)[j].response.data.duration,
                    )
                },
    {
        match find_index(&self.state.sessions, server_id) {
            None => {
                proof {
                    lemma_find_key_none(self.state.sessions@, server_id);
                }
                Err(Error::EmptyQueue)
            },
            Some(i) => {
                proof {
                    lemma_find_key_at(self.state.sessions@, i as int, server_id);
                }
                let n = self.state.sessions[i].1.queue.len();
                if n == 0 {
                    return Err(Error::EmptyQueue);
                }
                let ghost q = self.state.spec_queue(server_id);
                let mut lines: Vec<QueueLine> = Vec::new();
                let mut j: usize = 0;
                while j < n
                    invariant
                        i < self.state.sessions@.len(),
                        n == self.state.sessions@[i as int].1.queue@.len(),
                        q == self.state.sessions@[i as int].1.queue@,
                        j <= n,
                        lines@.len() == j,
                        forall|k: int|
                            #![all_triggers]
                            0 <= k < j ==> {
                                &&& lines@[k].title@ == q[k].response.data.title@
                                &&& lines@[k].requester_name@ == q[k].requester_name@
                                &&& lines@[k].duration@ == duration_display(
                                    q[k].response.data.duration,
                                )
                            },
                    decreases n - j,
                {
                    let req = &self.state.sessions[i].1.queue[j];
                    let line = QueueLine {
                        title: req.response.data.title.clone(),
                        requester_name: req.requester_name.clone(),
                        duration: req.format_duration(),
                    };
                    lines.push(line);
                    j += 1;
                }
                Ok(lines)
            },
        }
    }

    /// One skip request by `voter`, decided by [`skip_outcome`] against
    /// the playing record: the requester's own skip and a vote reaching
    /// the tally force a stop — the record is cleared, the server leaves
    /// the completion index wherever it sat, and the caller tells the
    /// gateway to stop —, a fresh vote short of the tally is counted, a
    /// repeated vote changes nothing. With no record, `NoSongPlaying` and
    /// no mutation.
    pub fn skip(&mut self, server_id: u64, voter: u64) -> (r: Result<SkipVote, Error>)
        requires
            old(self).wf(),
        ensures
            final(self).wf(),
            r is Ok <==> old(self).state.spec_playing(server_id) is Some,
            r is Err ==> r == Err::<SkipVote, Error>(Error::NoSongPlaying) && *final(self) == *old(self),
            forall|t: u64|
                t != server_id ==> final(self).state.spec_session(t) == old(self).state.spec_session(
                    t,
                ),
            forall|t: u64|
                t != server_id ==> final(self).state.spec_scheduled_key(t) == old(self).state.spec_scheduled_key(t),
            old(self).state.spec_playing(server_id) matches Some(rec) ==> {
                &&& r == Ok::<SkipVote, Error>(skip_outcome(rec, voter))
                &&& final(self).state.spec_has_session(server_id)
                &&& final(self).state.spec_queue(server_id) == old(self).state.spec_queue(server_id)
                &&& (forces_stop(skip_outcome(rec, voter)) ==> final(self).state.spec_playing(
                    server_id,
                ) is None && !final(self).state.spec_is_scheduled(server_id))
                &&& (skip_outcome(rec, voter) == SkipVote::AlreadyVoted ==> *final(self) == *old(self))
                &&& (skip_outcome(rec, voter) == SkipVote::Voted ==> (final(self).state.spec_playing(server_id) matches Some(rec2) && {
                    &&& rec2.req == rec.req
                    &&& rec2.skip_votes_required == rec.skip_votes_required
                    &&& rec2.started_at == rec.started_at
                    &&& rec2.skip_votes@ == rec.skip_votes@.push(voter)
                    &&& final(self).state.spec_scheduled_key(server_id) == old(self).state.spec_scheduled_key(server_id)
                }))
            },
    {
        let i = match find_index(&self.state.sessions, server_id) {
            None => {
                proof {
                    lemma_find_key_none(self.state.sessions@, server_id);
                }
                return Err(Error::NoSongPlaying);
            },
            Some(i) => i,
        };
        proof {
            lemma_find_key_at(self.state.sessions@, i as int, server_id);
        }
        let outcome = match &self.state.sessions[i].1.playing {
            None => {
                return Err(Error::NoSongPlaying);
            },
            Some(rec) => {
                if voter == rec.req.requester {
                    SkipVote::VoterSkipped
                } else if contains_vote(&rec.skip_votes, voter) {
                    SkipVote::AlreadyVoted
                } else {
                    let needed = rec.skip_votes_required as usize;
                    if needed == 0 || rec.skip_votes.len() >= needed - 1 {
                        SkipVote::Passed
                    } else {
                        SkipVote::Voted
                    }
                }
            },
        };
        match outcome {
            SkipVote::AlreadyVoted => Ok(SkipVote::AlreadyVoted),
            SkipVote::Voted => {
                let ghost s0 = self.state.sessions@;
                let (k, mut sess) = self.state.sessions.remove(i);
                let mut rec = match sess.playing {
                    Some(rec) => rec,
                    None => vstd::pervasive::unreached(),
                };
                rec.skip_votes.push(voter);
                sess.playing = Some(rec);
                let ghost gv = sess;
                self.state.sessions.push((k, sess));
                proof {
                    assert(self.state.sessions@ =~= s0.remove(i as int).push(
                        (s0[i as int].0, gv),
                    ));
                    lemma_replace_entry(s0, i as int, gv, server_id);
                    assert forall|t: u64| t != server_id implies self.state.spec_session(t) == old(self).state.spec_session(t) by {
                        lemma_replace_entry(s0, i as int, gv, t);
                    }
                }
                Ok(SkipVote::Voted)
            },
            _ => {
                let ghost s0 = self.state.sessions@;
                let (k, mut sess) = self.state.sessions.remove(i);
                sess.playing = None;
                let ghost gv = sess;
                self.state.sessions.push((k, sess));
                proof {
                    assert(self.state.sessions@ =~= s0.remove(i as int).push(
                        (s0[i as int].0, gv),
                    ));
                    lemma_replace_entry(s0, i as int, gv, server_id);
                    assert forall|t: u64| t != server_id implies self.state.spec_session(t) == old(self).state.spec_session(t) by {
                        lemma_replace_entry(s0, i as int, gv, t);
                    }
                }
                self.state.completion.remove_server(server_id);
                Ok(outcome)
            },
        }
    }

    /// The tally the last counted vote left: counted votes so far and the
    /// number required. `NoSongPlaying` when no record exists.
    pub fn skip_tally(&self, server_id: u64) -> (r: Result<(usize, u16), Error>)
        requires
            self.wf(),
        ensures
            r is Ok <==> self.state.spec_playing(server_id) is Some,
            r is Err ==> r == Err::<(usize, u16), Error>(Error::NoSongPlaying),
            self.state.spec_playing(server_id) matches Some(rec) ==> r == Ok::<
                (usize, u16),
                Error,
            >((rec.skip_votes@.len() as usize, rec.skip_votes_required)),
    {
        match find_index(&self.state.sessions, server_id) {
            None => {
                proof {
                    lemma_find_key_none(self.state.sessions@, server_id);
                }
                Err(Error::NoSongPlaying)
            },
            Some(i) => {
                proof {
                    lemma_find_key_at(self.state.sessions@, i as int, server_id);
                }
                match &self.state.sessions[i].1.playing {
                    None => Err(Error::NoSongPlaying),
                    Some(rec) => Ok((rec.skip_votes.len(), rec.skip_votes_required)),
                }
            },
        }
    }

    /// The progress of the item playing now, measured at `now` (seconds
    /// since the epoch): seconds played and seconds left.
    /// `NoSongPlaying` when no record exists.
    pub fn status_at(&self, server_id: u64, now: u64) -> (r: Result<PlayStatus, Error>)
        requires
            self.wf(),
        ensures
            r is Ok <==> self.state.spec_playing(server_id) is Some,
            r is Err ==> r == Err::<PlayStatus, Error>(Error::NoSongPlaying),
            self.state.spec_playing(server_id) matches Some(rec) ==> r matches Ok(st)
                && st.title@ == rec.req.response.data.title@ && st.duration
                == rec.req.response.data.duration && st.elapsed == now - rec.started_at
                && st.remaining == rec.started_at + rec.req.response.data.duration - now,
    {
        match find_index(&self.state.sessions, server_id) {
            None => {
                proof {
                    lemma_find_key_none(self.state.sessions@, server_id);
                }
                Err(Error::NoSongPlaying)
            },
            Some(i) => {
                proof {
                    lemma_find_key_at(self.state.sessions@, i as int, server_id);
                }
                match &self.state.sessions[i].1.playing {
                    None => Err(Error::NoSongPlaying),
                    Some(rec) => {
                        let duration = rec.req.response.data.duration;
                        let elapsed: i128 = now as i128 - rec.started_at as i128;
                        let remaining: i128 = rec.started_at as i128 + duration as i128
                            - now as i128;
                        Ok(
                            PlayStatus {
                                title: rec.req.response.data.title.clone(),
                                elapsed,
                                remaining,
                                duration,
                            },
                        )
                    },
                }
            },
        }
    }

    /// The progress of the item playing now, measured on the wall clock.
    /// Whatever the clock reports, played and left add up to the item's
    /// duration.
    pub fn status(&self, server_id: u64) -> (r: Result<PlayStatus, Error>)
        requires
            self.wf(),
        ensures
            r is Ok <==> self.state.spec_playing(server_id) is Some,
            r is Err ==> r == Err::<PlayStatus, Error>(Error::NoSongPlaying),
            self.state.spec_playing(server_id) matches Some(rec) ==> r matches Ok(st)
                && st.title@ == rec.req.response.data.title@ && st.duration
                == rec.req.response.data.duration && st.elapsed + st.remaining
                == rec.req.response.data.duration,
    {
        let stamp = now_timestamp();
        let now: u64 = if stamp < 0 {
            0
        } else {
            stamp as u64
        };
        self.status_at(server_id, now)
    }

    /// The driver's step for a server whose completion key came due: its
    /// scheduling is consumed and whatever record just finished is over.
    /// When the server is connected with a non-empty queue, the head
    /// request becomes the playing record — votes empty, the given tally
    /// requirement, started at `now` — and the server is rescheduled under
    /// the item's expected completion key. With nothing queued the server
    /// is left connected-idle and out of the index.
    pub fn start_next(&mut self, server_id: u64, now: u64, skip_votes_required: u16) -> (started:
        bool)
        requires
            old(self).wf(),
        ensures
            final(self).wf(),
            started == (old(self).state.spec_has_session(server_id) && old(
                self,
            ).state.spec_queue(server_id).len() > 0),
            started ==> {
                &&& final(self).state.spec_queue(server_id) == old(self).state.spec_queue(
                    server_id,
                ).drop_first()
                &&& final(self).state.spec_playing(server_id) matches Some(rec) && rec.req == old(
                    self,
                ).state.spec_queue(server_id)[0] && rec.skip_votes_required == skip_votes_required
                    && rec.skip_votes@ == Seq::<u64>::empty() && rec.started_at == now
                &&& final(self).state.spec_scheduled_key(server_id) == Some(
                    completion_key(
                        now,
                        old(self).state.spec_queue(server_id)[0].response.data.duration,
                    ),
                )
            },
            !started ==> {
                &&& final(self).state.spec_playing(server_id) is None
                &&& final(self).state.spec_queue(server_id) == old(self).state.spec_queue(server_id)
                &&& final(self).state.spec_has_session(server_id) == old(
                    self,
                ).state.spec_has_session(server_id)
                &&& !final(self).state.spec_is_scheduled(server_id)
            },
            forall|t: u64|
                t != server_id ==> final(self).state.spec_session(t) == old(self).state.spec_session(
                    t,
                ),
            forall|t: u64|
                t != server_id ==> final(self).state.spec_scheduled_key(t) == old(
                    self,
                ).state.spec_scheduled_key(t),
    {
        match find_index(&self.state.sessions, server_id) {
            None => {
                proof {
                    lemma_find_key_none(self.state.sessions@, server_id);
                }
                self.state.completion.remove_server(server_id);
                false
            },
            Some(i) => {
                proof {
                    lemma_find_key_at(self.state.sessions@, i as int, server_id);
                }
                let has_queued = self.state.sessions[i].1.queue.len() > 0;
                if has_queued {
                    let ghost s0 = self.state.sessions@;
                    let (k, mut sess) = self.state.sessions.remove(i);
                    let head = sess.queue.remove(0);
                    let duration = head.response.data.duration;
                    sess.playing = Some(
                        MusicPlaying {
                            req: head,
                            skip_votes_required,
                            skip_votes: Vec::new(),
                            started_at: now,
                        },
                    );
                    let ghost gv = sess;
                    self.state.sessions.push((k, sess));
                    proof {
                        assert(self.state.sessions@ =~= s0.remove(i as int).push(
                            (s0[i as int].0, gv),
                        ));
                        lemma_replace_entry(s0, i as int, gv, server_id);
                        assert forall|t: u64| t != server_id implies self.state.spec_session(t)
                            == old(self).state.spec_session(t) by {
                            lemma_replace_entry(s0, i as int, gv, t);
                        }
                        assert(gv.queue@ =~= old(self).state.spec_queue(server_id).drop_first());
                    }
                    let key = if now <= u64::MAX - duration {
                        now + duration
                    } else {
                        u64::MAX
                    };
                    self.state.completion.remove_server(server_id);
                    self.state.completion.register_completion(server_id, key);
                    true
                } else {
                    let ghost s0 = self.state.sessions@;
                    let (k, mut sess) = self.state.sessions.remove(i);
                    sess.playing = None;
                    let ghost gv = sess;
                    self.state.sessions.push((k, sess));
                    proof {
                        assert(self.state.sessions@ =~= s0.remove(i as int).push(
                            (s0[i as int].0, gv),
                        ));
                        lemma_replace_entry(s0, i as int, gv, server_id);
                        assert forall|t: u64| t != server_id implies self.state.spec_session(t)
                            == old(self).state.spec_session(t) by {
                            lemma_replace_entry(s0, i as int, gv, t);
                        }
                    }
                    self.state.completion.remove_server(server_id);
                    false
                }
            },
        }
    }
}

} // verus!
