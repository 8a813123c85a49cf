//! Counts gateway events by kind, and renders the tallies grouped by
//! count in ascending order. Simple dispatch around the coordinator: the
//! gateway's own event values are mapped to [`EventType`] by the caller.

use vstd::prelude::*;
use vstd::string::StringExecFns;
use crate::assoc::{
    find_key, lemma_find_key_at, lemma_find_key_none, lemma_find_key_push, lemma_replace_entry,
    lemma_unique_keys_push, unique_keys,
};

verus! {

/// The kinds of gateway event that are tallied. `Any` counts every event.
#[derive(Copy, Clone, Debug, Hash, PartialEq, Eq, Structural)]
pub enum EventType {
    Any,
    CallCreate,
    CallDelete,
    CallUpdate,
    ChannelCreate,
    ChannelDelete,
    ChannelPinsAck,
    ChannelPinsUpdate,
    ChannelRecipientAdd,
    ChannelRecipientRemove,
    ChannelUpdate,
    MessageAck,
    MessageCreate,
    MessageDelete,
    MessageUpdate,
    PresenceUpdate,
    PresencesReplace,
    Ready,
    RelationshipAdd,
    RelationshipRemove,
    Resumed,
    ServerBanAdd,
    ServerBanRemove,
    ServerCreate,
    ServerDelete,
    ServerEmojisUpdate,
    ServerMemberAdd,
    ServerMemberRemove,
    ServerMemberUpdate,
    ServerMembersChunk,
    ServerIntegrationsUpdate,
    ServerRoleCreate,
    ServerRoleDelete,
    ServerRoleUpdate,
    ServerSync,
    ServerUpdate,
    TypingStart,
    Unknown,
    UserNoteUpdate,
    UserServerSettingsUpdate,
    UserSettingsUpdate,
    UserUpdate,
    VoiceServerUpdate,
    VoiceStateUpdate,
}

/// Every countable event kind, `Any` aside, in declaration order.
pub open spec fn event_types_list() -> Seq<EventType> {
    seq![
        EventType::CallCreate,
        EventType::CallDelete,
        EventType::CallUpdate,
        EventType::ChannelCreate,
        EventType::ChannelDelete,
        EventType::ChannelPinsAck,
        EventType::ChannelPinsUpdate,
        EventType::ChannelRecipientAdd,
        EventType::ChannelRecipientRemove,
        EventType::ChannelUpdate,
        EventType::MessageAck,
        EventType::MessageCreate,
        EventType::MessageDelete,
        EventType::MessageUpdate,
        EventType::PresenceUpdate,
        EventType::PresencesReplace,
        EventType::Ready,
        EventType::RelationshipAdd,
        EventType::RelationshipRemove,
        EventType::Resumed,
        EventType::ServerBanAdd,
        EventType::ServerBanRemove,
        EventType::ServerCreate,
        EventType::ServerDelete,
        EventType::ServerEmojisUpdate,
        EventType::ServerMemberAdd,
        EventType::ServerMemberRemove,
        EventType::ServerMemberUpdate,
        EventType::ServerMembersChunk,
        EventType::ServerIntegrationsUpdate,
        EventType::ServerRoleCreate,
        EventType::ServerRoleDelete,
        EventType::ServerRoleUpdate,
        EventType::ServerSync,
        EventType::ServerUpdate,
        EventType::TypingStart,
        EventType::Unknown,
        EventType::UserNoteUpdate,
        EventType::UserServerSettingsUpdate,
        EventType::UserSettingsUpdate,
        EventType::UserUpdate,
        EventType::VoiceServerUpdate,
        EventType::VoiceStateUpdate,
    ]
}

/// Every countable event kind, `Any` aside, in declaration order.
pub fn event_types() -> (r: [EventType; 43])
    ensures
        r@ == event_types_list(),
{
    let r = [
        EventType::CallCreate,
        EventType::CallDelete,
        EventType::CallUpdate,
        EventType::ChannelCreate,
        EventType::ChannelDelete,
        EventType::ChannelPinsAck,
        EventType::ChannelPinsUpdate,
        EventType::ChannelRecipientAdd,
        EventType::ChannelRecipientRemove,
        EventType::ChannelUpdate,
        EventType::MessageAck,
        EventType::MessageCreate,
        EventType::MessageDelete,
        EventType::MessageUpdate,
        EventType::PresenceUpdate,
        EventType::PresencesReplace,
        EventType::Ready,
        EventType::RelationshipAdd,
        EventType::RelationshipRemove,
        EventType::Resumed,
        EventType::ServerBanAdd,
        EventType::ServerBanRemove,
        EventType::ServerCreate,
        EventType::ServerDelete,
        EventType::ServerEmojisUpdate,
        EventType::ServerMemberAdd,
        EventType::ServerMemberRemove,
        EventType::ServerMemberUpdate,
        EventType::ServerMembersChunk,
        EventType::ServerIntegrationsUpdate,
        EventType::ServerRoleCreate,
        EventType::ServerRoleDelete,
        EventType::ServerRoleUpdate,
        EventType::ServerSync,
        EventType::ServerUpdate,
        EventType::TypingStart,
        EventType::Unknown,
        EventType::UserNoteUpdate,
        EventType::UserServerSettingsUpdate,
        EventType::UserSettingsUpdate,
        EventType::UserUpdate,
        EventType::VoiceServerUpdate,
        EventType::VoiceStateUpdate,
    ];
    proof {
        assert(r@ =~= event_types_list());
    }
    r
}

/// The display name of an event kind.
pub open spec fn spec_name(kind: EventType) -> Seq<char> {
    match kind {
        EventType::Any => "Any"@,
        EventType::CallCreate => "CallCreate"@,
        EventType::CallDelete => "CallDelete"@,
        EventType::CallUpdate => "CallUpdate"@,
        EventType::ChannelCreate => "ChannelCreate"@,
        EventType::ChannelDelete => "ChannelDelete"@,
        EventType::ChannelPinsAck => "ChannelPinsAck"@,
        EventType::ChannelPinsUpdate => "ChannelPinsUpdate"@,
        EventType::ChannelRecipientAdd => "ChannelRecipientAdd"@,
        EventType::ChannelRecipientRemove => "ChannelRecipientRemove"@,
        EventType::ChannelUpdate => "ChannelUpdate"@,
        EventType::MessageAck => "MessageAck"@,
        EventType::MessageCreate => "MessageCreate"@,
        EventType::MessageDelete => "MessageDelete"@,
        EventType::MessageUpdate => "MessageUpdate"@,
        EventType::PresenceUpdate => "PresenceUpdate"@,
        EventType::PresencesReplace => "PresencesReplace"@,
        EventType::Ready => "Ready"@,
        EventType::RelationshipAdd => "RelationshipAdd"@,
        EventType::RelationshipRemove => "RelationshipRemove"@,
        EventType::Resumed => "Resumed"@,
        EventType::ServerBanAdd => "ServerBanAdd"@,
        EventType::ServerBanRemove => "ServerBanRemove"@,
        EventType::ServerCreate => "ServerCreate"@,
        EventType::ServerDelete => "ServerDelete"@,
        EventType::ServerEmojisUpdate => "ServerEmojisUpdate"@,
        EventType::ServerMemberAdd => "ServerMemberAdd"@,
        EventType::ServerMemberRemove => "ServerMemberRemove"@,
        EventType::ServerMemberUpdate => "ServerMemberUpdate"@,
        EventType::ServerMembersChunk => "ServerMembersChunk"@,
        EventType::ServerIntegrationsUpdate => "ServerIntegrationsUpdate"@,
        EventType::ServerRoleCreate => "ServerRoleCreate"@,
        EventType::ServerRoleDelete => "ServerRoleDelete"@,
        EventType::ServerRoleUpdate => "ServerRoleUpdate"@,
        EventType::ServerSync => "ServerSync"@,
        EventType::ServerUpdate => "ServerUpdate"@,
        EventType::TypingStart => "TypingStart"@,
        EventType::Unknown => "Unknown"@,
        EventType::UserNoteUpdate => "UserNoteUpdate"@,
        EventType::UserServerSettingsUpdate => "UserServerSettingsUpdate"@,
        EventType::UserSettingsUpdate => "UserSettingsUpdate"@,
        EventType::UserUpdate => "UserUpdate"@,
        EventType::VoiceServerUpdate => "VoiceServerUpdate"@,
        EventType::VoiceStateUpdate => "VoiceStateUpdate"@,
    }
}

impl EventType {
    /// The display name of this event kind.
    pub fn name(&self) -> (r: &'static str)
        ensures
            r@ == spec_name(*self),
    {
        match self {
            EventType::Any => "Any",
            EventType::CallCreate => "CallCreate",
            EventType::CallDelete => "CallDelete",
            EventType::CallUpdate => "CallUpdate",
            EventType::ChannelCreate => "ChannelCreate",
            EventType::ChannelDelete => "ChannelDelete",
            EventType::ChannelPinsAck => "ChannelPinsAck",
            EventType::ChannelPinsUpdate => "ChannelPinsUpdate",
            EventType::ChannelRecipientAdd => "ChannelRecipientAdd",
            EventType::ChannelRecipientRemove => "ChannelRecipientRemove",
            EventType::ChannelUpdate => "ChannelUpdate",
            EventType::MessageAck => "MessageAck",
            EventType::MessageCreate => "MessageCreate",
            EventType::MessageDelete => "MessageDelete",
            EventType::MessageUpdate => "MessageUpdate",
            EventType::PresenceUpdate => "PresenceUpdate",
            EventType::PresencesReplace => "PresencesReplace",
            EventType::Ready => "Ready",
            EventType::RelationshipAdd => "RelationshipAdd",
            EventType::RelationshipRemove => "RelationshipRemove",
            EventType::Resumed => "Resumed",
            EventType::ServerBanAdd => "ServerBanAdd",
            EventType::ServerBanRemove => "ServerBanRemove",
            EventType::ServerCreate => "ServerCreate",
            EventType::ServerDelete => "ServerDelete",
            EventType::ServerEmojisUpdate => "ServerEmojisUpdate",
            EventType::ServerMemberAdd => "ServerMemberAdd",
            EventType::ServerMemberRemove => "ServerMemberRemove",
            EventType::ServerMemberUpdate => "ServerMemberUpdate",
            EventType::ServerMembersChunk => "ServerMembersChunk",
            EventType::ServerIntegrationsUpdate => "ServerIntegrationsUpdate",
            EventType::ServerRoleCreate => "ServerRoleCreate",
            EventType::ServerRoleDelete => "ServerRoleDelete",
            EventType::ServerRoleUpdate => "ServerRoleUpdate",
            EventType::ServerSync => "ServerSync",
            EventType::ServerUpdate => "ServerUpdate",
            EventType::TypingStart => "TypingStart",
            EventType::Unknown => "Unknown",
            EventType::UserNoteUpdate => "UserNoteUpdate",
            EventType::UserServerSettingsUpdate => "UserServerSettingsUpdate",
            EventType::UserSettingsUpdate => "UserSettingsUpdate",
            EventType::UserUpdate => "UserUpdate",
            EventType::VoiceServerUpdate => "VoiceServerUpdate",
            EventType::VoiceStateUpdate => "VoiceStateUpdate",
        }
    }
}

/// A counter bumped once more: one higher, held at the top of its range.
pub open spec fn next_count(count: Option<u64>) -> u64 {
    match count {
        None => 1,
        Some(c) => if c == u64::MAX {
            c
        } else {
            (c + 1) as u64
        },
    }
}

/// Per-kind tallies of the events seen so far.
pub struct EventCounter {
    /// One `(kind, tally)` entry per kind seen so far.
    counter: Vec<(EventType, u64)>,
}

/// Finds the position of `k` among the tallies.
fn find_event(v: &Vec<(EventType, u64)>, k: EventType) -> (r: Option<usize>)
    ensures
        match r {
            Some(i) => i < v@.len() && v@[i as int].0 == k,
            None => forall|i: int| 0 <= i < v@.len() ==> v@[i].0 != k,
        },
{
    let mut i: usize = 0;
    while i < v.len()
        invariant
            i <= v@.len(),
            forall|j: int| 0 <= j < i ==> v@[j].0 != k,
        decreases v@.len() - i,
    {
        if v[i].0 == k {
            return Some(i);
        }
        i += 1;
    }
    None
}

impl EventCounter {
    /// No kind is tallied twice.
    pub closed spec fn wf(&self) -> bool {
        unique_keys(self.counter@)
    }

    /// The tally of a kind; `None` until it is first counted.
    pub closed spec fn spec_count(&self, kind: EventType) -> Option<u64> {
        find_key(self.counter@, kind)
    }

    /// A fresh counter: nothing seen yet.
    pub fn new() -> (r: EventCounter)
        ensures
            r.wf(),
            forall|k: EventType| r.spec_count(k) is None,
    {
        EventCounter { counter: Vec::new() }
    }

    /// The tally of a kind; `None` until it is first counted.
    pub fn get_count(&self, kind: EventType) -> (r: Option<u64>)
        requires
            self.wf(),
        ensures
            r == self.spec_count(kind),
    {
        match find_event(&self.counter, kind) {
            Some(i) => {
                proof {
                    lemma_find_key_at(self.counter@, i as int, kind);
                }
                Some(self.counter[i].1)
            },
            None => {
                proof {
                    lemma_find_key_none(self.counter@, kind);
                }
                None
            },
        }
    }

    /// Counts one event of the given kind: its tally alone moves, one
    /// higher (a tally at the top of its range stays put).
    pub fn increment_type(&mut self, event_type: EventType)
        requires
            old(self).wf(),
        ensures
            final(self).wf(),
            final(self).spec_count(event_type) == Some(next_count(old(self).spec_count(event_type))),
            forall|k: EventType|
                k != event_type ==> final(self).spec_count(k) == old(self).spec_count(k),
    {
        match find_event(&self.counter, event_type) {
            None => {
                let ghost s0 = self.counter@;
                self.counter.push((event_type, 1));
                proof {
                    lemma_find_key_none(s0, event_type);
                    lemma_unique_keys_push(s0, event_type, 1u64);
                    lemma_find_key_push(s0, event_type, 1u64, event_type);
                    assert forall|k: EventType| k != event_type implies self.spec_count(k) == old(
                        self,
                    ).spec_count(k) by {
                        lemma_find_key_push(s0, event_type, 1u64, k);
                    }
                }
            },
            Some(i) => {
                let ghost s0 = self.counter@;
                proof {
                    lemma_find_key_at(s0, i as int, event_type);
                }
                let (k, c) = self.counter.remove(i);
                let bumped: u64 = if c == u64::MAX {
                    c
                } else {
                    c + 1
                };
                self.counter.push((k, bumped));
                proof {
                    assert(self.counter@ =~= s0.remove(i as int).push((s0[i as int].0, bumped)));
                    lemma_replace_entry(s0, i as int, bumped, event_type);
                    assert forall|t: EventType| t != event_type implies self.spec_count(t) == old(
                        self,
                    ).spec_count(t) by {
                        lemma_replace_entry(s0, i as int, bumped, t);
                    }
                }
            },
        }
    }

    /// Counts one event: the `Any` tally moves, and the kind's own tally
    /// with it.
    pub fn increment(&mut self, event_type: EventType)
        requires
            old(self).wf(),
        ensures
            final(self).wf(),
            event_type != EventType::Any ==> {
                &&& final(self).spec_count(EventType::Any) == Some(
                    next_count(old(self).spec_count(EventType::Any)),
                )
                &&& final(self).spec_count(event_type) == Some(
                    next_count(old(self).spec_count(event_type)),
                )
                &&& forall|k: EventType|
                    k != EventType::Any && k != event_type ==> final(self).spec_count(k) == old(
                        self,
                    ).spec_count(k)
            },
            event_type == EventType::Any ==> {
                &&& final(self).spec_count(EventType::Any) == Some(
                    next_count(Some(next_count(old(self).spec_count(EventType::Any)))),
                )
                &&& forall|k: EventType|
                    k != EventType::Any ==> final(self).spec_count(k) == old(self).spec_count(k)
            },
    {
        self.increment_type(EventType::Any);
        self.increment_type(event_type);
    }
}

/// Group keys strictly ascend: each count heads at most one group.
pub open spec fn sorted_groups(groups: Seq<(u64, Vec<String>)>) -> bool {
    forall|i: int, j: int| 0 <= i < j < groups.len() ==> groups[i].0 < groups[j].0
}

/// Whether some group carries the count `c` and holds the name `n`.
pub open spec fn group_contains(groups: Seq<(u64, Vec<String>)>, c: u64, n: Seq<char>) -> bool {
    exists|e: int, m: int|
        0 <= e < groups.len() && 0 <= m < groups[e].1@.len() && groups[e].0 == c && groups[e].1@[m]@
            == n
}

/// Files `name` under the group of count `c`, making that group — in key
/// order — when none exists yet.
fn insert_group(groups: &mut Vec<(u64, Vec<String>)>, c: u64, name: String)
    requires
        sorted_groups(old(groups)@),
    ensures
        sorted_groups(final(groups)@),
        group_contains(final(groups)@, c, name@),
        forall|c2: u64, n2: Seq<char>|
            group_contains(old(groups)@, c2, n2) ==> group_contains(final(groups)@, c2, n2),
        forall|c2: u64, n2: Seq<char>|
            group_contains(final(groups)@, c2, n2) ==> group_contains(old(groups)@, c2, n2) || (c2
                == c && n2 == name@),
{
    let ghost g0 = groups@;
    let mut p: usize = 0;
    while p < groups.len() && groups[p].0 < c
        invariant
            p <= groups@.len(),
            groups@ == g0,
            forall|x: int| 0 <= x < p ==> groups@[x].0 < c,
        decreases groups@.len() - p,
    {
        p += 1;
    }
    if p < groups.len() && groups[p].0 == c {
        let (k, mut v) = groups.remove(p);
        let ghost v0 = v@;
        v.push(name);
        let ghost gv = v;
        groups.insert(p, (k, v));
        proof {
            assert(groups@ =~= g0.update(p as int, (c, gv)));
            assert(group_contains(groups@, c, name@)) by {
                assert(groups@[p as int].1@[v0.len() as int]@ == name@);
            }
            assert forall|c2: u64, n2: Seq<char>| group_contains(g0, c2, n2) implies group_contains(
                groups@,
                c2,
                n2,
            ) by {
                let (e, m) = choose|e: int, m: int|
                    0 <= e < g0.len() && 0 <= m < g0[e].1@.len() && g0[e].0 == c2 && g0[e].1@[m]@
                        == n2;
                assert(groups@[e].1@[m]@ == n2);
            }
            assert forall|c2: u64, n2: Seq<char>|
                group_contains(groups@, c2, n2) && !(c2 == c && n2 == name@) implies group_contains(
                g0,
                c2,
                n2,
            ) by {
                let (e, m) = choose|e: int, m: int|
                    0 <= e < groups@.len() && 0 <= m < groups@[e].1@.len() && groups@[e].0 == c2
                        && groups@[e].1@[m]@ == n2;
                if e == p as int {
                    assert(m < v0.len());
                    assert(g0[e].1@[m]@ == n2);
                } else {
                    assert(g0[e].1@[m]@ == n2);
                }
            }
        }
    } else {
        let mut v: Vec<String> = Vec::new();
        v.push(name);
        let ghost gv = v;
        groups.insert(p, (c, v));
        proof {
            assert(groups@ =~= g0.insert(p as int, (c, gv)));
            assert(group_contains(groups@, c, name@)) by {
                assert(groups@[p as int].1@[0]@ == name@);
            }
            assert(sorted_groups(groups@)) by {
                assert forall|i: int, j: int| 0 <= i < j < groups@.len() implies groups@[i].0
                    < groups@[j].0 by {
                    assert(groups@[i] == (if i < p as int {
                        g0[i]
                    } else if i == p as int {
                        (c, gv)
                    } else {
                        g0[i - 1]
                    }));
                    assert(groups@[j] == (if j < p as int {
                        g0[j]
                    } else if j == p as int {
                        (c, gv)
                    } else {
                        g0[j - 1]
                    }));
                }
            }
            assert forall|c2: u64, n2: Seq<char>| group_contains(g0, c2, n2) implies group_contains(
                groups@,
                c2,
                n2,
            ) by {
                let (e, m) = choose|e: int, m: int|
                    0 <= e < g0.len() && 0 <= m < g0[e].1@.len() && g0[e].0 == c2 && g0[e].1@[m]@
                        == n2;
                if e < p as int {
                    assert(groups@[e].1@[m]@ == n2);
                } else {
                    assert(groups@[e + 1].1@[m]@ == n2);
                }
            }
            assert forall|c2: u64, n2: Seq<char>|
                group_contains(groups@, c2, n2) && !(c2 == c && n2 == name@) implies group_contains(
                g0,
                c2,
                n2,
            ) by {
                let (e, m) = choose|e: int, m: int|
                    0 <= e < groups@.len() && 0 <= m < groups@[e].1@.len() && groups@[e].0 == c2
                        && groups@[e].1@[m]@ == n2;
                if e < p as int {
                    assert(g0[e].1@[m]@ == n2);
                } else {
                    assert(e != p as int);
                    assert(g0[e - 1].1@[m]@ == n2);
                }
            }
        }
    }
}

impl EventCounter {
    /// The tallies of the asked-for kinds, grouped by count: each group is
    /// a count and the names of the asked-for kinds seen that often, and
    /// the groups ascend by count. Kinds never counted are left out.
    pub fn map(&self, kinds: Vec<EventType>) -> (r: Vec<(u64, Vec<String>)>)
        requires
            self.wf(),
        ensures
            sorted_groups(r@),
            forall|x: int|
                #![trigger self.spec_count(kinds@[x])]
                0 <= x < kinds@.len() ==> match self.spec_count(kinds@[x]) {
                    Some(c) => group_contains(r@, c, spec_name(kinds@[x])),
                    None => true,
                },
            forall|c: u64, n: Seq<char>|
                group_contains(r@, c, n) ==> exists|x: int|
                    0 <= x < kinds@.len() && self.spec_count(kinds@[x]) == Some(c) && n == spec_name(
                        kinds@[x],
                    ),
    {
        let mut groups: Vec<(u64, Vec<String>)> = Vec::new();
        let mut x: usize = 0;
        while x < kinds.len()
            invariant
                self.wf(),
                x <= kinds@.len(),
                sorted_groups(groups@),
                forall|y: int|
                    #![trigger self.spec_count(kinds@[y])]
                    0 <= y < x ==> match self.spec_count(kinds@[y]) {
                        Some(c) => group_contains(groups@, c, spec_name(kinds@[y])),
                        None => true,
                    },
                forall|c: u64, n: Seq<char>|
                    group_contains(groups@, c, n) ==> exists|y: int|
                        0 <= y < x && self.spec_count(kinds@[y]) == Some(c) && n == spec_name(
                            kinds@[y],
                        ),
            decreases kinds@.len() - x,
        {
            let kind = kinds[x];
            match self.get_count(kind) {
                Some(c) => {
                    let name = String::from_str(kind.name());
                    insert_group(&mut groups, c, name);
                },
                None => {},
            }
            x += 1;
        }
        groups
    }
}

} // verus!
