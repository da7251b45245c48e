//! The server's table of bound sessions, keyed by resource.

use vstd::prelude::*;
use vstd::string::*;

use crate::jid::{Jid, JidV};

verus! {

/// One bound session: its resource and its full address.
#[derive(Debug, Clone, PartialEq, Eq)]
pub struct SessionEntry {
    pub resource: String,
    pub jid: Jid,
}

pub type EntryV = (Seq<char>, JidV);

impl View for SessionEntry {
    type V = EntryV;

    open spec fn view(&self) -> EntryV {
        (self.resource@, self.jid@)
    }
}

pub open spec fn entries_view(s: Seq<SessionEntry>) -> Seq<EntryV> {
    s.map_values(|e: SessionEntry| e@)
}

/// No resource appears twice.
pub open spec fn unique_resources(s: Seq<EntryV>) -> bool {
    forall|i: int, j: int| 0 <= i < j < s.len() ==> s[i].0 != s[j].0
}

/// Position of the entry for `resource`.
pub open spec fn index_of(s: Seq<EntryV>, resource: Seq<char>) -> Option<int> {
    if exists|i: int| 0 <= i < s.len() && s[i].0 == resource {
        Some(choose|i: int| 0 <= i < s.len() && s[i].0 == resource)
    } else {
        None
    }
}

/// The table after binding `resource` to `jid`: an existing entry for the
/// resource is replaced in place, otherwise the entry is added at the end.
pub open spec fn inserted(s: Seq<EntryV>, resource: Seq<char>, jid: JidV) -> Seq<EntryV> {
    match index_of(s, resource) {
        Some(i) => s.update(i, (resource, jid)),
        None => s.push((resource, jid)),
    }
}

/// The table without the entry for `resource`, if there is one.
pub open spec fn removed(s: Seq<EntryV>, resource: Seq<char>) -> Seq<EntryV> {
    match index_of(s, resource) {
        Some(i) => s.remove(i),
        None => s,
    }
}

/// The bound sessions of one server, in the order they were first bound.
#[derive(Debug, Clone, PartialEq, Eq)]
pub struct ServerState {
    sessions: Vec<SessionEntry>,
}

impl View for ServerState {
    type V = Seq<EntryV>;

    closed spec fn view(&self) -> Seq<EntryV> {
        entries_view(self.sessions@)
    }
}

impl ServerState {
    pub open spec fn wf(&self) -> bool {
        unique_resources(self@)
    }

    /// No sessions.
    pub fn new() -> (r: ServerState)
        ensures
            r@ == Seq::<EntryV>::empty(),
            r.wf(),
    {
        let r = ServerState { sessions: Vec::new() };
        assert(r@ =~= Seq::<EntryV>::empty());
        r
    }

    /// The bound sessions, in order.
    pub fn sessions(&self) -> (r: &Vec<SessionEntry>)
        ensures
            entries_view(r@) == self@,
    {
        &self.sessions
    }

    pub fn len(&self) -> (r: usize)
        ensures
            r == self@.len(),
    {
        self.sessions.len()
    }

    /// Position of the session bound to `resource`.
    pub fn position(&self, resource: &str) -> (r: Option<usize>)
        requires
            self.wf(),
        ensures
            match r {
                Some(i) => index_of(self@, resource@) == Some(i as int) && i < self@.len(),
                None => index_of(self@, resource@) is None,
            },
    {
        let mut i: usize = 0;
        while i < self.sessions.len()
            invariant
                self.wf(),
                i <= self@.len(),
                self@.len() == self.sessions@.len(),
                forall|j: int| 0 <= j < i ==> self@[j].0 != resource@,
            decreases self@.len() - i,
        {
            if self.sessions[i].resource.eq(&String::from_str(resource)) {
                proof {
                    let k = choose|k: int| 0 <= k < self@.len() && self@[k].0 == resource@;
                    assert(self@[i as int].0 == resource@);
                    if i < k {
                        assert(self@[i as int].0 != self@[k].0);
                    }
                }
                return Some(i);
            }
            i = i + 1;
        }
        None
    }

    /// The address bound to `resource`.
    pub fn get(&self, resource: &str) -> (r: Option<&Jid>)
        requires
            self.wf(),
        ensures
            match r {
                Some(j) => index_of(self@, resource@) matches Some(i) && self@[i].1 == j@,
                None => index_of(self@, resource@) is None,
            },
    {
        match self.position(resource) {
            Some(i) => Some(&self.sessions[i].jid),
            None => None,
        }
    }

    /// Binds `resource` to `jid`.
    pub fn insert(&mut self, resource: String, jid: Jid)
        requires
            old(self).wf(),
        ensures
            final(self).wf(),
            final(self)@ == inserted(old(self)@, resource@, jid@),
    {
        let entry = SessionEntry { resource, jid };
        match self.position(entry.resource.as_str()) {
            Some(i) => {
                self.sessions.set(i, entry);
                assert(self@ =~= old(self)@.update(i as int, entry@));
            },
            None => {
                self.sessions.push(entry);
                assert(self@ =~= old(self)@.push(entry@));
                assert forall|a: int, b: int| 0 <= a < b < self@.len() implies self@[a].0
                    != self@[b].0 by {
                    if b == self@.len() - 1 {
                        assert(old(self)@[a].0 != resource@);
                    }
                }
            },
        }
    }

    /// Drops the session bound to `resource`, if any.
    pub fn remove(&mut self, resource: &str)
        requires
            old(self).wf(),
        ensures
            final(self).wf(),
            final(self)@ == removed(old(self)@, resource@),
    {
        match self.position(resource) {
            Some(i) => {
                self.sessions.remove(i);
                assert(self@ =~= old(self)@.remove(i as int));
                assert forall|a: int, b: int| 0 <= a < b < self@.len() implies self@[a].0
                    != self@[b].0 by {
                    let oa = if a < i { a } else { a + 1 };
                    let ob = if b < i { b } else { b + 1 };
                    assert(self@[a] == old(self)@[oa]);
                    assert(self@[b] == old(self)@[ob]);
                }
            },
            None => {},
        }
    }
}

} // verus!
