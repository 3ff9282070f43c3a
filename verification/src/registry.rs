//! The coordinator's table of live plugin connections, keyed by the process
//! number of the peer.
//!
//! Connections stand in the order in which they were registered. Where two
//! of them name the same process, the older one answers to that number.

use vstd::prelude::*;
use crate::socket::Credentials;

verus! {

/// The table. `C` is whatever the caller uses to reach a peer.
pub struct Registry<C> {
    connections: Vec<(Credentials, C)>,
}

/// The first place at or after `from` whose connection names the process
/// `pid`.
pub open spec fn position_from<C>(connections: Seq<(Credentials, C)>, pid: u32, from: int) -> Option<
    int,
>
    decreases connections.len() - from,
{
    if from < 0 || from >= connections.len() {
        None
    } else if connections[from].0.pid == Some(pid) {
        Some(from)
    } else {
        position_from(connections, pid, from + 1)
    }
}

/// The first place whose connection names the process `pid`.
pub open spec fn position<C>(connections: Seq<(Credentials, C)>, pid: u32) -> Option<int> {
    position_from(connections, pid, 0)
}

/// The identities of the connections, in their order.
pub open spec fn identities<C>(connections: Seq<(Credentials, C)>) -> Seq<Credentials> {
    connections.map_values(|entry: (Credentials, C)| entry.0)
}

/// What `position_from` finds is the first match, and it finds nothing only
/// where nothing matches.
pub proof fn lemma_position_from<C>(connections: Seq<(Credentials, C)>, pid: u32, from: int)
    requires
        0 <= from,
    ensures
        match position_from(connections, pid, from) {
            Some(at) => from <= at < connections.len() && connections[at].0.pid == Some(pid)
                && forall|i: int| from <= i < at ==> connections[i].0.pid != Some(pid),
            None => forall|i: int| from <= i < connections.len() ==> connections[i].0.pid != Some(pid),
        },
    decreases connections.len() - from,
{
    if from < connections.len() && connections[from].0.pid != Some(pid) {
        lemma_position_from(connections, pid, from + 1);
    }
}

impl<C> View for Registry<C> {
    type V = Seq<(Credentials, C)>;

    closed spec fn view(&self) -> Seq<(Credentials, C)> {
        self.connections@
    }
}

impl<C> Registry<C> {
    /// The empty table.
    pub fn new() -> (registry: Registry<C>)
        ensures
            registry@ == Seq::<(Credentials, C)>::empty(),
    {
        Registry { connections: Vec::new() }
    }

    /// The number of connections.
    pub fn len(&self) -> (len: usize)
        ensures
            len == self@.len(),
    {
        self.connections.len()
    }

    /// Adds a connection behind those that are there.
    pub fn register(&mut self, identity: Credentials, connection: C)
        ensures
            final(self)@ == old(self)@.push((identity, connection)),
    {
        self.connections.push((identity, connection));
    }

    /// The place of the connection that answers to `pid`.
    pub fn position(&self, pid: u32) -> (at: Option<usize>)
        ensures
            match at {
                Some(at) => position(self@, pid) == Some(at as int),
                None => position(self@, pid).is_none(),
            },
    {
        let mut i: usize = 0;
        while i < self.connections.len()
            invariant
                i <= self.connections.len(),
                position(self@, pid) == position_from(self@, pid, i as int),
            decreases self.connections.len() - i,
        {
            if is_process(&self.connections[i].0, pid) {
                return Some(i);
            }
            i = i + 1;
        }
        None
    }

    /// The connection that answers to `pid`.
    pub fn find(&self, pid: u32) -> (found: Option<&C>)
        ensures
            match found {
                Some(connection) => position(self@, pid) matches Some(at) && self@[at].1
                    == *connection,
                None => position(self@, pid).is_none(),
            },
    {
        proof {
            lemma_position_from(self@, pid, 0);
        }
        match self.position(pid) {
            Some(at) => Some(&self.connections[at].1),
            None => None,
        }
    }

    /// The identity at place `at`.
    pub fn identity(&self, at: usize) -> (identity: Credentials)
        requires
            at < self@.len(),
        ensures
            identity == self@[at as int].0,
    {
        self.connections[at].0
    }

    /// Drops every connection that names the process `pid`, and says how many
    /// there were. The others keep their order.
    pub fn remove(&mut self, pid: u32) -> (dropped: usize)
        ensures
            final(self)@ == old(self)@.filter(|entry: (Credentials, C)| entry.0.pid != Some(pid)),
            dropped == old(self)@.len() - final(self)@.len(),
    {
        let ghost before = self@;
        let ghost kept = |entry: (Credentials, C)| entry.0.pid != Some(pid);
        let total: usize = self.connections.len();
        let mut dropped: usize = 0;
        let mut i: usize = 0;
        proof {
            reveal(Seq::filter);
            assert(before.take(0) =~= Seq::empty());
            assert(before.skip(0) =~= before);
        }
        while i < self.connections.len()
            invariant
                before.len() == total,
                i + dropped <= before.len(),
                i == before.take(i + dropped).filter(kept).len(),
                self@ == before.take(i + dropped).filter(kept) + before.skip(i + dropped),
                kept == |entry: (Credentials, C)| entry.0.pid != Some(pid),
            decreases before.len() - i - dropped,
        {
            let ghost seen = (i + dropped) as int;
            proof {
                reveal(Seq::filter);
                assert(self@.len() == i + before.skip(seen).len());
                assert(seen < before.len());
                assert(before.take(seen + 1).drop_last() =~= before.take(seen));
                assert(before.take(seen + 1).last() == before[seen]);
                assert(self@[i as int] == before[seen]);
            }
            if is_process(&self.connections[i].0, pid) {
                self.connections.remove(i);
                dropped = dropped + 1;
                assert(self@ =~= before.take(seen + 1).filter(kept) + before.skip(seen + 1));
            } else {
                i = i + 1;
                assert(self@ =~= before.take(seen + 1).filter(kept) + before.skip(seen + 1));
            }
        }
        proof {
            assert(before.take(before.len() as int) =~= before);
        }
        dropped
    }

    /// The identities of all connections, in their order.
    pub fn all(&self) -> (snapshot: Vec<Credentials>)
        ensures
            snapshot@ == identities(self@),
            snapshot@.len() == self@.len(),
    {
        let mut snapshot: Vec<Credentials> = Vec::new();
        let mut i: usize = 0;
        while i < self.connections.len()
            invariant
                i <= self.connections.len(),
                snapshot@ == identities(self@).take(i as int),
            decreases self.connections.len() - i,
        {
            snapshot.push(self.connections[i].0);
            assert(snapshot@ =~= identities(self@).take(i + 1));
            i = i + 1;
        }
        assert(snapshot@ =~= identities(self@));
        snapshot
    }
}

/// Whether `identity` names the process `pid`.
pub fn is_process(identity: &Credentials, pid: u32) -> (named: bool)
    ensures
        named == (identity.pid == Some(pid)),
{
    match identity.pid {
        Some(own) => own == pid,
        None => false,
    }
}

} // verus!
