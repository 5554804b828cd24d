//! The connections that are open.

use crate::json::{Json, JsonView};
use crate::table::Table;
use vstd::prelude::*;
use vstd::string::*;

verus! {

/// A connection, by its identifier; `handle` is what the host sends through.
#[derive(Debug)]
pub struct AcpConnection<C> {
    pub id: String,
    pub handle: C,
}

/// The open connections by identifier.
pub struct ConnectionRegistry<C> {
    connections: Table<AcpConnection<C>>,
}

impl<C> View for ConnectionRegistry<C> {
    type V = Map<Seq<char>, AcpConnection<C>>;

    closed spec fn view(&self) -> Map<Seq<char>, AcpConnection<C>> {
        self.connections@
    }
}

/// A message to one connection.
#[derive(Debug)]
pub struct ConnectionOutbound {
    pub connection_id: String,
    pub method: String,
    pub params: Json,
}

/// Whether `v` carries one message to each of the connections `to`: every
/// connection gets it, and none gets it twice.
pub open spec fn reaches(
    v: Seq<ConnectionOutbound>,
    to: Set<Seq<char>>,
    method: Seq<char>,
    params: JsonView,
) -> bool {
    &&& forall|i: int|
        0 <= i < v.len() ==> to.contains((#[trigger] v[i]).connection_id@) && v[i].method@ == method
            && v[i].params@ == params
    &&& forall|id: Seq<char>| #[trigger]
        to.contains(id) ==> exists|i: int| 0 <= i < v.len() && (#[trigger] v[i]).connection_id@ == id
    &&& forall|i: int, j: int|
        0 <= i < j < v.len() ==> (#[trigger] v[i]).connection_id@ != (
        #[trigger] v[j]).connection_id@
}

impl<C> ConnectionRegistry<C> {
    /// Each connection is registered under its own identifier.
    pub closed spec fn wf(self) -> bool {
        &&& self.connections.wf()
        &&& forall|id: Seq<char>| #[trigger] self@.contains_key(id) ==> self@[id].id@ == id
    }

    /// No connections.
    pub fn new() -> (r: ConnectionRegistry<C>)
        ensures
            r.wf(),
            r@ == Map::<Seq<char>, AcpConnection<C>>::empty(),
    {
        ConnectionRegistry { connections: Table::new() }
    }

    /// Registers a connection, in place of one with the same identifier.
    pub fn insert(&mut self, connection: AcpConnection<C>)
        requires
            old(self).wf(),
        ensures
            final(self).wf(),
            final(self)@ == old(self)@.insert(connection.id@, connection),
    {
        let id: String = connection.id.clone();
        self.connections.insert(id.as_str(), connection);
        assert forall|k: Seq<char>| #[trigger] self@.contains_key(k) implies self@[k].id@ == k by {
            assert(k == id@ || old(self)@.contains_key(k));
        }
    }

    /// The connection with an identifier.
    pub fn get(&self, connection_id: &str) -> (r: Option<&AcpConnection<C>>)
        requires
            self.wf(),
        ensures
            match r {
                Some(c) => self@.contains_key(connection_id@) && *c == self@[connection_id@],
                None => !self@.contains_key(connection_id@),
            },
    {
        self.connections.get(connection_id)
    }

    /// Takes the connection with an identifier out.
    pub fn remove(&mut self, connection_id: &str) -> (r: Option<AcpConnection<C>>)
        requires
            old(self).wf(),
        ensures
            final(self).wf(),
            final(self)@ == old(self)@.remove(connection_id@),
            match r {
                Some(c) => old(self)@.contains_key(connection_id@) && c
                    == old(self)@[connection_id@],
                None => !old(self)@.contains_key(connection_id@),
            },
    {
        let out: Option<AcpConnection<C>> = self.connections.remove(connection_id);
        assert forall|k: Seq<char>| #[trigger] self@.contains_key(k) implies self@[k].id@ == k by {
            assert(old(self)@.contains_key(k));
        }
        out
    }

    /// Whether there are no connections.
    pub fn is_empty(&self) -> (r: bool)
        requires
            self.wf(),
        ensures
            r == (self@ == Map::<Seq<char>, AcpConnection<C>>::empty()),
    {
        let none: bool = self.connections.len() == 0;
        proof {
            self.connections.lemma_keys();
            if none {
                assert(self@ =~= Map::empty());
            } else {
                assert(self@.contains_key(self.connections.key_seq()[0]));
            }
        }
        none
    }

    /// How many connections there are.
    pub fn len(&self) -> (r: usize)
        requires
            self.wf(),
        ensures
            r == self@.dom().len(),
            self@.dom().finite(),
    {
        proof {
            self.connections.lemma_keys();
            let keys = self.connections.key_seq();
            keys.unique_seq_to_set();
            assert(keys.to_set() =~= self@.dom());
        }
        self.connections.len()
    }

    /// The messages that tell every connection of something.
    pub fn broadcast_extension_notification(&self, method: &str, params: &Json) -> (r: Vec<
        ConnectionOutbound,
    >)
        requires
            self.wf(),
        ensures
            reaches(r@, self@.dom(), method@, params@),
    {
        let n: usize = self.connections.len();
        let ghost keys = self.connections.key_seq();
        proof {
            self.connections.lemma_keys();
        }
        let mut out: Vec<ConnectionOutbound> = Vec::new();
        let mut i: usize = 0;
        while i < n
            invariant
                self.wf(),
                keys == self.connections.key_seq(),
                n == keys.len(),
                i <= n,
                out@.len() == i,
                forall|k: int|
                    0 <= k < i ==> (#[trigger] out@[k]).connection_id@ == keys[k] && out@[k].method@
                        == method@ && out@[k].params@ == params@,
            decreases n - i,
        {
            let id: &String = self.connections.key_at(i);
            out.push(
                ConnectionOutbound {
                    connection_id: id.clone(),
                    method: method.to_owned(),
                    params: params.clone(),
                },
            );
            i += 1;
        }
        proof {
            assert forall|id: Seq<char>| #[trigger] self@.dom().contains(id) implies exists|k: int|
                0 <= k < out@.len() && (#[trigger] out@[k]).connection_id@ == id by {
                let k = keys.index_of(id);
                assert(keys.contains(id));
                assert(out@[k].connection_id@ == id);
            }
        }
        out
    }
}

} // verus!
