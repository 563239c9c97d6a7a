//! A live session: one publisher and the set of viewers subscribed to it.
use vstd::prelude::*;

use std::collections::{BTreeMap, BTreeSet};

use crate::client::PubClient;
use crate::protocol::{copy_string_option, S2CMessage};

verus! {

broadcast use vstd::std_specs::btree::group_btree_axioms;

/// What a client's entry becomes when `m` is broadcast to a session:
/// subscribers are offered the message, everyone else is left alone.
pub open spec fn delivered(before: PubClient, after: PubClient, subscribed: bool, m: S2CMessage) -> bool {
    &&& after.same_but_outbox(&before)
    &&& after.outbox@ == if subscribed {
        before.outbox.offered(m)
    } else {
        before.outbox@
    }
}

/// The binding between a publisher and the viewers of its updates.
pub struct PubSession {
    pub owner_id: u32,
    pub session_id: String,
    pub subscriber: BTreeSet<u32>,
    pub last_state: Option<String>,
}

impl PubSession {
    /// The ids of the clients subscribed to this session.
    pub open spec fn subscribers(&self) -> Set<u32> {
        self.subscriber@
    }

    /// The latest state the publisher sent, handed to viewers as they join.
    pub open spec fn spec_last_state(&self) -> Option<String> {
        self.last_state
    }

    pub fn new(owner_id: u32, session_id: String) -> (r: PubSession)
        ensures
            r.owner_id == owner_id,
            r.session_id == session_id,
            r.subscribers() == Set::<u32>::empty(),
            r.spec_last_state() is None,
    {
        PubSession { owner_id, session_id, subscriber: BTreeSet::new(), last_state: None }
    }

    pub fn has_subscriber(&self, client_id: u32) -> (r: bool)
        ensures
            r == self.subscribers().contains(client_id),
    {
        self.subscriber.contains(&client_id)
    }

    /// The number of viewers.
    pub fn subscriber_count(&self) -> (r: usize)
        ensures
            r == self.subscribers().len(),
    {
        self.subscriber.len()
    }

    pub fn last_state(&self) -> (r: Option<String>)
        ensures
            r == self.spec_last_state(),
    {
        copy_string_option(&self.last_state)
    }

    pub fn set_last_state(&mut self, state: String)
        ensures
            final(self).spec_last_state() == Some(state),
            final(self).owner_id == old(self).owner_id,
            final(self).session_id == old(self).session_id,
            final(self).subscribers() == old(self).subscribers(),
    {
        self.last_state = Some(state);
    }

    pub fn add_subscriber(&mut self, client_id: u32)
        ensures
            final(self).subscribers() == old(self).subscribers().insert(client_id),
            final(self).owner_id == old(self).owner_id,
            final(self).session_id == old(self).session_id,
            final(self).spec_last_state() == old(self).spec_last_state(),
    {
        self.subscriber.insert(client_id);
    }

    /// Removes `client_id` from the viewers; returns whether it was one.
    pub fn remove_subscriber(&mut self, client_id: u32) -> (r: bool)
        ensures
            r == old(self).subscribers().contains(client_id),
            final(self).subscribers() == old(self).subscribers().remove(client_id),
            final(self).owner_id == old(self).owner_id,
            final(self).session_id == old(self).session_id,
            final(self).spec_last_state() == old(self).spec_last_state(),
            !r ==> *final(self) == *old(self),
    {
        if !self.subscriber.contains(&client_id) {
            proof {
                assert(self.subscriber@ =~= self.subscriber@.remove(client_id));
            }
            return false;
        }
        self.subscriber.remove(&client_id);
        true
    }

    /// Offers a copy of `message` to the outbound queue of every subscriber;
    /// a full queue drops that subscriber's copy, and nothing else changes.
    pub fn broadcast(&self, clients: &mut BTreeMap<u32, PubClient>, message: &S2CMessage)
        ensures
            final(clients)@.dom() == old(clients)@.dom(),
            forall|k: u32| #[trigger]
                old(clients)@.contains_key(k) ==> delivered(
                    old(clients)@[k],
                    final(clients)@[k],
                    self.subscribers().contains(k),
                    *message,
                ),
    {
        let ghost start = clients@;
        let ghost keys_g: Seq<u32> = vstd::std_specs::iter::IteratorSpec::remaining(&vstd::std_specs::btree::spec_btree_keys_iter(&self.subscriber)).unref();
        let ghost mut done: int = 0;
        for id in it: self.subscriber.iter()
            invariant
                it.seq().unref() == keys_g,
                done == it.index(),
                it.seq().unref().to_set() == self.subscriber@,
                it.seq().no_duplicates(),
                clients@.dom() == start.dom(),
                forall|k: u32| #[trigger]
                    start.contains_key(k) ==> delivered(
                        start[k],
                        clients@[k],
                        it.seq().unref().take(it.index()).contains(k),
                        *message,
                    ),
        {
            let id = *id;
            let ghost keys = it.seq().unref();
            let ghost i = it.index();
            assert(keys[i] == id);
            match clients.remove(&id) {
                Some(mut client) => {
                    let copy = message.duplicate();
                    client.outbox.try_send(copy);
                    clients.insert(id, client);
                },
                None => {},
            }
            proof {
                assert forall|k: u32| #[trigger]
                    start.contains_key(k) implies delivered(
                        start[k],
                        clients@[k],
                        keys.take(i + 1).contains(k),
                        *message,
                    ) by {
                    let now = keys.take(i + 1);
                    let was = keys.take(i);
                    assert(now =~= was.push(id));
                    if k == id {
                        assert(!was.contains(id)) by {
                            if was.contains(id) {
                                let j = choose|j: int| 0 <= j < was.len() && was[j] == id;
                                assert(it.seq()[j] == it.seq()[i]);
                            }
                        }
                        assert(now[i] == id);
                    } else {
                        assert(now.contains(k) == was.contains(k));
                    }
                }
                done = done + 1;
            }
        }
        proof {
            let keys = keys_g;
            assert(keys.take(keys.len() as int) =~= keys);
            assert forall|k: u32| keys.contains(k) == self.subscriber@.contains(k) by {
                assert(keys.to_set().contains(k) == keys.contains(k));
            }
        }
    }
}

} // verus!
