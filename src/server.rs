//! The session registry: which clients are connected, which sessions are
//! live, and how every request changes both.
use vstd::prelude::*;

use std::collections::BTreeMap;

use crate::client::PubClient;
use crate::protocol::{ClientState, ErrorReason, S2CMessage};
use crate::session::{delivered, PubSession};
use crate::session_id::{is_session_id, random_alphanumeric, SESSION_ID_LEN};
use crate::session_table::{find_index, ids_unique, lemma_table_index, lemma_table_push, lemma_table_remove, lemma_table_update, table};

verus! {

broadcast use vstd::std_specs::btree::group_btree_axioms;

/// How many messages a connection's outbound queue holds before it drops.
pub const OUTBOUND_CAPACITY: usize = 16;

/// The outcome of a subscribe request.
#[derive(Clone, Copy, Debug, PartialEq, Eq, Structural)]
pub enum PubSessionSubscribeResult {
    Success,
    InvalidClientState,
    InvalidSessionId,
    InvalidClientId,
}

/// The registry of connected clients and live sessions.
pub struct RadarServer {
    pub client_id_counter: u32,
    pub clients: BTreeMap<u32, PubClient>,
    pub pub_sessions: Vec<PubSession>,
}

/// The message that tells viewers how many they are.
pub open spec fn view_count(n: nat) -> S2CMessage {
    S2CMessage::NotifyViewCount { viewers: n as usize }
}

/// The counter value that follows `c`, wrapping at the top of `u32`.
pub open spec fn next_id(c: u32) -> u32 {
    if c == u32::MAX {
        0
    } else {
        (c + 1) as u32
    }
}

impl RadarServer {
    /// The live sessions by id.
    pub open spec fn sessions(&self) -> Map<Seq<char>, PubSession> {
        table(self.pub_sessions@)
    }

    /// The connected clients by id.
    pub open spec fn client_map(&self) -> Map<u32, PubClient> {
        self.clients@
    }

    /// Roles and sessions agree: every session is owned by a registered
    /// publisher of it, every subscriber is a registered client whose role
    /// names that session, and every role names a live session that
    /// records it.
    pub open spec fn wf(&self) -> bool {
        let cs = self.client_map();
        let ss = self.sessions();
        &&& ids_unique(self.pub_sessions@)
        &&& forall|sid: Seq<char>| #[trigger]
            ss.contains_key(sid) ==> {
                &&& ss[sid].session_id@ == sid
                &&& cs.contains_key(ss[sid].owner_id)
                &&& cs[ss[sid].owner_id].state.publishes(sid)
            }
        &&& forall|sid: Seq<char>, c: u32|
            ss.contains_key(sid) && #[trigger] ss[sid].subscribers().contains(c) ==> cs.contains_key(c)
                && cs[c].state.subscribes(sid)
        &&& forall|c: u32| #[trigger]
            cs.contains_key(c) ==> {
                &&& cs[c].client_id == c
                &&& cs[c].outbox.wf()
                &&& cs[c].state is Publisher ==> {
                    let sid = cs[c].state->Publisher_session_id@;
                    ss.contains_key(sid) && ss[sid].owner_id == c
                }
                &&& cs[c].state is Subscriber ==> {
                    let sid = cs[c].state->Subscriber_session_id@;
                    ss.contains_key(sid) && ss[sid].subscribers().contains(c)
                }
            }
    }

    /// An empty registry.
    pub fn new() -> (r: RadarServer)
        ensures
            r.wf(),
            r.client_map() == Map::<u32, PubClient>::empty(),
            r.sessions() == Map::<Seq<char>, PubSession>::empty(),
            r.client_id_counter == 1,
    {
        let r = RadarServer { client_id_counter: 1, clients: BTreeMap::new(), pub_sessions: Vec::new() };
        proof {
            assert(r.sessions() =~= Map::<Seq<char>, PubSession>::empty());
        }
        r
    }

    /// Registers a new connection from `address` under the next id of the
    /// counter. The counter advances in any case; if a client still holds
    /// that id (the counter wrapped), the registration is refused.
    pub fn register_client(&mut self, address: String) -> (r: Option<u32>)
        requires
            old(self).wf(),
        ensures
            final(self).wf(),
            final(self).client_id_counter == next_id(old(self).client_id_counter),
            final(self).sessions() == old(self).sessions(),
            r is None <==> old(self).client_map().contains_key(next_id(old(self).client_id_counter)),
            r is None ==> final(self).client_map() == old(self).client_map(),
            r matches Some(id) ==> {
                &&& id == next_id(old(self).client_id_counter)
                &&& final(self).client_map() == old(self).client_map().insert(id, final(self).client_map()[id])
                &&& final(self).client_map()[id].client_id == id
                &&& final(self).client_map()[id].address == address
                &&& final(self).client_map()[id].state is Uninitialized
                &&& final(self).client_map()[id].outbox@ == Seq::<S2CMessage>::empty()
                &&& final(self).client_map()[id].outbox.spec_capacity() == OUTBOUND_CAPACITY
            },
    {
        let client_id = if self.client_id_counter == u32::MAX {
            0
        } else {
            self.client_id_counter + 1
        };
        self.client_id_counter = client_id;
        if self.clients.contains_key(&client_id) {
            return None;
        }
        let mut client = PubClient::new(address, OUTBOUND_CAPACITY);
        client.client_id = client_id;
        self.clients.insert(client_id, client);
        Some(client_id)
    }

    /// The live session with id `session_id`, if any.
    pub fn pub_session_find(&self, session_id: &String) -> (r: Option<&PubSession>)
        requires
            ids_unique(self.pub_sessions@),
        ensures
            r is Some == self.sessions().contains_key(session_id@),
            r is Some ==> *r->0 == self.sessions()[session_id@],
    {
        match find_index(&self.pub_sessions, session_id) {
            Some(i) => Some(&self.pub_sessions[i]),
            None => None,
        }
    }

    /// `after` is `self` with a new, empty session `sid` owned by `owner`,
    /// whose role has become `Publisher` of it.
    pub open spec fn session_created(&self, after: &RadarServer, owner: u32, sid: Seq<char>) -> bool {
        &&& after.client_id_counter == self.client_id_counter
        &&& after.sessions() == self.sessions().insert(sid, after.sessions()[sid])
        &&& after.sessions()[sid].owner_id == owner
        &&& after.sessions()[sid].subscribers() == Set::<u32>::empty()
        &&& after.sessions()[sid].spec_last_state() is None
        &&& after.client_map() == self.client_map().insert(owner, after.client_map()[owner])
        &&& after.client_map()[owner].same_but_state(&self.client_map()[owner])
        &&& after.client_map()[owner].state.publishes(sid)
    }

    /// Opens a session with id `session_id` for the client `owner_id`.
    /// Refused when the client is unknown, when its role is not
    /// `Uninitialized`, or when a live session already has that id; a
    /// refusal changes nothing.
    pub fn pub_session_create_with_id(&mut self, owner_id: u32, session_id: String) -> (r: Result<String, ErrorReason>)
        requires
            old(self).wf(),
        ensures
            final(self).wf(),
            !old(self).client_map().contains_key(owner_id) ==> r == Err::<String, ErrorReason>(ErrorReason::InvalidClientId),
            old(self).client_map().contains_key(owner_id) && !(old(self).client_map()[owner_id].state is Uninitialized)
                ==> r == Err::<String, ErrorReason>(ErrorReason::InvalidClientState),
            old(self).client_map().contains_key(owner_id) && old(self).client_map()[owner_id].state is Uninitialized
                && old(self).sessions().contains_key(session_id@) ==> r == Err::<String, ErrorReason>(ErrorReason::SessionIdInUse),
            r is Err ==> *final(self) == *old(self),
            r is Ok ==> r->Ok_0 == session_id && old(self).session_created(final(self), owner_id, session_id@),
            (old(self).client_map().contains_key(owner_id) && old(self).client_map()[owner_id].state is Uninitialized
                && !old(self).sessions().contains_key(session_id@)) ==> r is Ok,
    {
        match self.clients.get(&owner_id) {
            None => {
                return Err(ErrorReason::InvalidClientId);
            },
            Some(owner) => {
                if !owner.state.is_uninitialized() {
                    return Err(ErrorReason::InvalidClientState);
                }
            },
        }
        if find_index(&self.pub_sessions, &session_id).is_some() {
            return Err(ErrorReason::SessionIdInUse);
        }
        let ghost old_self = *self;
        let session = PubSession::new(owner_id, session_id.clone());
        proof {
            lemma_table_push(self.pub_sessions@, session);
        }
        self.pub_sessions.push(session);
        let mut owner = self.clients.remove(&owner_id).unwrap();
        owner.state = ClientState::Publisher { session_id: session_id.clone() };
        self.clients.insert(owner_id, owner);
        proof {
            let ss = self.sessions();
            let cs = self.client_map();
            assert(ss[session_id@].subscribers() == Set::<u32>::empty());
            assert forall|sid: Seq<char>, c: u32|
                ss.contains_key(sid) && #[trigger] ss[sid].subscribers().contains(c) implies cs.contains_key(c)
                    && cs[c].state.subscribes(sid) by {
                assert(sid != session_id@);
                assert(old_self.sessions().contains_key(sid));
            }
            assert(cs =~= old_self.client_map().insert(owner_id, cs[owner_id]));
        }
        Ok(session_id)
    }

    /// `after` is `self` with client `c` added to the viewers of session
    /// `sid`, its role now `Subscriber` of it, and the new viewer count
    /// offered to every viewer of the session, `c` included.
    pub open spec fn subscribed(&self, after: &RadarServer, sid: Seq<char>, c: u32) -> bool {
        let before_s = self.sessions()[sid];
        let after_s = after.sessions()[sid];
        let m = view_count(after_s.subscribers().len());
        &&& after.client_id_counter == self.client_id_counter
        &&& after.sessions() == self.sessions().insert(sid, after_s)
        &&& after_s.subscribers() == before_s.subscribers().insert(c)
        &&& after_s.owner_id == before_s.owner_id
        &&& after_s.session_id == before_s.session_id
        &&& after_s.spec_last_state() == before_s.spec_last_state()
        &&& after.client_map().dom() == self.client_map().dom()
        &&& forall|k: u32| #[trigger]
            self.client_map().contains_key(k) && k != c ==> delivered(
                self.client_map()[k],
                after.client_map()[k],
                after_s.subscribers().contains(k),
                m,
            )
        &&& after.client_map()[c].client_id == c
        &&& after.client_map()[c].address == self.client_map()[c].address
        &&& after.client_map()[c].outbox.spec_capacity() == self.client_map()[c].outbox.spec_capacity()
        &&& after.client_map()[c].outbox@ == self.client_map()[c].outbox.offered(m)
        &&& after.client_map()[c].state.subscribes(sid)
    }

    /// Adds client `client_id` to the viewers of session `session_id`.
    /// Refused, with nothing changed, when no live session has that id, when
    /// the client is unknown, or when its role is not `Uninitialized`, the
    /// checks made in that order.
    pub fn pub_session_subscribe(&mut self, session_id: &String, client_id: u32) -> (r: PubSessionSubscribeResult)
        requires
            old(self).wf(),
        ensures
            final(self).wf(),
            !old(self).sessions().contains_key(session_id@) ==> r == PubSessionSubscribeResult::InvalidSessionId,
            old(self).sessions().contains_key(session_id@) && !old(self).client_map().contains_key(client_id)
                ==> r == PubSessionSubscribeResult::InvalidClientId,
            old(self).sessions().contains_key(session_id@) && old(self).client_map().contains_key(client_id)
                && !(old(self).client_map()[client_id].state is Uninitialized)
                ==> r == PubSessionSubscribeResult::InvalidClientState,
            r != PubSessionSubscribeResult::Success ==> *final(self) == *old(self),
            r == PubSessionSubscribeResult::Success ==> old(self).subscribed(final(self), session_id@, client_id),
            (old(self).sessions().contains_key(session_id@) && old(self).client_map().contains_key(client_id)
                && old(self).client_map()[client_id].state is Uninitialized) ==> r == PubSessionSubscribeResult::Success,
    {
        let idx = match find_index(&self.pub_sessions, session_id) {
            None => {
                return PubSessionSubscribeResult::InvalidSessionId;
            },
            Some(i) => i,
        };
        match self.clients.get(&client_id) {
            None => {
                return PubSessionSubscribeResult::InvalidClientId;
            },
            Some(client) => {
                if !client.state.is_uninitialized() {
                    return PubSessionSubscribeResult::InvalidClientState;
                }
            },
        }
        let ghost old_self = *self;
        proof {
            lemma_table_index(self.pub_sessions@, idx as int);
        }
        self.pub_sessions[idx].add_subscriber(client_id);
        proof {
            lemma_table_update(old_self.pub_sessions@, idx as int, self.pub_sessions@[idx as int]);
            assert(self.pub_sessions@ == old_self.pub_sessions@.update(idx as int, self.pub_sessions@[idx as int]));
        }
        let count = self.pub_sessions[idx].subscriber_count();
        let message = S2CMessage::NotifyViewCount { viewers: count };
        let ghost mid = self.clients@;
        self.pub_sessions[idx].broadcast(&mut self.clients, &message);
        let ghost after_broadcast = self.clients@;
        let mut client = self.clients.remove(&client_id).unwrap();
        client.state = ClientState::Subscriber { session_id: session_id.clone() };
        self.clients.insert(client_id, client);
        proof {
            let ss = self.sessions();
            let cs = self.client_map();
            let sid = session_id@;
            let os = old_self.sessions();
            let ocs = old_self.client_map();
            assert(ss == os.insert(sid, ss[sid]));
            assert(cs.dom() =~= ocs.dom());
            assert(mid == ocs);
            assert forall|k: u32| #[trigger] cs.contains_key(k) && k != client_id implies cs[k].state == ocs[k].state
                && cs[k].outbox.wf() by {
                assert(after_broadcast.contains_key(k));
            }
            assert forall|k: u32| #[trigger] ss[sid].subscribers().contains(k) <==> (cs.contains_key(k)
                && cs[k].state.subscribes(sid)) by {
                if k != client_id && cs.contains_key(k) && cs[k].state.subscribes(sid) {
                    assert(os[sid].subscribers().contains(k));
                }
            }
            lemma_wf_after_session_update(old_self, *self, sid, client_id);
        }
        PubSessionSubscribeResult::Success
    }

    /// `after` is `self` once client `c` has left session `sid`. If `c` was
    /// a viewer of it, it is one no more, its role is back to
    /// `Uninitialized`, and the remaining viewers are offered the new
    /// viewer count; otherwise nothing changes.
    pub open spec fn unsubscribed(&self, after: &RadarServer, sid: Seq<char>, c: u32) -> bool {
        let before_s = self.sessions()[sid];
        let after_s = after.sessions()[sid];
        let m = view_count(after_s.subscribers().len());
        if self.sessions().contains_key(sid) && before_s.subscribers().contains(c) {
            &&& after.client_id_counter == self.client_id_counter
            &&& after.sessions() == self.sessions().insert(sid, after_s)
            &&& after_s.subscribers() == before_s.subscribers().remove(c)
            &&& after_s.owner_id == before_s.owner_id
            &&& after_s.session_id == before_s.session_id
            &&& after_s.spec_last_state() == before_s.spec_last_state()
            &&& after.client_map().dom() == self.client_map().dom()
            &&& forall|k: u32| #[trigger]
                self.client_map().contains_key(k) && k != c ==> delivered(
                    self.client_map()[k],
                    after.client_map()[k],
                    after_s.subscribers().contains(k),
                    m,
                )
            &&& after.client_map()[c].same_but_state(&self.client_map()[c])
            &&& after.client_map()[c].state is Uninitialized
        } else {
            *after == *self
        }
    }

    /// Removes client `client_id` from the viewers of session `session_id`.
    /// Calling it when the client is not a viewer of that session is no
    /// error and changes nothing.
    pub fn pub_session_unsubscribe(&mut self, session_id: &String, client_id: u32)
        requires
            old(self).wf(),
        ensures
            final(self).wf(),
            old(self).unsubscribed(final(self), session_id@, client_id),
    {
        let idx = match find_index(&self.pub_sessions, session_id) {
            None => {
                return;
            },
            Some(i) => i,
        };
        proof {
            lemma_table_index(self.pub_sessions@, idx as int);
        }
        if !self.pub_sessions[idx].has_subscriber(client_id) {
            return;
        }
        let ghost old_self = *self;
        self.pub_sessions[idx].remove_subscriber(client_id);
        proof {
            lemma_table_update(old_self.pub_sessions@, idx as int, self.pub_sessions@[idx as int]);
            assert(self.pub_sessions@ == old_self.pub_sessions@.update(idx as int, self.pub_sessions@[idx as int]));
        }
        let count = self.pub_sessions[idx].subscriber_count();
        let message = S2CMessage::NotifyViewCount { viewers: count };
        let ghost mid = self.clients@;
        self.pub_sessions[idx].broadcast(&mut self.clients, &message);
        let ghost after_broadcast = self.clients@;
        let mut client = self.clients.remove(&client_id).unwrap();
        let names_session = match client.state.subscribed_session() {
            Some(s) => *s == *session_id,
            None => false,
        };
        if names_session {
            client.state = ClientState::Uninitialized;
        }
        self.clients.insert(client_id, client);
        proof {
            let ss = self.sessions();
            let cs = self.client_map();
            let sid = session_id@;
            let os = old_self.sessions();
            let ocs = old_self.client_map();
            assert(ss == os.insert(sid, ss[sid]));
            assert(cs.dom() =~= ocs.dom());
            assert(mid == ocs);
            assert(names_session);
            assert forall|k: u32| #[trigger] cs.contains_key(k) && k != client_id implies cs[k].state == ocs[k].state
                && cs[k].outbox.wf() by {
                assert(after_broadcast.contains_key(k));
            }
            assert forall|k: u32| #[trigger] ss[sid].subscribers().contains(k) <==> (cs.contains_key(k)
                && cs[k].state.subscribes(sid)) by {
                if k != client_id && cs.contains_key(k) && cs[k].state.subscribes(sid) {
                    assert(os[sid].subscribers().contains(k));
                }
            }
            lemma_wf_after_session_update(old_self, *self, sid, client_id);
        }
    }

    /// `after` is `self` once client `c` has disconnected. An unknown `c`
    /// changes nothing. A publisher's session is deleted and each of its
    /// viewers is demoted to `Uninitialized`, staying connected. A viewer
    /// leaves its session, whose remaining viewers are offered the new
    /// count. In every case `c` is no longer registered.
    pub open spec fn unregistered(&self, after: &RadarServer, c: u32) -> bool {
        let cs = self.client_map();
        let acs = after.client_map();
        if !cs.contains_key(c) {
            *after == *self
        } else {
            let state = cs[c].state;
            &&& after.client_id_counter == self.client_id_counter
            &&& acs.dom() == cs.dom().remove(c)
            &&& state is Uninitialized ==> {
                &&& acs == cs.remove(c)
                &&& after.sessions() == self.sessions()
            }
            &&& state is Publisher ==> {
                let sid = state->Publisher_session_id@;
                let subs = self.sessions()[sid].subscribers();
                &&& after.sessions() == self.sessions().remove(sid)
                &&& forall|k: u32| #[trigger]
                    acs.contains_key(k) ==> if subs.contains(k) {
                        acs[k].same_but_state(&cs[k]) && acs[k].state is Uninitialized
                    } else {
                        acs[k] == cs[k]
                    }
            }
            &&& state is Subscriber ==> {
                let sid = state->Subscriber_session_id@;
                let before_s = self.sessions()[sid];
                let after_s = after.sessions()[sid];
                &&& after.sessions() == self.sessions().insert(sid, after_s)
                &&& after_s.subscribers() == before_s.subscribers().remove(c)
                &&& after_s.owner_id == before_s.owner_id
                &&& after_s.session_id == before_s.session_id
                &&& after_s.spec_last_state() == before_s.spec_last_state()
                &&& forall|k: u32| #[trigger]
                    acs.contains_key(k) ==> delivered(
                        cs[k],
                        acs[k],
                        after_s.subscribers().contains(k),
                        view_count(after_s.subscribers().len()),
                    )
            }
        }
    }

    /// Takes client `client_id` out of the registry, with the clean-up its
    /// role calls for. Unregistering an unknown client changes nothing.
    pub fn unregister_client(&mut self, client_id: u32)
        requires
            old(self).wf(),
        ensures
            final(self).wf(),
            old(self).unregistered(final(self), client_id),
    {
        let state = match self.clients.get(&client_id) {
            None => {
                return;
            },
            Some(client) => client.state.duplicate(),
        };
        let ghost old_self = *self;
        match state {
            ClientState::Uninitialized => {
                self.clients.remove(&client_id);
                proof {
                    lemma_remove_idle_client(old_self, *self, client_id);
                }
            },
            ClientState::Subscriber { session_id } => {
                self.pub_session_unsubscribe(&session_id, client_id);
                let ghost mid = *self;
                self.clients.remove(&client_id);
                proof {
                    assert(old_self.sessions()[session_id@].subscribers().contains(client_id));
                    lemma_remove_idle_client(mid, *self, client_id);
                    assert(self.client_map().dom() =~= old_self.client_map().dom().remove(client_id));
                }
            },
            ClientState::Publisher { session_id } => {
                let idx = find_index(&self.pub_sessions, &session_id).unwrap();
                proof {
                    lemma_table_index(self.pub_sessions@, idx as int);
                    lemma_table_remove(self.pub_sessions@, idx as int);
                }
                let session = self.pub_sessions.remove(idx);
                let ghost start = self.clients@;
                let ghost keys_g: Seq<u32> = vstd::std_specs::iter::IteratorSpec::remaining(
                    &vstd::std_specs::btree::spec_btree_keys_iter(&session.subscriber),
                ).unref();
                let ghost mut done: int = 0;
                for k in it: session.subscriber.iter()
                    invariant
                        it.seq().unref() == keys_g,
                        keys_g.to_set() == session.subscriber@,
                        done == it.index(),
                        start == old_self.clients@,
                        self.pub_sessions@ == old_self.pub_sessions@.remove(idx as int),
                        self.client_id_counter == old_self.client_id_counter,
                        session == old_self.pub_sessions@[idx as int],
                        self.clients@.dom() == start.dom(),
                        forall|j: u32| #[trigger]
                            start.contains_key(j) ==> if keys_g.take(done).contains(j) {
                                self.clients@[j].same_but_state(&start[j]) && self.clients@[j].state is Uninitialized
                            } else {
                                self.clients@[j] == start[j]
                            },
                {
                    let k = *k;
                    let ghost i = done;
                    assert(keys_g[i] == k);
                    match self.clients.remove(&k) {
                        Some(mut client) => {
                            client.state = ClientState::Uninitialized;
                            self.clients.insert(k, client);
                        },
                        None => {},
                    }
                    proof {
                        assert forall|j: u32| #[trigger] start.contains_key(j) implies if keys_g.take(i + 1).contains(j) {
                            self.clients@[j].same_but_state(&start[j]) && self.clients@[j].state is Uninitialized
                        } else {
                            self.clients@[j] == start[j]
                        } by {
                            let now = keys_g.take(i + 1);
                            let was = keys_g.take(i);
                            assert(now =~= was.push(k));
                            if j == k {
                                assert(now[i] == k);
                            } else {
                                assert(now.contains(j) == was.contains(j));
                            }
                        }
                        done = done + 1;
                    }
                }
                proof {
                    assert(keys_g.take(done) =~= keys_g);
                    assert forall|j: u32| keys_g.contains(j) == session.subscriber@.contains(j) by {
                        assert(keys_g.to_set().contains(j) == keys_g.contains(j));
                    }
                }
                self.clients.remove(&client_id);
                proof {
                    let sid = session_id@;
                    let os = old_self.sessions();
                    let ocs = old_self.client_map();
                    let ss = self.sessions();
                    let cs = self.client_map();
                    assert(session == os[sid]);
                    assert(ss == os.remove(sid));
                    assert(cs.dom() =~= ocs.dom().remove(client_id));
                    assert(!session.subscribers().contains(client_id));
                    assert forall|k: u32| #[trigger] cs.contains_key(k) implies if session.subscribers().contains(k) {
                        cs[k].same_but_state(&ocs[k]) && cs[k].state is Uninitialized
                    } else {
                        cs[k] == ocs[k]
                    } by {
                        assert(start.contains_key(k));
                    }
                    assert forall|s2: Seq<char>| #[trigger] ss.contains_key(s2) implies {
                        &&& ss[s2].session_id@ == s2
                        &&& cs.contains_key(ss[s2].owner_id)
                        &&& cs[ss[s2].owner_id].state.publishes(s2)
                    } by {
                        let o = ss[s2].owner_id;
                        assert(os.contains_key(s2));
                        assert(o != client_id);
                        assert(cs.contains_key(o));
                        if session.subscribers().contains(o) {
                            assert(ocs[o].state.subscribes(sid));
                        }
                    }
                    assert forall|s2: Seq<char>, c: u32|
                        ss.contains_key(s2) && #[trigger] ss[s2].subscribers().contains(c) implies cs.contains_key(c)
                            && cs[c].state.subscribes(s2) by {
                        assert(os.contains_key(s2) && os[s2].subscribers().contains(c));
                        assert(ocs[c].state.subscribes(s2));
                        assert(c != client_id);
                        if session.subscribers().contains(c) {
                            assert(ocs[c].state.subscribes(sid));
                        }
                    }
                    assert forall|c: u32| #[trigger] cs.contains_key(c) && cs[c].state is Publisher implies {
                        let s2 = cs[c].state->Publisher_session_id@;
                        ss.contains_key(s2) && ss[s2].owner_id == c
                    } by {
                        assert(!session.subscribers().contains(c));
                        assert(ocs[c].state is Publisher);
                        let s2 = ocs[c].state->Publisher_session_id@;
                        assert(os.contains_key(s2) && os[s2].owner_id == c);
                        assert(s2 != sid);
                    }
                    assert forall|c: u32| #[trigger] cs.contains_key(c) && cs[c].state is Subscriber implies {
                        let s2 = cs[c].state->Subscriber_session_id@;
                        ss.contains_key(s2) && ss[s2].subscribers().contains(c)
                    } by {
                        assert(!session.subscribers().contains(c));
                        assert(ocs[c].state is Subscriber);
                        let s2 = ocs[c].state->Subscriber_session_id@;
                        assert(os.contains_key(s2) && os[s2].subscribers().contains(c));
                        assert(s2 != sid);
                    }
                    assert forall|c: u32| #[trigger] cs.contains_key(c) implies cs[c].client_id == c && cs[c].outbox.wf() by {
                        assert(ocs.contains_key(c));
                    }
                }
            },
        }
    }

    /// Opens a session with a freshly drawn random id for client
    /// `owner_id`. Refused, with nothing changed, when the client is unknown
    /// or its role is not `Uninitialized`, and in the unlikely case that the
    /// drawn id is already live; that can only happen while some live
    /// session has an id of the drawn shape, so an idle client of a registry
    /// without such sessions always gets its session.
    pub fn pub_session_create(&mut self, owner_id: u32) -> (r: Result<String, ErrorReason>)
        requires
            old(self).wf(),
        ensures
            final(self).wf(),
            !old(self).client_map().contains_key(owner_id) ==> r == Err::<String, ErrorReason>(ErrorReason::InvalidClientId),
            old(self).client_map().contains_key(owner_id) && !(old(self).client_map()[owner_id].state is Uninitialized)
                ==> r == Err::<String, ErrorReason>(ErrorReason::InvalidClientState),
            old(self).client_map().contains_key(owner_id) && old(self).client_map()[owner_id].state is Uninitialized
                ==> r is Ok || r == Err::<String, ErrorReason>(ErrorReason::SessionIdInUse),
            r is Err ==> *final(self) == *old(self),
            r is Ok ==> is_session_id(r->Ok_0@) && old(self).session_created(final(self), owner_id, r->Ok_0@),
            r == Err::<String, ErrorReason>(ErrorReason::SessionIdInUse) ==> exists|s: Seq<char>|
                is_session_id(s) && #[trigger] old(self).sessions().contains_key(s),
    {
        let session_id = random_alphanumeric(SESSION_ID_LEN);
        let ghost drawn = session_id@;
        let r = self.pub_session_create_with_id(owner_id, session_id);
        proof {
            if r == Err::<String, ErrorReason>(ErrorReason::SessionIdInUse) {
                assert(is_session_id(drawn) && old(self).sessions().contains_key(drawn));
            }
        }
        r
    }

    /// `after` is `self` once client `c` has published `payload`: from a
    /// publisher, its session keeps the payload as its latest state and
    /// every viewer is offered it; from anyone else it is ignored.
    pub open spec fn published(&self, after: &RadarServer, c: u32, payload: String) -> bool {
        let cs = self.client_map();
        if cs.contains_key(c) && cs[c].state is Publisher {
            let sid = cs[c].state->Publisher_session_id@;
            let before_s = self.sessions()[sid];
            let after_s = after.sessions()[sid];
            &&& after.client_id_counter == self.client_id_counter
            &&& after.sessions() == self.sessions().insert(sid, after_s)
            &&& after_s.spec_last_state() == Some(payload)
            &&& after_s.subscribers() == before_s.subscribers()
            &&& after_s.owner_id == before_s.owner_id
            &&& after_s.session_id == before_s.session_id
            &&& after.client_map().dom() == cs.dom()
            &&& forall|k: u32| #[trigger]
                cs.contains_key(k) ==> delivered(
                    cs[k],
                    after.client_map()[k],
                    before_s.subscribers().contains(k),
                    S2CMessage::StateUpdate { payload },
                )
        } else {
            *after == *self
        }
    }

    /// Forwards a state update from client `client_id` to the viewers of
    /// the session it publishes; an update from a client that is not a
    /// publisher is ignored.
    pub fn pub_session_publish(&mut self, client_id: u32, payload: String)
        requires
            old(self).wf(),
        ensures
            final(self).wf(),
            old(self).published(final(self), client_id, payload),
    {
        let session_id = match self.clients.get(&client_id) {
            None => {
                return;
            },
            Some(client) => match &client.state {
                ClientState::Publisher { session_id } => session_id.clone(),
                _ => {
                    return;
                },
            },
        };
        let ghost old_self = *self;
        let idx = find_index(&self.pub_sessions, &session_id).unwrap();
        proof {
            lemma_table_index(self.pub_sessions@, idx as int);
        }
        let message = S2CMessage::StateUpdate { payload: payload.clone() };
        self.pub_sessions[idx].set_last_state(payload);
        proof {
            lemma_table_update(old_self.pub_sessions@, idx as int, self.pub_sessions@[idx as int]);
            assert(self.pub_sessions@ == old_self.pub_sessions@.update(idx as int, self.pub_sessions@[idx as int]));
        }
        self.pub_sessions[idx].broadcast(&mut self.clients, &message);
        proof {
            let ss = self.sessions();
            let cs = self.client_map();
            let os = old_self.sessions();
            let ocs = old_self.client_map();
            assert(ss == os.insert(session_id@, ss[session_id@]));
            assert forall|k: u32| #[trigger] cs.contains_key(k) implies cs[k].state == ocs[k].state
                && cs[k].outbox.wf() && cs[k].client_id == k by {
                assert(ocs.contains_key(k));
            }
            assert forall|k: u32| #[trigger] ss[session_id@].subscribers().contains(k) <==> (cs.contains_key(k)
                && cs[k].state.subscribes(session_id@)) by {
                if cs.contains_key(k) && cs[k].state.subscribes(session_id@) {
                    assert(os[session_id@].subscribers().contains(k));
                }
            }
            lemma_wf_after_session_update(old_self, *self, session_id@, client_id);
        }
    }

    /// `after` is `self` with `m` offered to the outbound queue of client
    /// `c`, if it is registered.
    pub open spec fn replied(&self, after: &RadarServer, c: u32, m: S2CMessage) -> bool {
        let cs = self.client_map();
        if cs.contains_key(c) {
            &&& after.client_id_counter == self.client_id_counter
            &&& after.pub_sessions@ == self.pub_sessions@
            &&& after.client_map() == cs.insert(c, after.client_map()[c])
            &&& after.client_map()[c].same_but_outbox(&cs[c])
            &&& after.client_map()[c].outbox@ == cs[c].outbox.offered(m)
        } else {
            *after == *self
        }
    }

    /// Offers `message` to the outbound queue of client `client_id`;
    /// returns whether it was queued (the client is registered and its queue
    /// was not full).
    pub fn send_to(&mut self, client_id: u32, message: S2CMessage) -> (r: bool)
        requires
            old(self).wf(),
        ensures
            final(self).wf(),
            old(self).replied(final(self), client_id, message),
            r == (old(self).client_map().contains_key(client_id) && !old(self).client_map()[client_id].outbox.is_full()),
    {
        if !self.clients.contains_key(&client_id) {
            return false;
        }
        let ghost old_self = *self;
        let mut client = self.clients.remove(&client_id).unwrap();
        let r = client.outbox.try_send(message);
        self.clients.insert(client_id, client);
        proof {
            let cs = self.client_map();
            let ocs = old_self.client_map();
            assert(self.sessions() == old_self.sessions());
            assert(cs =~= ocs.insert(client_id, cs[client_id]));
        }
        r
    }

    /// Removes and returns, oldest first, every message waiting in the
    /// outbound queue of client `client_id` (none for an unknown client).
    pub fn take_outbound(&mut self, client_id: u32) -> (r: Vec<S2CMessage>)
        requires
            old(self).wf(),
        ensures
            final(self).wf(),
            final(self).client_id_counter == old(self).client_id_counter,
            final(self).pub_sessions@ == old(self).pub_sessions@,
            !old(self).client_map().contains_key(client_id) ==> r@ == Seq::<S2CMessage>::empty() && *final(self)
                == *old(self),
            old(self).client_map().contains_key(client_id) ==> {
                &&& r@ == old(self).client_map()[client_id].outbox@
                &&& final(self).client_map() == old(self).client_map().insert(client_id, final(self).client_map()[client_id])
                &&& final(self).client_map()[client_id].same_but_outbox(&old(self).client_map()[client_id])
                &&& final(self).client_map()[client_id].outbox@ == Seq::<S2CMessage>::empty()
            },
    {
        if !self.clients.contains_key(&client_id) {
            return Vec::new();
        }
        let ghost old_self = *self;
        let mut client = self.clients.remove(&client_id).unwrap();
        let r = client.outbox.take_all();
        self.clients.insert(client_id, client);
        proof {
            let cs = self.client_map();
            let ocs = old_self.client_map();
            assert(self.sessions() == old_self.sessions());
            assert(cs =~= ocs.insert(client_id, cs[client_id]));
        }
        r
    }
}

/// A registry stays well formed when one session `sid` is changed in place
/// (same id, same owner) and at most client `c` changes role, between
/// `Uninitialized` and viewer of `sid`, so long as the viewers of `sid` are
/// exactly the clients whose role names it.
proof fn lemma_wf_after_session_update(o: RadarServer, n: RadarServer, sid: Seq<char>, c: u32)
    requires
        o.wf(),
        ids_unique(n.pub_sessions@),
        o.sessions().contains_key(sid),
        n.sessions() == o.sessions().insert(sid, n.sessions()[sid]),
        n.sessions()[sid].session_id@ == sid,
        n.sessions()[sid].owner_id == o.sessions()[sid].owner_id,
        n.client_map().dom() == o.client_map().dom(),
        forall|k: u32| #[trigger]
            n.client_map().contains_key(k) ==> {
                &&& n.client_map()[k].client_id == k
                &&& n.client_map()[k].outbox.wf()
                &&& n.client_map()[k].state == o.client_map()[k].state || (k == c && (
                    o.client_map()[k].state is Uninitialized || o.client_map()[k].state.subscribes(sid))
                    && (n.client_map()[k].state is Uninitialized || n.client_map()[k].state.subscribes(sid)))
            },
        forall|k: u32|
            #[trigger] n.sessions()[sid].subscribers().contains(k) <==> (n.client_map().contains_key(k)
                && n.client_map()[k].state.subscribes(sid)),
    ensures
        n.wf(),
{
    let ss = n.sessions();
    let cs = n.client_map();
    let os = o.sessions();
    let ocs = o.client_map();
    assert forall|s2: Seq<char>| #[trigger] ss.contains_key(s2) implies {
        &&& ss[s2].session_id@ == s2
        &&& cs.contains_key(ss[s2].owner_id)
        &&& cs[ss[s2].owner_id].state.publishes(s2)
    } by {
        assert(os.contains_key(s2));
        assert(cs.contains_key(os[s2].owner_id));
    }
    assert forall|s2: Seq<char>, k: u32|
        ss.contains_key(s2) && #[trigger] ss[s2].subscribers().contains(k) implies cs.contains_key(k)
            && cs[k].state.subscribes(s2) by {
        if s2 != sid {
            assert(os[s2].subscribers().contains(k));
            assert(ocs[k].state.subscribes(s2));
        }
    }
    assert forall|k: u32| #[trigger] cs.contains_key(k) && cs[k].state is Publisher implies {
        let s2 = cs[k].state->Publisher_session_id@;
        ss.contains_key(s2) && ss[s2].owner_id == k
    } by {
        assert(ocs.contains_key(k));
    }
    assert forall|k: u32| #[trigger] cs.contains_key(k) && cs[k].state is Subscriber implies {
        let s2 = cs[k].state->Subscriber_session_id@;
        ss.contains_key(s2) && ss[s2].subscribers().contains(k)
    } by {
        assert(ocs.contains_key(k));
        let s2 = cs[k].state->Subscriber_session_id@;
        if s2 != sid {
            assert(ocs[k].state is Subscriber);
        } else {
            assert(cs[k].state.subscribes(sid));
        }
    }
}

/// A registry stays well formed when a client whose role is
/// `Uninitialized` is taken out of it.
proof fn lemma_remove_idle_client(s: RadarServer, after: RadarServer, c: u32)
    requires
        s.wf(),
        s.client_map().contains_key(c),
        s.client_map()[c].state is Uninitialized,
        after.client_map() == s.client_map().remove(c),
        after.pub_sessions@ == s.pub_sessions@,
    ensures
        after.wf(),
{
    let ss = s.sessions();
    assert(after.sessions() == ss);
    assert forall|sid: Seq<char>| #[trigger] ss.contains_key(sid) implies ss[sid].owner_id != c by {}
    assert forall|sid: Seq<char>, k: u32|
        ss.contains_key(sid) && #[trigger] ss[sid].subscribers().contains(k) implies k != c by {}
}

/// A client publishes at most one session: two live sessions with the same
/// owner are the same session.
pub proof fn lemma_one_session_per_publisher(s: RadarServer, a: Seq<char>, b: Seq<char>)
    requires
        s.wf(),
        s.sessions().contains_key(a),
        s.sessions().contains_key(b),
        s.sessions()[a].owner_id == s.sessions()[b].owner_id,
    ensures
        a == b,
{
}

/// Leaving a session twice in a row: the second call finds nothing to do,
/// reports no error, and sends no second viewer count.
pub proof fn lemma_unsubscribe_twice(s0: RadarServer, s1: RadarServer, s2: RadarServer, sid: Seq<char>, c: u32)
    requires
        s0.wf(),
        s0.unsubscribed(&s1, sid, c),
        s1.unsubscribed(&s2, sid, c),
    ensures
        s2 == s1,
{
}

} // verus!
