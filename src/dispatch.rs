//! Turns each client request into one registry operation and the reply
//! that goes back on the same connection.
use vstd::prelude::*;

use crate::protocol::{C2SMessage, ClientState, ErrorReason, S2CMessage};
use crate::server::{PubSessionSubscribeResult, RadarServer};
use crate::session_id::{is_session_id, random_alphanumeric, SESSION_ID_LEN};

verus! {

broadcast use vstd::std_specs::btree::group_btree_axioms;

/// The error reply for `reason`.
pub open spec fn error_reply(reason: ErrorReason) -> Option<S2CMessage> {
    Some(S2CMessage::Error { reason })
}

impl RadarServer {
    /// `after` and `reply` are what request `cmd` from client `c` yields on
    /// `self`; `fresh` is the id a new session would get.
    pub open spec fn dispatched(
        &self,
        after: &RadarServer,
        c: u32,
        cmd: C2SMessage,
        fresh: String,
        reply: Option<S2CMessage>,
    ) -> bool {
        let cs = self.client_map();
        match cmd {
            C2SMessage::StartSession => if !cs.contains_key(c) {
                *after == *self && reply == error_reply(ErrorReason::InvalidClientId)
            } else if !(cs[c].state is Uninitialized) {
                *after == *self && reply == error_reply(ErrorReason::InvalidClientState)
            } else if self.sessions().contains_key(fresh@) {
                *after == *self && reply == error_reply(ErrorReason::SessionIdInUse)
            } else {
                self.session_created(after, c, fresh@) && reply == Some(
                    S2CMessage::SessionStarted { session_id: fresh },
                )
            },
            C2SMessage::PublishState { payload } => self.published(after, c, payload) && reply is None,
            C2SMessage::Stop => *after == *self && reply is None,
            C2SMessage::Join { session_id } => if !self.sessions().contains_key(session_id@) {
                *after == *self && reply == error_reply(ErrorReason::InvalidSessionId)
            } else if !cs.contains_key(c) {
                *after == *self && reply == error_reply(ErrorReason::InvalidClientId)
            } else if !(cs[c].state is Uninitialized) {
                *after == *self && reply == error_reply(ErrorReason::InvalidClientState)
            } else {
                self.subscribed(after, session_id@, c) && reply == Some(
                    S2CMessage::Joined { initial_state: self.sessions()[session_id@].spec_last_state() },
                )
            },
            C2SMessage::Leave => reply is None && if cs.contains_key(c) && cs[c].state is Subscriber {
                self.unsubscribed(after, cs[c].state->Subscriber_session_id@, c)
            } else {
                *after == *self
            },
        }
    }

    /// `after` is `self` once request `cmd` from client `c` has been
    /// carried out and its reply, if any, offered to `c`'s outbound queue.
    pub open spec fn handled(&self, after: &RadarServer, c: u32, cmd: C2SMessage, fresh: String) -> bool {
        exists|mid: RadarServer, reply: Option<S2CMessage>|
            #[trigger] self.dispatched(&mid, c, cmd, fresh, reply) && match reply {
                Some(m) => mid.replied(after, c, m),
                None => *after == mid,
            }
    }

    /// Carries out request `command` from client `client_id` and returns the
    /// reply it calls for; `fresh_session_id` is the id a new session gets.
    pub fn dispatch(&mut self, client_id: u32, command: C2SMessage, fresh_session_id: String) -> (r: Option<S2CMessage>)
        requires
            old(self).wf(),
        ensures
            final(self).wf(),
            old(self).dispatched(final(self), client_id, command, fresh_session_id, r),
    {
        match command {
            C2SMessage::StartSession => match self.pub_session_create_with_id(client_id, fresh_session_id) {
                Ok(session_id) => Some(S2CMessage::SessionStarted { session_id }),
                Err(reason) => Some(S2CMessage::Error { reason }),
            },
            C2SMessage::PublishState { payload } => {
                self.pub_session_publish(client_id, payload);
                None
            },
            C2SMessage::Stop => None,
            C2SMessage::Join { session_id } => match self.pub_session_subscribe(&session_id, client_id) {
                PubSessionSubscribeResult::Success => {
                    let initial_state = self.pub_session_find(&session_id).unwrap().last_state();
                    Some(S2CMessage::Joined { initial_state })
                },
                PubSessionSubscribeResult::InvalidClientState => Some(
                    S2CMessage::Error { reason: ErrorReason::InvalidClientState },
                ),
                PubSessionSubscribeResult::InvalidSessionId => Some(
                    S2CMessage::Error { reason: ErrorReason::InvalidSessionId },
                ),
                PubSessionSubscribeResult::InvalidClientId => Some(
                    S2CMessage::Error { reason: ErrorReason::InvalidClientId },
                ),
            },
            C2SMessage::Leave => {
                let session_id = match self.clients.get(&client_id) {
                    None => {
                        return None;
                    },
                    Some(client) => match &client.state {
                        ClientState::Subscriber { session_id } => session_id.clone(),
                        _ => {
                            return None;
                        },
                    },
                };
                self.pub_session_unsubscribe(&session_id, client_id);
                None
            },
        }
    }

    /// Carries out request `command` from client `client_id` and queues its
    /// reply; returns whether the connection stays open (all but `Stop`).
    pub fn handle_command_with_session_id(
        &mut self,
        client_id: u32,
        command: C2SMessage,
        fresh_session_id: String,
    ) -> (keep_open: bool)
        requires
            old(self).wf(),
        ensures
            final(self).wf(),
            old(self).handled(final(self), client_id, command, fresh_session_id),
            keep_open == !(command is Stop),
    {
        let keep_open = !matches!(command, C2SMessage::Stop);
        let ghost cmd = command;
        let ghost fresh = fresh_session_id;
        let reply = self.dispatch(client_id, command, fresh_session_id);
        let ghost mid = *self;
        match reply {
            Some(m) => {
                let ghost gm = m;
                self.send_to(client_id, m);
                proof {
                    assert(old(self).dispatched(&mid, client_id, cmd, fresh, Some(gm)));
                }
            },
            None => {
                proof {
                    assert(old(self).dispatched(&mid, client_id, cmd, fresh, None));
                }
            },
        }
        keep_open
    }

    /// Carries out request `command` from client `client_id` and queues its
    /// reply, drawing a random id when the request opens a session; returns
    /// whether the connection stays open.
    pub fn handle_command(&mut self, client_id: u32, command: C2SMessage) -> (keep_open: bool)
        requires
            old(self).wf(),
        ensures
            final(self).wf(),
            exists|fresh: String|
                (command is StartSession ==> is_session_id(fresh@)) && #[trigger] old(self).handled(
                    final(self),
                    client_id,
                    command,
                    fresh,
                ),
            keep_open == !(command is Stop),
    {
        let fresh = if matches!(command, C2SMessage::StartSession) {
            random_alphanumeric(SESSION_ID_LEN)
        } else {
            String::new()
        };
        let ghost g = fresh;
        let ghost cmd = command;
        let r = self.handle_command_with_session_id(client_id, command, fresh);
        proof {
            assert(old(self).handled(self, client_id, cmd, g));
        }
        r
    }
}

} // verus!
