//! The logical messages exchanged with publishers and viewers, and the role
//! a connection currently holds.
use vstd::prelude::*;

verus! {

/// Why a request was refused; reported to the offending client, never fatal.
#[derive(Clone, Copy, Debug, PartialEq, Eq, Structural)]
pub enum ErrorReason {
    /// The referenced client is not registered.
    InvalidClientId,
    /// The client's current role forbids the request.
    InvalidClientState,
    /// No live session carries the given id.
    InvalidSessionId,
    /// A freshly drawn session id is already held by a live session.
    SessionIdInUse,
}

/// The role a connection currently holds.
#[derive(Debug, PartialEq, Eq)]
pub enum ClientState {
    Uninitialized,
    Publisher { session_id: String },
    Subscriber { session_id: String },
}

impl ClientState {
    /// Holds when the role is `Publisher` of the session `sid`.
    pub open spec fn publishes(&self, sid: Seq<char>) -> bool {
        self is Publisher && self->Publisher_session_id@ == sid
    }

    /// Holds when the role is `Subscriber` of the session `sid`.
    pub open spec fn subscribes(&self, sid: Seq<char>) -> bool {
        self is Subscriber && self->Subscriber_session_id@ == sid
    }

    /// An identical copy of the role.
    pub fn duplicate(&self) -> (r: ClientState)
        ensures
            r == *self,
    {
        match self {
            ClientState::Uninitialized => ClientState::Uninitialized,
            ClientState::Publisher { session_id } => ClientState::Publisher { session_id: session_id.clone() },
            ClientState::Subscriber { session_id } => ClientState::Subscriber { session_id: session_id.clone() },
        }
    }

    pub fn is_uninitialized(&self) -> (r: bool)
        ensures
            r == (self is Uninitialized),
    {
        match self {
            ClientState::Uninitialized => true,
            _ => false,
        }
    }

    /// The session a subscriber belongs to, if the role is `Subscriber`.
    pub fn subscribed_session(&self) -> (r: Option<&String>)
        ensures
            r is Some == self is Subscriber,
            r is Some ==> r->0 == self->Subscriber_session_id,
    {
        match self {
            ClientState::Subscriber { session_id } => Some(session_id),
            _ => None,
        }
    }
}

/// Server to client messages.
#[derive(Debug, PartialEq, Eq)]
pub enum S2CMessage {
    /// A session was opened for the publisher; carries its id.
    SessionStarted { session_id: String },
    /// The viewer joined; carries the latest state published, if any.
    Joined { initial_state: Option<String> },
    /// A state update, forwarded verbatim from the publisher.
    StateUpdate { payload: String },
    /// The current number of viewers of the session.
    NotifyViewCount { viewers: usize },
    /// A request was refused.
    Error { reason: ErrorReason },
}

/// Client to server messages.
#[derive(Debug, PartialEq, Eq)]
pub enum C2SMessage {
    /// A publisher asks to go live.
    StartSession,
    /// A publisher sends a state snapshot for its viewers.
    PublishState { payload: String },
    /// A publisher ends its connection.
    Stop,
    /// A viewer asks to join the session with the given id.
    Join { session_id: String },
    /// A viewer leaves its session.
    Leave,
}

pub fn copy_string_option(s: &Option<String>) -> (r: Option<String>)
    ensures
        r == *s,
{
    match s {
        Some(v) => Some(v.clone()),
        None => None,
    }
}

impl S2CMessage {
    /// An identical copy of the message.
    pub fn duplicate(&self) -> (r: S2CMessage)
        ensures
            r == *self,
    {
        match self {
            S2CMessage::SessionStarted { session_id } => S2CMessage::SessionStarted {
                session_id: session_id.clone(),
            },
            S2CMessage::Joined { initial_state } => S2CMessage::Joined {
                initial_state: copy_string_option(initial_state),
            },
            S2CMessage::StateUpdate { payload } => S2CMessage::StateUpdate {
                payload: payload.clone(),
            },
            S2CMessage::NotifyViewCount { viewers } => S2CMessage::NotifyViewCount {
                viewers: *viewers,
            },
            S2CMessage::Error { reason } => S2CMessage::Error { reason: *reason },
        }
    }
}

} // verus!
