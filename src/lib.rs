//! Relay registry for live radar sessions: publishers open sessions, viewers
//! subscribe to them, and every update a publisher sends is fanned out to the
//! bounded outbound queues of that session's viewers.
pub mod protocol;
pub mod outbox;
pub mod client;
pub mod session;
pub mod session_table;
pub mod server;
pub mod session_id;
pub mod dispatch;
pub mod framing;
