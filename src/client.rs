//! One connected peer as the registry holds it.
use vstd::prelude::*;

use crate::outbox::Outbox;
use crate::protocol::ClientState;

verus! {

/// A registered connection: its id, peer address, role and outbound queue.
pub struct PubClient {
    pub client_id: u32,
    pub address: String,
    pub state: ClientState,
    pub outbox: Outbox,
}

impl PubClient {
    /// `self` and `other` differ at most in what their outbound queues hold.
    pub open spec fn same_but_outbox(&self, other: &PubClient) -> bool {
        &&& self.client_id == other.client_id
        &&& self.address == other.address
        &&& self.state == other.state
        &&& self.outbox.spec_capacity() == other.outbox.spec_capacity()
    }

    /// `self` and `other` differ at most in their roles.
    pub open spec fn same_but_state(&self, other: &PubClient) -> bool {
        &&& self.client_id == other.client_id
        &&& self.address == other.address
        &&& self.outbox@ == other.outbox@
        &&& self.outbox.spec_capacity() == other.outbox.spec_capacity()
    }

    pub fn new(address: String, outbox_capacity: usize) -> (r: PubClient)
        ensures
            r.client_id == 0,
            r.address == address,
            r.state is Uninitialized,
            r.outbox@ == Seq::<crate::protocol::S2CMessage>::empty(),
            r.outbox.spec_capacity() == outbox_capacity,
    {
        PubClient {
            client_id: 0,
            address,
            state: ClientState::Uninitialized,
            outbox: Outbox::new(outbox_capacity),
        }
    }
}

} // verus!
