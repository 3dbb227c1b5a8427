//! Session state: the rolling transfer identifier that tags each outgoing
//! message.

use vstd::prelude::*;
use crate::codec::{encode, fragments, within_mtu, Outgoing};
use crate::frame::{tx_views, TxPacket};

verus! {

/// Number of values that the rolling transfer identifier takes.
pub const TRANSFER_ID_MODULUS: u8 = 32;

/// The middleware could not build the fragments of an outgoing message.
#[derive(Clone, Copy, Debug, PartialEq, Eq, Structural)]
pub struct EncodeError {}

/// The identifier that follows `id`.
pub open spec fn successor(id: u8) -> u8 {
    ((id + 1) % 32) as u8
}

/// The identifier reached from `seed` after `n` messages.
pub open spec fn rolled(seed: u8, n: nat) -> u8
    decreases n,
{
    if n == 0 {
        seed
    } else {
        successor(rolled(seed, (n - 1) as nat))
    }
}

/// The identifier that a session starts with at the time `now`, in milliseconds.
pub open spec fn seeded(now: u128) -> u8 {
    (now % 32) as u8
}

/// From a seed below 32, the identifier after `n` messages is the seed plus
/// `n`, modulo 32.
pub proof fn law_rolling_identifier(seed: u8, n: nat)
    requires
        seed < 32,
    ensures
        rolled(seed, n) == (seed + n) % 32,
    decreases n,
{
    if n > 0 {
        law_rolling_identifier(seed, (n - 1) as nat);
        let before = rolled(seed, (n - 1) as nat);
        assert(((seed + n - 1) % 32 + 1) % 32 == (seed + n) % 32) by (nonlinear_arith);
    }
}

/// The session state of one interface.
pub struct Session {
    transfer_id: u8,
}

impl Session {
    /// The transfer identifier that the next outgoing message gets.
    pub closed spec fn current(&self) -> u8 {
        self.transfer_id
    }

    /// The transfer identifier is below 32.
    pub open spec fn wf(&self) -> bool {
        self.current() < 32
    }

    /// A session seeded from the time `now`, in milliseconds.
    pub fn new(now: u128) -> (r: Self)
        ensures
            r.wf(),
            r.current() == seeded(now),
    {
        Session { transfer_id: (now % 32) as u8 }
    }

    /// A session that starts at the identifier `seed`, taken modulo 32.
    pub fn with_seed(seed: u8) -> (r: Self)
        ensures
            r.wf(),
            r.current() == seed % 32,
    {
        Session { transfer_id: seed % TRANSFER_ID_MODULUS }
    }

    /// Begins a new session at the time `now`: the identifier is seeded
    /// again, so that a peer that still holds the old one sees a mismatch.
    pub fn reseed(&mut self, now: u128)
        ensures
            final(self).wf(),
            final(self).current() == seeded(now),
    {
        self.transfer_id = (now % 32) as u8;
    }

    /// The transfer identifier that the next outgoing message gets.
    pub fn transfer_id(&self) -> (r: u8)
        ensures
            r == self.current(),
    {
        self.transfer_id
    }

    /// Hands out the transfer identifier for one outgoing message and moves
    /// on to the next, wrapping from 31 to 0.
    pub fn next_transfer_id(&mut self) -> (r: u8)
        requires
            old(self).wf(),
        ensures
            final(self).wf(),
            r == old(self).current(),
            r < 32,
            final(self).current() == successor(old(self).current()),
    {
        let id = self.transfer_id;
        self.transfer_id = (id + 1) % TRANSFER_ID_MODULUS;
        id
    }

    /// Builds the fragments of one outgoing transfer of the node `node_id`,
    /// tagged with the current transfer identifier, and moves the identifier
    /// on whether or not the middleware accepts the transfer.
    pub fn build(&mut self, node_id: u8, kind: Outgoing, port_id: u16, payload: &[u8]) -> (r: Result<
        Vec<TxPacket>,
        EncodeError,
    >)
        requires
            old(self).wf(),
        ensures
            final(self).wf(),
            final(self).current() == successor(old(self).current()),
            match r {
                Ok(out) => fragments(node_id, old(self).current(), kind, port_id, payload@) == Some(
                    tx_views(out@),
                ) && within_mtu(tx_views(out@)),
                Err(_) => fragments(node_id, old(self).current(), kind, port_id, payload@).is_none(),
            },
    {
        let id = self.next_transfer_id();
        match encode(node_id, id, kind, port_id, payload) {
            Some(out) => Ok(out),
            None => Err(EncodeError {  }),
        }
    }
}

} // verus!
