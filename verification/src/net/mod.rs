//! Networking: channel numbering and the client's choice of snapshot.
use vstd::prelude::*;

pub mod client;
pub mod serialize;

verus! {

/// The client id of the player that hosts the game.
pub const AUTHORITY_ID: u64 = 0;

/// The message channels between client and server.
#[derive(Clone, Copy, PartialEq, Eq, Structural, Debug)]
pub enum NetChannel {
    SnapshotUnreliable,
    SnapshotReliable,
    GameState,
    Weapons,
}

impl From<NetChannel> for u8 {
    fn from(channel_id: NetChannel) -> (r: u8) {
        match channel_id {
            NetChannel::SnapshotUnreliable => 0,
            NetChannel::SnapshotReliable => 1,
            NetChannel::GameState => 2,
            NetChannel::Weapons => 3,
        }
    }
}

impl vstd::std_specs::convert::FromSpecImpl<NetChannel> for u8 {
    open spec fn obeys_from_spec() -> bool {
        true
    }

    open spec fn from_spec(channel_id: NetChannel) -> u8 {
        match channel_id {
            NetChannel::SnapshotUnreliable => 0,
            NetChannel::SnapshotReliable => 1,
            NetChannel::GameState => 2,
            NetChannel::Weapons => 3,
        }
    }
}

} // verus!
