//! World snapshots that the server sends to its clients: the entity
//! records, their delta compression and their wire format.
use crate::components::Team;
use crate::monsters::MonsterKind;
use crate::net::serialize::{QuantizedRotation, QuantizedVec3U16};
use crate::pickups::PickupKind;
use vstd::prelude::*;

pub mod diff;
pub mod history;
pub mod interpolate;
pub mod message;
pub mod stream;
pub mod truncation;
pub mod wire;

verus! {

/// Quantization range of monster and pickup positions.
pub const TRANSFORM_QUANTIZE_RANGE: u32 = 1000;

/// Quantization range of player velocities.
pub const VELOCITY_QUANTIZE_RANGE: u32 = 500;

/// A player position as the IEEE-754 bit patterns of its three `f32`
/// components; positions travel unquantized.
#[derive(Clone, Copy, PartialEq, Eq, Structural, Debug, Default)]
pub struct Vec3Bits {
    pub x: u32,
    pub y: u32,
    pub z: u32,
}

/// The state of one player; in a delta, `None` marks a field that did not
/// change.
#[derive(Clone, Copy, PartialEq, Debug)]
pub struct PlayerSnapshot {
    pub id: u8,
    pub translation: Option<Vec3Bits>,
    pub rotation: Option<QuantizedRotation>,
    pub velocity: Option<QuantizedVec3U16>,
    pub frozen_amount: Option<u8>,
    pub health: Option<i16>,
    pub frags: Option<u16>,
    pub deaths: Option<u16>,
    pub score: Option<u16>,
    pub name: Option<[u8; 32]>,
    pub team: Option<Team>,
    pub ping: Option<u8>,
    /// The player's entity on the server; never sent.
    pub entity: Option<u64>,
}

/// A `PlayerSnapshot` with the name as a sequence of bytes.
pub struct PlayerSnapshotView {
    pub id: u8,
    pub translation: Option<Vec3Bits>,
    pub rotation: Option<QuantizedRotation>,
    pub velocity: Option<QuantizedVec3U16>,
    pub frozen_amount: Option<u8>,
    pub health: Option<i16>,
    pub frags: Option<u16>,
    pub deaths: Option<u16>,
    pub score: Option<u16>,
    pub name: Option<Seq<u8>>,
    pub team: Option<Team>,
    pub ping: Option<u8>,
    pub entity: Option<u64>,
}

impl View for PlayerSnapshot {
    type V = PlayerSnapshotView;

    open spec fn view(&self) -> PlayerSnapshotView {
        PlayerSnapshotView {
            id: self.id,
            translation: self.translation,
            rotation: self.rotation,
            velocity: self.velocity,
            frozen_amount: self.frozen_amount,
            health: self.health,
            frags: self.frags,
            deaths: self.deaths,
            score: self.score,
            name: name_view(self.name),
            team: self.team,
            ping: self.ping,
            entity: self.entity,
        }
    }
}

/// The state of one pickup.
#[derive(Clone, Copy, PartialEq, Eq, Structural, Debug)]
pub struct PickupSnapshot {
    pub id: u8,
    pub translation: Option<QuantizedVec3U16>,
    pub kind: Option<PickupKind>,
}

/// The state of one monster.
#[derive(Clone, Copy, PartialEq, Eq, Structural, Debug)]
pub struct MonsterSnapshot {
    pub id: u8,
    pub kind: Option<MonsterKind>,
    pub translation: Option<QuantizedVec3U16>,
    pub rotation: Option<QuantizedRotation>,
    /// The monster's entity on the server; never sent.
    pub entity: Option<u64>,
}

/// The world at one server tick, or its difference to an earlier one.
#[derive(Clone, PartialEq, Debug)]
pub struct Snapshot {
    /// Unix time of the snapshot in milliseconds.
    pub id: u64,
    /// Whether this is a full snapshot rather than a delta.
    pub absolute: bool,
    pub players: Vec<PlayerSnapshot>,
    pub monsters: Vec<MonsterSnapshot>,
    pub pickups: Vec<PickupSnapshot>,
    pub local_player_id: Option<u8>,
    pub local_last_processed_input_id: Option<u64>,
    pub player_deletions: Vec<u8>,
    pub monster_deletions: Vec<u8>,
    pub pickup_deletions: Vec<u8>,
}

/// A `Snapshot` with its vectors as sequences.
pub struct SnapshotView {
    pub id: u64,
    pub absolute: bool,
    pub players: Seq<PlayerSnapshotView>,
    pub monsters: Seq<MonsterSnapshot>,
    pub pickups: Seq<PickupSnapshot>,
    pub local_player_id: Option<u8>,
    pub local_last_processed_input_id: Option<u64>,
    pub player_deletions: Seq<u8>,
    pub monster_deletions: Seq<u8>,
    pub pickup_deletions: Seq<u8>,
}

/// A player name as a sequence of bytes.
pub open spec fn name_view(name: Option<[u8; 32]>) -> Option<Seq<u8>> {
    match name {
        Some(n) => Some(n@),
        None => None,
    }
}

/// The views of a sequence of players.
pub open spec fn player_views(ps: Seq<PlayerSnapshot>) -> Seq<PlayerSnapshotView> {
    ps.map_values(|p: PlayerSnapshot| p@)
}

impl View for Snapshot {
    type V = SnapshotView;

    open spec fn view(&self) -> SnapshotView {
        SnapshotView {
            id: self.id,
            absolute: self.absolute,
            players: player_views(self.players@),
            monsters: self.monsters@,
            pickups: self.pickups@,
            local_player_id: self.local_player_id,
            local_last_processed_input_id: self.local_last_processed_input_id,
            player_deletions: self.player_deletions@,
            monster_deletions: self.monster_deletions@,
            pickup_deletions: self.pickup_deletions@,
        }
    }
}

/// What went wrong while reading a snapshot: the field that ran out of bytes.
#[derive(Clone, Copy, PartialEq, Eq, Structural, Debug)]
pub enum StreamError {
    SnapshotId,
    SnapshotHead,
    PlayerCount,
    MonsterCount,
    PickupCount,
    LocalPlayerId,
    LocalLastProcessedInputId,
    PlayerDeletionsCount,
    PlayerDeletion,
    MonsterDeletionsCount,
    MonsterDeletion,
    PickupDeletionsCount,
    PickupDeletion,
    PlayerTranslationX,
    PlayerTranslationY,
    PlayerTranslationZ,
    PlayerPitch,
    PlayerYaw,
    PlayerRoll,
    PlayerVelocityX,
    PlayerVelocityY,
    PlayerVelocityZ,
    PlayerHealth,
    FrozenAmount,
    PlayerFrags,
    PlayerDeaths,
    PlayerScore,
    PlayerName,
    PlayerTeam,
    PlayerPing,
    PickupId,
    PickupHead,
    PickupX,
    PickupY,
    PickupZ,
    PickupKind,
    MonsterId,
    MonsterHead,
    MonsterKind,
    MonsterTranslationX,
    MonsterTranslationY,
    MonsterTranslationZ,
    MonsterPitch,
    MonsterYaw,
    MonsterRoll,
}

} // verus!
