//! Pickups lying in the level: health packs and door keys.
use vstd::prelude::*;

verus! {

/// What a pickup gives the player who touches it.
#[derive(Clone, Copy, PartialEq, Eq, Structural, Debug)]
pub enum PickupKind {
    Health,
    RedKey,
    BlueKey,
    YellowKey,
    OrangeKey,
}

/// The pickup kind that a wire byte stands for: bytes past the last kind
/// read as `Health`.
pub open spec fn pickup_kind_from_u8(value: u8) -> PickupKind {
    if value == 1 {
        PickupKind::RedKey
    } else if value == 2 {
        PickupKind::BlueKey
    } else if value == 3 {
        PickupKind::YellowKey
    } else if value == 4 {
        PickupKind::OrangeKey
    } else {
        PickupKind::Health
    }
}

/// The wire byte of a pickup kind: its position in the declaration.
pub open spec fn pickup_kind_to_u8(kind: PickupKind) -> u8 {
    match kind {
        PickupKind::Health => 0,
        PickupKind::RedKey => 1,
        PickupKind::BlueKey => 2,
        PickupKind::YellowKey => 3,
        PickupKind::OrangeKey => 4,
    }
}

impl From<u8> for PickupKind {
    fn from(value: u8) -> (r: PickupKind) {
        match value {
            0 => PickupKind::Health,
            1 => PickupKind::RedKey,
            2 => PickupKind::BlueKey,
            3 => PickupKind::YellowKey,
            4 => PickupKind::OrangeKey,
            _ => PickupKind::Health,
        }
    }
}

impl vstd::std_specs::convert::FromSpecImpl<u8> for PickupKind {
    open spec fn obeys_from_spec() -> bool {
        true
    }

    open spec fn from_spec(value: u8) -> PickupKind {
        pickup_kind_from_u8(value)
    }
}

impl PickupKind {
    /// The wire byte of this kind (`kind as u8`).
    pub fn to_u8(self) -> (r: u8)
        ensures
            r == pickup_kind_to_u8(self),
    {
        self as u8
    }
}

/// Every pickup kind survives the trip through its wire byte.
pub proof fn lemma_pickup_kind_byte_roundtrip(kind: PickupKind)
    ensures
        pickup_kind_from_u8(pickup_kind_to_u8(kind)) == kind,
{
}

/// A pickup lying in the level.
#[derive(Clone, Copy, PartialEq, Eq, Structural, Debug)]
pub struct Pickup {
    pub id: u8,
    pub kind: PickupKind,
}

/// The amount a health pack heals.
#[derive(Clone, Copy, PartialEq, Eq, Structural, Debug)]
pub struct HealthPickup {
    pub amount: i16,
}

/// What touching a pickup does, as decided by the pickup system.
#[derive(Clone, Copy, PartialEq, Eq, Structural, Debug)]
pub enum PickupOutcome {
    /// Heal the toucher by the amount and remove the pickup.
    HealAndDespawn(i16),
    /// Remove the pickup.
    Despawn,
    /// Leave everything as it is.
    Nothing,
}

/// The effect of a player touching a pickup of `kind`; `health_amount` is the
/// amount that a health pack carries, `None` when the pack has no amount.
pub fn pickup_outcome(kind: PickupKind, health_amount: Option<i16>) -> (r: PickupOutcome)
    ensures
        r == match kind {
            PickupKind::Health => match health_amount {
                Some(a) => PickupOutcome::HealAndDespawn(a),
                None => PickupOutcome::Nothing,
            },
            _ => PickupOutcome::Despawn,
        },
{
    match kind {
        PickupKind::Health => match health_amount {
            Some(amount) => PickupOutcome::HealAndDespawn(amount),
            None => PickupOutcome::Nothing,
        },
        PickupKind::RedKey => PickupOutcome::Despawn,
        PickupKind::BlueKey => PickupOutcome::Despawn,
        PickupKind::YellowKey => PickupOutcome::Despawn,
        PickupKind::OrangeKey => PickupOutcome::Despawn,
    }
}

} // verus!
