//! Monsters: their kinds and the weapon each kind carries.
use vstd::prelude::*;

verus! {

/// The three grunt variants.
#[derive(Clone, Copy, PartialEq, Eq, Structural, Debug)]
pub enum MonsterKind {
    GruntFusion,
    GruntLasers,
    GruntPlasma,
}

/// The monster kind that a wire byte stands for: bytes past the last kind
/// read as `GruntFusion`.
pub open spec fn monster_kind_from_u8(value: u8) -> MonsterKind {
    if value == 1 {
        MonsterKind::GruntLasers
    } else if value == 2 {
        MonsterKind::GruntPlasma
    } else {
        MonsterKind::GruntFusion
    }
}

/// The wire byte of a monster kind: its position in the declaration.
pub open spec fn monster_kind_to_u8(kind: MonsterKind) -> u8 {
    match kind {
        MonsterKind::GruntFusion => 0,
        MonsterKind::GruntLasers => 1,
        MonsterKind::GruntPlasma => 2,
    }
}

impl From<u8> for MonsterKind {
    fn from(value: u8) -> (r: MonsterKind) {
        match value {
            0 => MonsterKind::GruntFusion,
            1 => MonsterKind::GruntLasers,
            2 => MonsterKind::GruntPlasma,
            _ => MonsterKind::GruntFusion,
        }
    }
}

impl vstd::std_specs::convert::FromSpecImpl<u8> for MonsterKind {
    open spec fn obeys_from_spec() -> bool {
        true
    }

    open spec fn from_spec(value: u8) -> MonsterKind {
        monster_kind_from_u8(value)
    }
}

impl MonsterKind {
    /// The wire byte of this kind (`kind as u8`).
    pub fn to_u8(self) -> (r: u8)
        ensures
            r == monster_kind_to_u8(self),
    {
        self as u8
    }

    /// The weapon key of the single weapon that a monster of this kind is
    /// spawned with.
    pub fn weapon_key(self) -> (r: u8)
        ensures
            r == match self {
                MonsterKind::GruntPlasma => 30u8,
                MonsterKind::GruntLasers => 31u8,
                MonsterKind::GruntFusion => 32u8,
            },
    {
        match self {
            MonsterKind::GruntPlasma => 30,
            MonsterKind::GruntLasers => 31,
            MonsterKind::GruntFusion => 32,
        }
    }
}

/// Every monster kind survives the trip through its wire byte.
pub proof fn lemma_monster_kind_byte_roundtrip(kind: MonsterKind)
    ensures
        monster_kind_from_u8(monster_kind_to_u8(kind)) == kind,
{
}

} // verus!
