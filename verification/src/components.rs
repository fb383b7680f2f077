//! Plain gameplay components: teams, health and door keys.
use vstd::prelude::*;

verus! {

/// The side an entity fights on.
#[derive(Clone, Copy, PartialEq, Eq, Structural, Debug)]
pub enum Team {
    AntiVirus,
    Virus,
    Deathmatch,
    Spectator,
    World,
}

/// The team that a wire byte stands for: bytes past the last team read as
/// `Spectator`.
pub open spec fn team_from_u8(value: u8) -> Team {
    if value == 0 {
        Team::AntiVirus
    } else if value == 1 {
        Team::Virus
    } else if value == 2 {
        Team::Deathmatch
    } else if value == 3 {
        Team::Spectator
    } else if value == 4 {
        Team::World
    } else {
        Team::Spectator
    }
}

/// The wire byte of a team: its position in the declaration.
pub open spec fn team_to_u8(team: Team) -> u8 {
    match team {
        Team::AntiVirus => 0,
        Team::Virus => 1,
        Team::Deathmatch => 2,
        Team::Spectator => 3,
        Team::World => 4,
    }
}

impl From<u8> for Team {
    fn from(value: u8) -> (r: Team) {
        match value {
            0 => Team::AntiVirus,
            1 => Team::Virus,
            2 => Team::Deathmatch,
            3 => Team::Spectator,
            4 => Team::World,
            _ => Team::Spectator,
        }
    }
}

impl vstd::std_specs::convert::FromSpecImpl<u8> for Team {
    open spec fn obeys_from_spec() -> bool {
        true
    }

    open spec fn from_spec(value: u8) -> Team {
        team_from_u8(value)
    }
}

impl Team {
    /// The wire byte of this team (`team as u8`).
    pub fn to_u8(self) -> (r: u8)
        ensures
            r == team_to_u8(self),
    {
        self as u8
    }
}

/// Every team survives the trip through its wire byte.
pub proof fn lemma_team_byte_roundtrip(team: Team)
    ensures
        team_from_u8(team_to_u8(team)) == team,
{
}

/// Hit points of a damageable entity.
#[derive(Clone, Copy, Debug)]
pub struct Health {
    current: i16,
    pub max_health: i16,
}

impl Health {
    /// Current hit points.
    pub closed spec fn spec_current(&self) -> i16 {
        self.current
    }

    /// The ceiling that healing stops at.
    pub closed spec fn spec_max_health(&self) -> i16 {
        self.max_health
    }

    pub fn new(current: i16, max_health: i16) -> (r: Health)
        ensures
            r.spec_current() == current,
            r.spec_max_health() == max_health,
    {
        Health { current: current, max_health: max_health }
    }

    pub fn dead(&self) -> (r: bool)
        ensures
            r == (self.spec_current() <= 0),
    {
        self.current <= 0
    }

    pub fn current(&self) -> (r: i16)
        ensures
            r == self.spec_current(),
    {
        self.current
    }

    pub fn set_current(&mut self, amount: i16)
        ensures
            final(self).spec_current() == amount,
            final(self).spec_max_health() == old(self).spec_max_health(),
    {
        self.current = amount;
    }

    /// Heals by `amount`, never past `max_health`.
    pub fn increment(&mut self, amount: i16)
        requires
            i16::MIN <= old(self).spec_current() + amount <= i16::MAX,
        ensures
            final(self).spec_current() == if old(self).spec_current() + amount
                <= old(self).spec_max_health() {
                old(self).spec_current() + amount
            } else {
                old(self).spec_max_health() as int
            },
            final(self).spec_max_health() == old(self).spec_max_health(),
    {
        let sum = self.current + amount;
        self.current = if sum < self.max_health {
            sum
        } else {
            self.max_health
        };
    }

    /// Takes `amount` of damage, never below zero.
    pub fn decrement(&mut self, amount: i16)
        requires
            i16::MIN <= old(self).spec_current() - amount <= i16::MAX,
        ensures
            final(self).spec_current() == if old(self).spec_current() - amount >= 0 {
                old(self).spec_current() - amount
            } else {
                0
            },
            final(self).spec_max_health() == old(self).spec_max_health(),
    {
        let diff = self.current - amount;
        self.current = if diff > 0 {
            diff
        } else {
            0
        };
    }
}

impl Default for Health {
    /// A full health pool of one hundred points.
    fn default() -> (r: Health)
        ensures
            r.spec_current() == 100,
            r.spec_max_health() == 100,
    {
        Health { current: 100, max_health: 100 }
    }
}

/// The colored keys that open locked doors.
#[derive(Clone, Copy, PartialEq, Eq, Structural, Debug)]
pub enum DoorKey {
    Red,
    Blue,
    Yellow,
}

} // verus!
